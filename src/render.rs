//! Clipping of sprites against the terminal and the draw commands of one
//! redraw.
use crate::frame::{lines_of, Frame, FrameView};
use vstd::prelude::*;

verus! {

/// The characters `[start, end)` of a line placed at column `x` that fall
/// inside columns `[0, width)`; `None` when none do.
pub open spec fn visible_range(x: int, len: int, width: int) -> Option<(int, int)> {
    let start = if x < 0 {
        -x
    } else {
        0
    };
    let end = if x + len > width {
        width - x
    } else {
        len
    };
    if start < end {
        Some((start, end))
    } else {
        None
    }
}

/// First row of a sprite of `height` rows, centred in `term_height` rows and
/// never above row 0.
pub open spec fn vertical_start_of(term_height: int, height: int) -> int {
    if term_height >= height {
        (term_height - height) / 2
    } else {
        0
    }
}

/// Text to write at a screen position.
pub struct DrawView {
    pub col: int,
    pub row: int,
    pub text: Seq<char>,
}

/// Writes `text` starting at column `col` of row `row`.
pub struct DrawCmd {
    pub col: u16,
    pub row: u16,
    pub text: &'static str,
}

impl View for DrawCmd {
    type V = DrawView;

    open spec fn view(&self) -> DrawView {
        DrawView { col: self.col as int, row: self.row as int, text: self.text@ }
    }
}

/// The draw of line `k` of a sprite, if any part of it is on screen.
pub open spec fn line_draw(f: FrameView, k: int, width: int, height: int) -> Option<DrawView> {
    let line = lines_of(f.content)[k];
    let row = vertical_start_of(height, f.height as int) + k;
    if row < height {
        match visible_range(f.x, line.len() as int, width) {
            Some((a, b)) => Some(
                DrawView { col: if f.x < 0 { 0 } else { f.x }, row, text: line.subrange(a, b) },
            ),
            None => None,
        }
    } else {
        None
    }
}

pub open spec fn opt_seq(d: Option<DrawView>) -> Seq<DrawView> {
    match d {
        Some(v) => seq![v],
        None => Seq::empty(),
    }
}

/// The draws of the first `n` lines of a sprite, top to bottom.
pub open spec fn lines_draws(f: FrameView, n: nat, width: int, height: int) -> Seq<DrawView>
    decreases n,
{
    if n == 0 {
        Seq::empty()
    } else {
        lines_draws(f, (n - 1) as nat, width, height) + opt_seq(
            line_draw(f, n - 1, width, height),
        )
    }
}

/// The draws of a whole redraw: sprite after sprite in sequence order.
pub open spec fn scene_draws(fs: Seq<FrameView>, width: int, height: int) -> Seq<DrawView>
    decreases fs.len(),
{
    if fs.len() == 0 {
        Seq::empty()
    } else {
        scene_draws(fs.drop_last(), width, height) + lines_draws(
            fs.last(),
            fs.last().height,
            width,
            height,
        )
    }
}

/// The visible part of a line of `len` characters placed at column `x` on
/// a terminal `term_width` columns wide: leading characters left of column
/// 0 and trailing ones past the last column are cut.
pub fn clip_line(x: i32, len: u16, term_width: u16) -> (r: Option<(usize, usize)>)
    ensures
        r matches Some((a, b)) ==> visible_range(x as int, len as int, term_width as int) == Some(
            (a as int, b as int),
        ),
        r is None <==> visible_range(x as int, len as int, term_width as int) is None,
{
    let x = x as i64;
    let len = len as i64;
    let w = term_width as i64;
    let start: i64 = if x < 0 {
        -x
    } else {
        0
    };
    let end: i64 = if x + len > w {
        w - x
    } else {
        len
    };
    if start < end {
        Some((start as usize, end as usize))
    } else {
        None
    }
}

/// First row of a sprite `height` rows tall, centred vertically.
pub fn vertical_start(term_height: u16, height: u16) -> (r: u16)
    ensures
        r == vertical_start_of(term_height as int, height as int),
{
    if term_height >= height {
        (term_height - height) / 2
    } else {
        0
    }
}

/// Clipping: a line at a negative column loses its first `-x` characters,
/// one reaching past the last column loses the characters beyond it, and a
/// line wholly outside columns `[0, width)` is not drawn at all (nor an empty
/// line, nor anything on a terminal without columns).
pub proof fn lemma_clipping(x: int, len: int, width: int)
    requires
        len >= 0,
        width >= 0,
    ensures
        visible_range(x, len, width) is None <==> (len == 0 || width == 0 || x >= width || x + len <= 0),
        visible_range(x, len, width) matches Some((a, b)) ==> {
            &&& x < 0 ==> a == -x
            &&& x >= 0 ==> a == 0
            &&& x + len > width ==> b == width - x
            &&& x + len <= width ==> b == len
        },
{
}

pub open spec fn draw_views(v: Seq<DrawCmd>) -> Seq<DrawView> {
    v.map_values(|d: DrawCmd| d@)
}

pub open spec fn frame_views(v: Seq<Frame>) -> Seq<FrameView> {
    v.map_values(|f: Frame| f@)
}

/// Appends to `out` the draws of the visible lines of one sprite.
pub fn render_frame(frame: &Frame, term_width: u16, term_height: u16, out: &mut Vec<DrawCmd>)
    ensures
        draw_views(final(out)@) == draw_views(old(out)@) + lines_draws(
            frame@,
            frame@.height,
            term_width as int,
            term_height as int,
        ),
{
    let ghost w = term_width as int;
    let ghost h = term_height as int;
    let height = frame.height();
    let top = vertical_start(term_height, height);
    let x = frame.x();
    let mut k: u16 = 0;
    proof {
        assert(draw_views(out@) =~= draw_views(old(out)@) + lines_draws(frame@, 0, w, h));
    }
    while k < height
        invariant
            height == frame@.height,
            top == vertical_start_of(h, height as int),
            x == frame@.x,
            w == term_width,
            h == term_height,
            k <= height,
            draw_views(out@) == draw_views(old(out)@) + lines_draws(frame@, k as nat, w, h),
        decreases height - k,
    {
        let ghost before = out@;
        let row: u32 = top as u32 + k as u32;
        if row < term_height as u32 {
            let line = frame.line(k);
            let len = line.unicode_len() as u16;
            match clip_line(x, len, term_width) {
                Some((a, b)) => {
                    let col: u16 = if x < 0 {
                        0
                    } else {
                        x as u16
                    };
                    let text = line.substring_char(a, b);
                    out.push(DrawCmd { col, row: row as u16, text });
                    proof {
                        assert(draw_views(out@) =~= draw_views(before).push(out@.last()@));
                    }
                },
                None => {},
            }
        }
        proof {
            assert(draw_views(out@) =~= draw_views(old(out)@) + lines_draws(
                frame@,
                (k + 1) as nat,
                w,
                h,
            ));
        }
        k = k + 1;
    }
}

/// The draw commands of one redraw of `frames` on a terminal of
/// `term_width` columns and `term_height` rows, sprite after sprite.
pub fn render(frames: &Vec<Frame>, term_width: u16, term_height: u16) -> (r: Vec<DrawCmd>)
    ensures
        draw_views(r@) == scene_draws(frame_views(frames@), term_width as int, term_height as int),
{
    let mut out: Vec<DrawCmd> = Vec::new();
    let mut i: usize = 0;
    proof {
        assert(frame_views(frames@.take(0)) =~= Seq::<FrameView>::empty());
        assert(draw_views(out@) =~= Seq::<DrawView>::empty());
    }
    while i < frames.len()
        invariant
            i <= frames@.len(),
            draw_views(out@) == scene_draws(
                frame_views(frames@.take(i as int)),
                term_width as int,
                term_height as int,
            ),
        decreases frames@.len() - i,
    {
        render_frame(&frames[i], term_width, term_height, &mut out);
        proof {
            let fv = frame_views(frames@.take(i + 1));
            assert(fv.drop_last() =~= frame_views(frames@.take(i as int)));
            assert(fv.last() == frames@[i as int]@);
        }
        i = i + 1;
    }
    proof {
        assert(frames@.take(frames@.len() as int) =~= frames@);
    }
    out
}

} // verus!
