//! The active sprites: when to spawn, where to place, how they move and
//! when they retire.
use crate::catalog::random_artwork;
use crate::frame::{lines_of, max_len, Frame, FrameView};
use crate::render::frame_views;
use vstd::prelude::*;

verus! {

/// Columns left empty between a sprite and the next one.
pub const SPACING: i32 = 10;

/// Columns every sprite moves left per tick.
pub const SCROLL_SPEED: i32 = 1;

/// Bound on any live sprite's right edge: a spawn happens only while the
/// rightmost edge is below one and a half terminal widths, and a sprite is
/// at most `u16::MAX` columns wide.
pub const MAX_RIGHT_EDGE: i32 = 200_000;

pub open spec fn right_edge_of(f: FrameView) -> int {
    f.x + f.width
}

/// A new sprite is due when there is none, or when the rightmost one's
/// right edge is left of one and a half terminal widths.
pub open spec fn spawn_due(fs: Seq<FrameView>, term_width: int) -> bool {
    fs.len() == 0 || right_edge_of(fs.last()) < term_width + term_width / 2
}

/// Where the next sprite starts: `SPACING` columns right of the rightmost
/// one, or at the terminal's right edge for the first.
pub open spec fn spawn_x_of(fs: Seq<FrameView>, term_width: int) -> int {
    if fs.len() == 0 {
        term_width
    } else {
        right_edge_of(fs.last()) + SPACING
    }
}

/// The sprite that `Frame::new` makes of `content` at `x`.
pub open spec fn frame_of(content: Seq<char>, x: int) -> FrameView {
    FrameView {
        content,
        width: max_len(lines_of(content)),
        height: lines_of(content).len(),
        x,
    }
}

/// Every sprite moved left by `SCROLL_SPEED`.
pub open spec fn shifted(fs: Seq<FrameView>) -> Seq<FrameView> {
    fs.map_values(|f: FrameView| FrameView { x: f.x - SCROLL_SPEED, ..f })
}

/// A sprite stays while some column of it is at or right of column 0.
pub open spec fn still_visible(f: FrameView) -> bool {
    right_edge_of(f) >= 0
}

/// The sprites that stay, in their order.
pub open spec fn retained(fs: Seq<FrameView>) -> Seq<FrameView> {
    fs.filter(|f: FrameView| still_visible(f))
}

/// What one tick makes of the sprites: motion, then retirement.
pub open spec fn tick_of(fs: Seq<FrameView>) -> Seq<FrameView> {
    retained(shifted(fs))
}

pub open spec fn edges_in_bounds(fs: Seq<FrameView>) -> bool {
    forall|k: int| 0 <= k < fs.len() ==> 0 <= #[trigger] right_edge_of(fs[k]) <= MAX_RIGHT_EDGE
}

pub struct SceneView {
    pub frames: Seq<FrameView>,
    pub last: Option<usize>,
}

/// The active sprites, left to right in creation order, and the artwork
/// that was picked last.
pub struct Scene {
    frames: Vec<Frame>,
    last: Option<usize>,
}

impl View for Scene {
    type V = SceneView;

    closed spec fn view(&self) -> SceneView {
        SceneView { frames: frame_views(self.frames@), last: self.last }
    }
}

impl Scene {
    /// Every live sprite's right edge lies in `[0, MAX_RIGHT_EDGE]`.
    pub open spec fn wf(&self) -> bool {
        edges_in_bounds(self@.frames)
    }

    /// A scene without sprites.
    pub fn new() -> (r: Scene)
        ensures
            r@.frames == Seq::<FrameView>::empty(),
            r@.last is None,
            r.wf(),
    {
        let s = Scene { frames: Vec::new(), last: None };
        proof {
            assert(frame_views(s.frames@) =~= Seq::<FrameView>::empty());
        }
        s
    }

    /// The active sprites.
    pub fn frames(&self) -> (r: &Vec<Frame>)
        ensures
            frame_views(r@) == self@.frames,
    {
        &self.frames
    }

    /// The artwork picked last, if any.
    pub fn last(&self) -> (r: Option<usize>)
        ensures
            r == self@.last,
    {
        self.last
    }

    /// Whether a new sprite is due on a terminal `term_width` columns wide.
    pub fn needs_new_frame(&self, term_width: u16) -> (r: bool)
        requires
            self.wf(),
        ensures
            r == spawn_due(self@.frames, term_width as int),
    {
        let n = self.frames.len();
        if n == 0 {
            true
        } else {
            proof {
                assert(frame_views(self.frames@)[n - 1] == self.frames@[n - 1]@);
                assert(0 <= right_edge_of(self@.frames[n - 1]) <= MAX_RIGHT_EDGE);
            }
            let w = term_width as i32;
            self.frames[n - 1].right_edge() < w + w / 2
        }
    }

    /// Where the next sprite starts.
    pub fn spawn_x(&self, term_width: u16) -> (r: i32)
        requires
            self.wf(),
            spawn_due(self@.frames, term_width as int),
        ensures
            r == spawn_x_of(self@.frames, term_width as int),
    {
        let n = self.frames.len();
        if n == 0 {
            term_width as i32
        } else {
            proof {
                assert(frame_views(self.frames@)[n - 1] == self.frames@[n - 1]@);
                assert(0 <= right_edge_of(self@.frames[n - 1]) <= MAX_RIGHT_EDGE);
            }
            self.frames[n - 1].right_edge() + SPACING
        }
    }

    /// Appends a sprite of `content` at `spawn_x`, and records `artwork` as
    /// the last pick.
    pub fn spawn(&mut self, content: &'static str, artwork: usize, term_width: u16)
        requires
            old(self).wf(),
            spawn_due(old(self)@.frames, term_width as int),
            content@.len() <= u16::MAX,
        ensures
            final(self)@.frames == old(self)@.frames.push(
                frame_of(content@, spawn_x_of(old(self)@.frames, term_width as int)),
            ),
            final(self)@.last == Some(artwork),
            final(self).wf(),
    {
        let x = self.spawn_x(term_width);
        let f = Frame::new(content, x);
        let fw = f.width();
        let ghost fv = f@;
        let ghost before = self.frames@;
        self.frames.push(f);
        self.last = Some(artwork);
        proof {
            assert(frame_views(self.frames@) =~= frame_views(before).push(fv));
        }
    }

    /// The spawn step of a tick: when a new sprite is due, appends one of
    /// an artwork of `catalog` picked at random, never the last pick again
    /// when the catalog has two or more; otherwise changes nothing.
    pub fn spawn_next(&mut self, catalog: &Vec<&'static str>, term_width: u16)
        requires
            old(self).wf(),
            catalog@.len() > 0,
            forall|i: int| 0 <= i < catalog@.len() ==> (#[trigger] catalog@[i])@.len() <= u16::MAX,
            old(self)@.last matches Some(l) ==> l < catalog@.len(),
        ensures
            final(self).wf(),
            final(self)@.last matches Some(l) ==> l < catalog@.len(),
            !spawn_due(old(self)@.frames, term_width as int) ==> final(self)@ == old(self)@,
            spawn_due(old(self)@.frames, term_width as int) ==> exists|a: usize|
                a < catalog@.len() && final(self)@.last == Some(a) && final(self)@.frames
                    == old(self)@.frames.push(
                    frame_of(catalog@[a as int]@, spawn_x_of(old(self)@.frames, term_width as int)),
                ) && (catalog@.len() >= 2 && old(self)@.last is Some ==> a != old(
                    self,
                )@.last->Some_0),
    {
        if self.needs_new_frame(term_width) {
            let a = random_artwork(catalog.len(), self.last);
            self.spawn(catalog[a], a, term_width);
        }
    }

    /// One tick: every sprite moves left by `SCROLL_SPEED`, then those whose
    /// right edge is below 0 leave; the others keep their order.
    pub fn tick(&mut self)
        requires
            old(self).wf(),
        ensures
            final(self).wf(),
            final(self)@.frames == tick_of(old(self)@.frames),
            final(self)@.last == old(self)@.last,
    {
        let ghost olds = frame_views(self.frames@);
        let mut rest: Vec<Frame> = Vec::new();
        std::mem::swap(&mut rest, &mut self.frames);
        let mut kept: Vec<Frame> = Vec::new();
        let ghost i: int = 0;
        proof {
            assert(frame_views(rest@) =~= olds.skip(0));
            assert(shifted(olds).take(0).filter(|f: FrameView| still_visible(f)) =~= Seq::<FrameView>::empty()) by {
                reveal_with_fuel(Seq::filter, 1);
            }
            assert(frame_views(kept@) =~= Seq::<FrameView>::empty());
        }
        while rest.len() > 0
            invariant
                0 <= i <= olds.len(),
                rest@.len() == olds.len() - i,
                edges_in_bounds(olds),
                frame_views(rest@) == olds.skip(i),
                frame_views(kept@) == shifted(olds).take(i).filter(|f: FrameView| still_visible(f)),
                edges_in_bounds(frame_views(kept@)),
            decreases rest@.len(),
        {
            let ghost before = kept@;
            let ghost rest_before = rest@;
            proof {
                assert(frame_views(rest@)[0] == rest@[0]@);
            }
            let mut f = rest.remove(0);
            // the box is at most `u16::MAX` wide, so the move cannot overflow
            let _width = f.width();
            proof {
                assert(f@ == olds[i]);
                assert(0 <= right_edge_of(olds[i]) <= MAX_RIGHT_EDGE);
                assert(rest@ =~= rest_before.skip(1));
                assert forall|k: int| 0 <= k < rest@.len() implies frame_views(rest@)[k] == olds.skip(i + 1)[k] by {
                    assert(frame_views(rest_before)[k + 1] == rest_before[k + 1]@);
                }
            }
            f.scroll(-SCROLL_SPEED);
            let gone = f.is_offscreen_left();
            proof {
                let s = shifted(olds);
                assert(s.take(i + 1).drop_last() =~= s.take(i));
                assert(s.take(i + 1).last() == f@);
                reveal_with_fuel(Seq::filter, 1);
            }
            if !gone {
                let ghost fv = f@;
                kept.push(f);
                proof {
                    assert(frame_views(kept@) =~= frame_views(before).push(fv));
                }
            }
            proof {
                assert(frame_views(rest@) =~= olds.skip(i + 1));
                i = i + 1;
            }
        }
        proof {
            assert(shifted(olds).take(i) =~= shifted(olds));
        }
        self.frames = kept;
    }
}

/// Every sprite that `retained` keeps was in the sequence it filters.
pub proof fn lemma_retained_from(fs: Seq<FrameView>, j: int)
    requires
        0 <= j < retained(fs).len(),
    ensures
        exists|i: int| 0 <= i < fs.len() && retained(fs)[j] == fs[i],
    decreases fs.len(),
{
    reveal_with_fuel(Seq::filter, 1);
    let rest = fs.drop_last();
    if j < retained(rest).len() {
        lemma_retained_from(rest, j);
        let i = choose|i: int| 0 <= i < rest.len() && retained(rest)[j] == rest[i];
        assert(fs[i] == rest[i]);
    } else {
        assert(retained(fs)[j] == fs[fs.len() - 1]);
    }
}

/// Over one tick, each sprite that stays is a sprite of before the tick
/// with the same artwork and box, whose offset and right edge moved left by
/// exactly `SCROLL_SPEED`.
pub proof fn lemma_tick_moves_by_speed(fs: Seq<FrameView>, j: int)
    requires
        0 <= j < tick_of(fs).len(),
    ensures
        exists|i: int|
            0 <= i < fs.len() && tick_of(fs)[j] == (FrameView { x: fs[i].x - SCROLL_SPEED, ..fs[i] })
                && right_edge_of(tick_of(fs)[j]) == right_edge_of(fs[i]) - SCROLL_SPEED,
{
    lemma_retained_from(shifted(fs), j);
    let i = choose|i: int| 0 <= i < shifted(fs).len() && tick_of(fs)[j] == shifted(fs)[i];
    assert(tick_of(fs)[j] == (FrameView { x: fs[i].x - SCROLL_SPEED, ..fs[i] }));
}

/// A tick removes a sprite exactly when its right edge, once moved, is left
/// of column 0: it stays while any column of it is at or right of column 0.
pub proof fn lemma_tick_retires(fs: Seq<FrameView>, i: int)
    requires
        0 <= i < fs.len(),
    ensures
        tick_of(fs).contains(shifted(fs)[i]) <==> right_edge_of(fs[i]) - SCROLL_SPEED >= 0,
{
    let s = shifted(fs);
    let pred = |f: FrameView| still_visible(f);
    assert(s[i] == (FrameView { x: fs[i].x - SCROLL_SPEED, ..fs[i] }));
    if still_visible(s[i]) {
        s.lemma_filter_contains(pred, i);
    } else if tick_of(fs).contains(s[i]) {
        let j = choose|j: int| 0 <= j < tick_of(fs).len() && tick_of(fs)[j] == s[i];
        s.lemma_filter_pred(pred, j);
    }
}

} // verus!
