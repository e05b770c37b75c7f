//! One scrolling sprite: an artwork, its fixed bounding box and its
//! horizontal offset.
use vstd::prelude::*;

verus! {

/// Left-to-right scan of a text: the lines already closed by a `'\n'`,
/// and the characters of the line still open.
pub open spec fn split_scan(s: Seq<char>) -> (Seq<Seq<char>>, Seq<char>)
    decreases s.len(),
{
    if s.len() == 0 {
        (Seq::empty(), Seq::empty())
    } else {
        let (done, cur) = split_scan(s.drop_last());
        if s.last() == '\n' {
            (done.push(cur), Seq::empty())
        } else {
            (done, cur.push(s.last()))
        }
    }
}

/// The lines of a text: pieces between `'\n'` characters, where a final
/// line ending is optional and an empty text has no lines.
pub open spec fn lines_of(s: Seq<char>) -> Seq<Seq<char>> {
    let (done, cur) = split_scan(s);
    if cur.len() == 0 {
        done
    } else {
        done.push(cur)
    }
}

/// The length of the longest line, 0 when there is none.
pub open spec fn max_len(ls: Seq<Seq<char>>) -> nat
    decreases ls.len(),
{
    if ls.len() == 0 {
        0
    } else {
        let m = max_len(ls.drop_last());
        if ls.last().len() > m {
            ls.last().len()
        } else {
            m
        }
    }
}

/// The pieces of `s` that a list of character ranges selects.
pub open spec fn pieces(s: Seq<char>, spans: Seq<(usize, usize)>) -> Seq<Seq<char>> {
    spans.map_values(|p: (usize, usize)| s.subrange(p.0 as int, p.1 as int))
}

/// What a caller sees of a sprite.
pub struct FrameView {
    pub content: Seq<char>,
    pub width: nat,
    pub height: nat,
    pub x: int,
}

/// A scrolling sprite. Only `x` changes after creation.
pub struct Frame {
    content: &'static str,
    width: u16,
    height: u16,
    x: i32,
    spans: Vec<(usize, usize)>,
}

impl View for Frame {
    type V = FrameView;

    closed spec fn view(&self) -> FrameView {
        FrameView {
            content: self.content@,
            width: max_len(lines_of(self.content@)),
            height: lines_of(self.content@).len(),
            x: self.x as int,
        }
    }
}

proof fn lemma_max_len_push(ls: Seq<Seq<char>>, l: Seq<char>)
    ensures
        max_len(ls.push(l)) == if l.len() > max_len(ls) {
            l.len()
        } else {
            max_len(ls)
        },
{
    assert(ls.push(l).drop_last() =~= ls);
}

impl Frame {
    #[verifier::type_invariant]
    closed spec fn inv(self) -> bool {
        &&& self.content@.len() <= u16::MAX
        &&& forall|k: int|
            0 <= k < self.spans@.len() ==> #[trigger] self.spans@[k].0 <= self.spans@[k].1
                <= self.content@.len()
        &&& pieces(self.content@, self.spans@) == lines_of(self.content@)
        &&& self.width == max_len(lines_of(self.content@))
        &&& self.height == lines_of(self.content@).len()
    }

    /// A sprite of the artwork `content` at horizontal offset `initial_x`;
    /// its width is the longest line and its height the number of lines.
    pub fn new(content: &'static str, initial_x: i32) -> (r: Frame)
        requires
            content@.len() <= u16::MAX,
        ensures
            r@.content == content@,
            r@.x == initial_x,
            r@.width == max_len(lines_of(content@)),
            r@.height == lines_of(content@).len(),
    {
        let n = content.unicode_len();
        let mut spans: Vec<(usize, usize)> = Vec::new();
        let mut start: usize = 0;
        let mut width: usize = 0;
        let mut i: usize = 0;
        while i < n
            invariant
                n == content@.len(),
                n <= u16::MAX,
                start <= i <= n,
                spans@.len() <= start,
                width <= i,
                forall|k: int| 0 <= k < spans@.len() ==> #[trigger] spans@[k].0 <= spans@[k].1 <= i,
                split_scan(content@.take(i as int)) == (
                    pieces(content@, spans@),
                    content@.subrange(start as int, i as int),
                ),
                width == max_len(pieces(content@, spans@)),
            decreases n - i,
        {
            let c = content.get_char(i);
            proof {
                assert(content@.take(i + 1).drop_last() =~= content@.take(i as int));
                assert(content@.take(i + 1).last() == c);
            }
            if c == '\n' {
                proof {
                    lemma_max_len_push(pieces(content@, spans@), content@.subrange(start as int, i as int));
                    assert(pieces(content@, spans@.push((start, i))) =~= pieces(content@, spans@).push(
                        content@.subrange(start as int, i as int),
                    ));
                }
                spans.push((start, i));
                if i - start > width {
                    width = i - start;
                }
                start = i + 1;
                proof {
                    assert(content@.subrange(start as int, i + 1) =~= Seq::<char>::empty());
                }
            } else {
                proof {
                    assert(content@.subrange(start as int, i + 1) =~= content@.subrange(
                        start as int,
                        i as int,
                    ).push(c));
                }
            }
            i = i + 1;
        }
        proof {
            assert(content@.take(n as int) =~= content@);
        }
        if start < n {
            proof {
                lemma_max_len_push(pieces(content@, spans@), content@.subrange(start as int, n as int));
                assert(pieces(content@, spans@.push((start, n))) =~= pieces(content@, spans@).push(
                    content@.subrange(start as int, n as int),
                ));
            }
            spans.push((start, n));
            if n - start > width {
                width = n - start;
            }
        }
        Frame { content, width: width as u16, height: spans.len() as u16, x: initial_x, spans }
    }
    /// Offset of the sprite's right edge: `x + width`.
    pub fn right_edge(&self) -> (r: i32)
        requires
            self@.x + self@.width <= i32::MAX,
        ensures
            r == self@.x + self@.width,
    {
        proof {
            use_type_invariant(self);
        }
        self.x + self.width as i32
    }

    /// Moves the sprite horizontally by `amount`; nothing else changes.
    pub fn scroll(&mut self, amount: i32)
        requires
            i32::MIN <= old(self)@.x + amount <= i32::MAX,
        ensures
            final(self)@ == (FrameView { x: old(self)@.x + amount, ..old(self)@ }),
    {
        proof {
            use_type_invariant(&*self);
        }
        self.x = self.x + amount;
    }

    /// True exactly when the right edge lies left of column 0.
    pub fn is_offscreen_left(&self) -> (r: bool)
        requires
            self@.x + self@.width <= i32::MAX,
        ensures
            r == (self@.x + self@.width < 0),
    {
        self.right_edge() < 0
    }

    pub fn content(&self) -> (r: &'static str)
        ensures
            r@ == self@.content,
    {
        self.content
    }

    pub fn width(&self) -> (r: u16)
        ensures
            r == self@.width,
    {
        proof {
            use_type_invariant(self);
        }
        self.width
    }

    pub fn height(&self) -> (r: u16)
        ensures
            r == self@.height,
    {
        proof {
            use_type_invariant(self);
        }
        self.height
    }

    pub fn x(&self) -> (r: i32)
        ensures
            r == self@.x,
    {
        self.x
    }

    /// The `k`-th line of the artwork.
    pub fn line(&self, k: u16) -> (r: &'static str)
        requires
            k < self@.height,
        ensures
            r@ == lines_of(self@.content)[k as int],
            r@.len() <= u16::MAX,
    {
        proof {
            use_type_invariant(self);
        }
        let (a, b) = self.spans[k as usize];
        proof {
            assert(pieces(self.content@, self.spans@)[k as int] == self.content@.subrange(a as int, b as int));
        }
        self.content.substring_char(a, b)
    }
}

/// Every sprite's box is its artwork's: the width is the longest line and
/// the height the number of lines. Motion keeps both (see `Frame::scroll`).
pub proof fn lemma_frame_box(f: Frame)
    ensures
        f@.width == max_len(lines_of(f@.content)),
        f@.height == lines_of(f@.content).len(),
{
}

} // verus!
