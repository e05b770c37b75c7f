//! The artworks and the choice of the next one.
use vstd::prelude::*;

verus! {

/// Number of artworks in the catalog.
pub const ARTWORK_COUNT: usize = 3;

/// The artworks, as multi-line text.
pub fn artworks() -> (r: Vec<&'static str>)
    ensures
        r@.len() == ARTWORK_COUNT,
        forall|i: int| 0 <= i < r@.len() ==> (#[trigger] r@[i])@.len() <= u16::MAX,
{
    let trotting = "            ,--,\n      _ ___/ /\\|\n  ,;'( )__, )  ~\n //  //   '--;\n '   \\     | ^\n      ^    ^";
    let grazing = "                 ,\n    _,,,---,,_  /|\n  /'  ,  ,  \\ `' ;\n |  ,'  ,'   `--'\n  \\ \\   \\ \\\n   ` `   ` `";
    let galloping = "   __       _\n  /  \\_____/ >\n /  _______ ]\n/  /       \\ \\\n  /         \\ \\";
    proof {
        reveal_strlit(
            "            ,--,\n      _ ___/ /\\|\n  ,;'( )__, )  ~\n //  //   '--;\n '   \\     | ^\n      ^    ^",
        );
        reveal_strlit(
            "                 ,\n    _,,,---,,_  /|\n  /'  ,  ,  \\ `' ;\n |  ,'  ,'   `--'\n  \\ \\   \\ \\\n   ` `   ` `",
        );
        reveal_strlit("   __       _\n  /  \\_____/ >\n /  _______ ]\n/  /       \\ \\\n  /         \\ \\");
    }
    let r = vec![trotting, grazing, galloping];
    assert(r@[0]@.len() <= u16::MAX);
    assert(r@[1]@.len() <= u16::MAX);
    assert(r@[2]@.len() <= u16::MAX);
    r
}

/// How many values the draw for the next pick ranges over: all artworks
/// but the last pick, or all of them when there was none or only one
/// exists.
pub open spec fn draw_range(count: nat, last: Option<usize>) -> nat {
    if last is Some && count >= 2 {
        (count - 1) as nat
    } else {
        count
    }
}

/// The artwork that a draw selects: the draw counts the artworks other
/// than the last pick, in catalog order.
pub open spec fn pick_of(count: nat, last: Option<usize>, draw: nat) -> nat {
    match last {
        Some(l) => if count >= 2 && draw >= l {
            draw + 1
        } else {
            draw
        },
        None => draw,
    }
}

/// The artwork that `draw` selects among `count`, never `last` again when
/// there are two or more.
pub fn choose_artwork(count: usize, last: Option<usize>, draw: usize) -> (r: usize)
    requires
        count > 0,
        last matches Some(l) ==> l < count,
        draw < draw_range(count as nat, last),
    ensures
        r == pick_of(count as nat, last, draw as nat),
        r < count,
        count >= 2 && last is Some ==> r != last->Some_0,
{
    match last {
        Some(l) => if count >= 2 && draw >= l {
            draw + 1
        } else {
            draw
        },
        None => draw,
    }
}

/// Relies on rand::random_range: a value of the half-open range `0..n`,
/// drawn from the thread-local generator; an empty range panics, hence
/// `n > 0`.
#[verifier::external_body]
fn draw_below(n: usize) -> (r: usize)
    requires
        n > 0,
    ensures
        r < n,
{
    rand::random_range(0..n)
}

/// A random artwork among `count`, other than `last` when there are two or
/// more; with one artwork that one.
pub fn random_artwork(count: usize, last: Option<usize>) -> (r: usize)
    requires
        count > 0,
        last matches Some(l) ==> l < count,
    ensures
        r < count,
        count >= 2 && last is Some ==> r != last->Some_0,
        exists|d: nat| d < draw_range(count as nat, last) && r == pick_of(count as nat, last, d),
{
    let n: usize = if last.is_some() && count >= 2 {
        count - 1
    } else {
        count
    };
    let d = draw_below(n);
    let r = choose_artwork(count, last, d);
    assert(r == pick_of(count as nat, last, d as nat));
    r
}

} // verus!
