//! Series whose values the caller has already scaled to whole cells, and
//! helpers shared by the graph painters.

use vstd::prelude::*;

verus! {

/// One series of a graph, its values scaled by the caller to whole cells
/// (what a cell count means depends on the painter). `None` marks a value
/// that is not drawn: blank, non-numeric, or not positive where the graph
/// needs positive values.
#[derive(Clone, Debug)]
pub struct Scaled {
    /// The series' slot, 0..=5 for A..F.
    pub slot: usize,
    pub cells: Vec<Option<u16>>,
}

/// The scaled value of point `i` of a series, `None` past its end.
pub open spec fn cell_of(s: Scaled, i: int) -> Option<u16> {
    if 0 <= i < s.cells@.len() { s.cells@[i] } else { None }
}

/// The length of the longest series.
pub open spec fn longest(ss: Seq<Scaled>) -> int
    decreases ss.len(),
{
    if ss.len() == 0 {
        0
    } else {
        let rest = longest(ss.drop_last());
        let l = ss.last().cells@.len() as int;
        if l > rest { l } else { rest }
    }
}

/// The length of the longest series, as `max` over the lengths.
pub fn longest_len(ss: &Vec<Scaled>) -> (n: usize)
    ensures
        n == longest(ss@),
        forall|k: int| 0 <= k < ss@.len() ==> #[trigger] ss@[k].cells@.len() <= n,
{
    let mut n: usize = 0;
    let mut k: usize = 0;
    while k < ss.len()
        invariant
            k <= ss@.len(),
            n == longest(ss@.take(k as int)),
            forall|j: int| 0 <= j < k ==> #[trigger] ss@[j].cells@.len() <= n,
        decreases ss@.len() - k,
    {
        assert(ss@.take(k + 1).drop_last() =~= ss@.take(k as int));
        if ss[k].cells.len() > n {
            n = ss[k].cells.len();
        }
        k = k + 1;
    }
    assert(ss@.take(k as int) =~= ss@);
    n
}

/// The scaled value of point `i` of series `s`, `None` past its end.
pub fn cell_at(s: &Scaled, i: usize) -> (c: Option<u16>)
    ensures
        c == cell_of(*s, i as int),
{
    if i < s.cells.len() { s.cells[i] } else { None }
}

/// The shading glyph of series slot (or pie wedge) `si`: A=`█`, B=`▓`,
/// C=`▒`, D=`░`, then around again (E=`█`, F=`▓`).
pub open spec fn shade(si: int) -> Seq<char> {
    let k = si % 4;
    if k == 0 {
        "█"@
    } else if k == 1 {
        "▓"@
    } else if k == 2 {
        "▒"@
    } else {
        "░"@
    }
}

pub fn shade_glyph(si: usize) -> (g: &'static str)
    ensures
        g@ == shade(si as int),
{
    let k = si % 4;
    if k == 0 {
        "█"
    } else if k == 1 {
        "▓"
    } else if k == 2 {
        "▒"
    } else {
        "░"
    }
}

} // verus!
