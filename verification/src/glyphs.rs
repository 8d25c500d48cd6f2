use vstd::prelude::*;

verus! {

/// Which glyph a frame corner shows, by the two edges that meet there.
pub enum CornerKind {
    /// Both edges are on.
    Corner,
    /// Only the horizontal edge is on.
    Horizontal,
    /// Only the vertical edge is on.
    Vertical,
    /// Neither edge is on.
    Blank,
}

pub open spec fn corner_kind(horizontal: bool, vertical: bool) -> CornerKind {
    if horizontal && vertical {
        CornerKind::Corner
    } else if horizontal {
        CornerKind::Horizontal
    } else if vertical {
        CornerKind::Vertical
    } else {
        CornerKind::Blank
    }
}

/// Pick the glyph for one corner: both edges on gives `corner`; only the
/// horizontal edge gives `h_only`; only the vertical gives `v_only`; neither
/// gives the empty string (the caller leaves the cell blank).
pub fn corner_glyph(
    horizontal: bool,
    vertical: bool,
    corner: &'static str,
    h_only: &'static str,
    v_only: &'static str,
) -> (g: &'static str)
    ensures
        g@ == (match corner_kind(horizontal, vertical) {
            CornerKind::Corner => corner@,
            CornerKind::Horizontal => h_only@,
            CornerKind::Vertical => v_only@,
            CornerKind::Blank => Seq::<char>::empty(),
        }),
{
    if horizontal && vertical {
        corner
    } else if horizontal {
        h_only
    } else if vertical {
        v_only
    } else {
        proof {
            reveal_strlit("");
        }
        ""
    }
}

} // verus!
