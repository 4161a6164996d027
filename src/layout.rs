use vstd::prelude::*;

verus! {

/// Width, in columns, of the banners drawn around the run.
pub const HEADER_WIDTH: usize = 80;

/// Rule length on each side of a section title of `title_len` columns, and
/// whether one more rule character is needed on the right, so that corner,
/// rule, space, title, space, rule, extra rule and corner span exactly
/// `HEADER_WIDTH` columns, with the title centred.
pub fn banner_padding(title_len: usize) -> (r: (usize, bool))
    requires
        title_len + 4 <= HEADER_WIDTH,
    ensures
        2 * r.0 + (if r.1 {
            1int
        } else {
            0int
        }) + title_len + 4 == HEADER_WIDTH,
{
    let pad = (HEADER_WIDTH - title_len - 4) / 2;
    (pad, (title_len + 4) % 2 == 1)
}

} // verus!
