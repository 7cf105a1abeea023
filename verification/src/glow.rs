//! The team glow texture, generated from its alpha map.
use vstd::prelude::*;

verus! {

/// The alpha map of the team glow, 32 × 32 texels, row by row, in the
/// range 0 to 127.
pub const TEAM_GLOW_ALPHA: [u8; 1024] = [
    1, 1, 1, 1, 1, 1, 1, 1, 0, 0, 0, 0, 0, 0, 0, 0, 1, 1, 1, 1, 1, 1, 1, 1, 0, 0, 0, 0, 0, 0, 0, 1,
    1, 1, 1, 1, 1, 1, 1, 1, 0, 0, 0, 0, 0, 0, 0, 0, 0, 0, 0, 0, 0, 0, 0, 0, 0, 0, 0, 0, 0, 0, 0, 1,
    1, 1, 1, 1, 1, 1, 1, 1, 0, 0, 0, 0, 0, 0, 0, 0, 0, 0, 0, 0, 0, 0, 0, 0, 1, 0, 0, 0, 0, 0, 0, 1,
    1, 1, 1, 1, 1, 1, 1, 1, 2, 2, 2, 2, 3, 3, 3, 3, 3, 3, 3, 2, 2, 2, 1, 1, 1, 1, 0, 0, 0, 0, 0, 1,
    1, 1, 1, 1, 1, 1, 1, 1, 1, 2, 2, 3, 4, 5, 6, 6, 6, 6, 5, 4, 3, 2, 2, 1, 2, 2, 1, 0, 0, 0, 0, 0,
    1, 1, 1, 1, 1, 1, 1, 1, 1, 1, 3, 4, 6, 7, 9, 9, 10, 9, 8, 7, 5, 3, 2, 1, 3, 2, 2, 1, 0, 0, 0, 0,
    1, 1, 1, 1, 1, 1, 1, 1, 3, 4, 6, 8, 10, 13, 14, 15, 17, 16, 15, 12, 10, 7, 6, 5, 4, 3, 2, 1, 0, 0, 0, 0,
    1, 1, 1, 1, 1, 1, 1, 1, 7, 8, 10, 13, 16, 18, 20, 22, 24, 23, 21, 18, 15, 12, 10, 9, 4, 3, 2, 1, 0, 0, 0, 0,
    0, 0, 1, 1, 0, 1, 3, 4, 5, 9, 15, 20, 25, 30, 35, 38, 38, 36, 34, 31, 26, 20, 13, 9, 9, 6, 2, 1, 0, 1, 1, 0,
    0, 0, 1, 1, 0, 1, 3, 5, 10, 15, 21, 28, 35, 41, 47, 50, 51, 49, 46, 41, 36, 28, 20, 15, 10, 7, 3, 1, 0, 1, 1, 0,
    0, 0, 1, 1, 1, 2, 4, 7, 15, 20, 28, 38, 47, 55, 62, 67, 69, 67, 62, 56, 47, 37, 28, 21, 12, 9, 4, 1, 1, 1, 1, 0,
    0, 0, 1, 1, 1, 3, 6, 9, 16, 23, 33, 45, 57, 68, 78, 83, 87, 83, 77, 69, 58, 45, 33, 25, 15, 11, 6, 2, 1, 1, 1, 0,
    0, 0, 1, 1, 1, 4, 8, 11, 19, 27, 39, 53, 67, 81, 92, 99, 103, 99, 91, 81, 68, 53, 39, 30, 18, 13, 7, 3, 1, 1, 1, 1,
    0, 0, 1, 0, 1, 5, 9, 13, 24, 32, 46, 61, 77, 92, 105, 112, 116, 112, 104, 93, 78, 61, 45, 35, 20, 16, 9, 4, 1, 1, 1, 1,
    0, 0, 0, 0, 2, 5, 11, 14, 27, 36, 50, 67, 84, 100, 113, 120, 124, 120, 112, 100, 84, 66, 49, 39, 23, 17, 10, 4, 1, 1, 1, 1,
    0, 0, 0, 0, 2, 6, 11, 15, 28, 36, 51, 68, 85, 102, 115, 123, 127, 122, 114, 102, 86, 67, 50, 40, 24, 18, 11, 4, 1, 1, 1, 1,
    1, 1, 1, 1, 2, 5, 11, 15, 25, 36, 51, 67, 82, 97, 112, 121, 123, 118, 110, 98, 83, 66, 49, 39, 22, 17, 10, 4, 2, 1, 0, 0,
    1, 1, 1, 1, 2, 5, 10, 14, 24, 34, 48, 63, 77, 90, 104, 113, 116, 111, 103, 92, 78, 61, 46, 36, 20, 16, 9, 4, 1, 1, 0, 0,
    1, 1, 1, 1, 1, 4, 9, 12, 22, 30, 43, 56, 68, 80, 92, 99, 104, 99, 92, 82, 69, 54, 39, 30, 18, 14, 8, 3, 1, 1, 0, 0,
    1, 1, 1, 1, 1, 3, 7, 10, 18, 25, 35, 47, 58, 69, 78, 84, 88, 84, 78, 69, 58, 45, 33, 25, 16, 12, 6, 3, 1, 1, 0, 0,
    0, 1, 1, 1, 1, 2, 5, 8, 13, 18, 27, 37, 47, 56, 64, 68, 70, 67, 62, 55, 47, 37, 26, 20, 12, 9, 5, 2, 1, 1, 0, 0,
    0, 1, 1, 1, 0, 1, 4, 6, 9, 13, 19, 27, 36, 43, 48, 51, 52, 50, 46, 41, 35, 28, 20, 14, 10, 7, 3, 1, 1, 1, 0, 0,
    0, 1, 1, 1, 0, 1, 3, 4, 7, 9, 13, 19, 25, 30, 33, 34, 36, 34, 32, 29, 25, 20, 14, 9, 8, 5, 2, 1, 1, 1, 0, 0,
    0, 1, 1, 1, 0, 0, 2, 4, 6, 7, 9, 13, 18, 21, 23, 23, 27, 25, 23, 21, 19, 15, 9, 6, 6, 4, 2, 0, 0, 1, 0, 0,
    1, 1, 1, 1, 1, 1, 1, 1, 4, 5, 6, 8, 10, 12, 13, 14, 16, 15, 14, 12, 10, 8, 7, 6, 1, 1, 1, 1, 1, 1, 1, 1,
    1, 1, 1, 1, 1, 1, 1, 1, 2, 3, 4, 6, 7, 8, 10, 10, 10, 9, 8, 7, 5, 4, 3, 2, 1, 1, 1, 1, 1, 1, 1, 1,
    1, 1, 1, 1, 1, 1, 1, 1, 1, 1, 2, 2, 3, 4, 5, 5, 5, 4, 4, 3, 2, 1, 1, 0, 1, 1, 1, 1, 1, 1, 1, 1,
    1, 1, 1, 1, 1, 1, 1, 1, 0, 0, 0, 1, 1, 1, 2, 2, 3, 3, 2, 2, 2, 2, 1, 1, 1, 1, 1, 1, 1, 1, 1, 1,
    1, 1, 1, 1, 1, 1, 1, 1, 1, 1, 1, 1, 1, 1, 1, 0, 1, 1, 1, 1, 1, 2, 2, 2, 1, 1, 1, 1, 1, 1, 1, 1,
    1, 1, 1, 1, 1, 1, 1, 1, 1, 1, 1, 1, 1, 1, 1, 1, 0, 0, 0, 0, 0, 0, 0, 0, 1, 1, 1, 1, 1, 1, 1, 1,
    1, 1, 1, 1, 1, 1, 1, 1, 1, 1, 1, 1, 1, 1, 1, 1, 0, 0, 0, 0, 0, 0, 0, 0, 1, 1, 1, 1, 1, 1, 1, 1,
    1, 1, 1, 1, 1, 1, 1, 1, 0, 0, 0, 0, 0, 0, 0, 1, 1, 0, 0, 0, 0, 0, 0, 0, 1, 1, 1, 1, 1, 1, 1, 1,
];

/// A glow alpha of 0 to 127 scaled to 0 to 255 (rounded down, at most 255).
pub open spec fn glow_alpha(a: u8) -> u8 {
    if a * 255 / 127 > 255 {
        255
    } else {
        (a * 255 / 127) as u8
    }
}

/// A glow alpha scaled to a byte (see [`glow_alpha`]).
pub fn scale_glow_alpha(a: u8) -> (r: u8)
    ensures
        r == glow_alpha(a),
{
    let v: u32 = a as u32 * 255 / 127;
    if v > 255 {
        255
    } else {
        v as u8
    }
}

/// The texel (RGBA) that an alpha-map value gives: the scaled alpha, and a
/// white colour either premultiplied by it or full.
pub open spec fn glow_texel(a: u8, premultiplied: bool) -> Seq<u8> {
    let s = glow_alpha(a);
    let c = if premultiplied {
        s
    } else {
        255u8
    };
    seq![c, c, c, s]
}

/// Whether `texels` holds, four bytes each, the texels of `alpha_map`.
pub open spec fn texels_of(texels: Seq<u8>, alpha_map: Seq<u8>, premultiplied: bool) -> bool {
    &&& texels.len() == 4 * alpha_map.len()
    &&& forall|i: int|
        0 <= i < alpha_map.len() ==> #[trigger] texels.subrange(4 * i, 4 * i + 4) == glow_texel(
            alpha_map[i],
            premultiplied,
        )
}

/// The texels (RGBA, 4 bytes each) of an alpha map (see [`glow_texel`]).
pub fn glow_texels(alpha_map: &[u8], premultiplied: bool) -> (r: Vec<u8>)
    requires
        4 * alpha_map@.len() <= usize::MAX,
    ensures
        texels_of(r@, alpha_map@, premultiplied),
{
    let n = alpha_map.len();
    let mut out: Vec<u8> = Vec::new();
    let mut i: usize = 0;
    while i < n
        invariant
            n == alpha_map@.len(),
            4 * n <= usize::MAX,
            i <= n,
            texels_of(out@, alpha_map@.take(i as int), premultiplied),
        decreases n - i,
    {
        let a = scale_glow_alpha(alpha_map[i]);
        let c = if premultiplied {
            a
        } else {
            255
        };
        let ghost before = out@;
        out.push(c);
        out.push(c);
        out.push(c);
        out.push(a);
        proof {
            let t = alpha_map@.take(i + 1);
            assert(out@ =~= before + glow_texel(alpha_map@[i as int], premultiplied));
            assert forall|k: int| 0 <= k < t.len() implies #[trigger] out@.subrange(4 * k, 4 * k + 4)
                == glow_texel(t[k], premultiplied) by {
                if k < i {
                    assert(out@.subrange(4 * k, 4 * k + 4) =~= before.subrange(4 * k, 4 * k + 4));
                    assert(alpha_map@.take(i as int)[k] == t[k]);
                } else {
                    assert(out@.subrange(4 * k, 4 * k + 4) =~= glow_texel(alpha_map@[i as int], premultiplied));
                }
            }
        }
        i = i + 1;
    }
    assert(alpha_map@.take(n as int) =~= alpha_map@);
    out
}

/// The texels of the 32 × 32 team glow texture (see [`glow_texels`]).
pub fn team_glow_texels(premultiplied: bool) -> (r: Vec<u8>)
    ensures
        texels_of(r@, TEAM_GLOW_ALPHA@, premultiplied),
{
    let table: [u8; 1024] = TEAM_GLOW_ALPHA;
    glow_texels(&table, premultiplied)
}

} // verus!
