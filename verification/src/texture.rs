//! The bytes of the test pattern that covers every body of the scene.

use vstd::prelude::*;

verus! {

/// The test pattern is a square of this many texels a side.
pub const TEXTURE_SIZE: usize = 8;

/// Each texel takes this many bytes: red, green, blue, alpha.
pub const TEXEL_BYTES: usize = 4;

/// The eight colours of the first row, four bytes each.
#[verifier::opaque]
pub open spec fn palette() -> Seq<u8> {
    seq![
        255u8, 102, 159, 255, 255, 159, 102, 255, 236, 255, 102, 255, 121, 255, 102, 255, 102, 255,
        198, 255, 102, 198, 255, 255, 121, 102, 255, 255, 236, 102, 255, 255,
    ]
}

/// The byte at `index` of the pattern: every row repeats the palette, turned one
/// texel further to the right than the row above it.
pub open spec fn texture_byte(index: int) -> u8 {
    let row = index / 32;
    let column = index % 32;
    palette()[(column - 4 * row) % 32]
}

/// In row `y`, the byte at column `x` is the palette's byte `4 * y` places to the left,
/// counted round the palette.
proof fn lemma_turned(y: int, x: int)
    requires
        0 <= y < 8,
        0 <= x < 32,
    ensures
        texture_byte(32 * y + x) == palette()[(x + 32 - 4 * y) % 32],
{
    let i = 32 * y + x;
    assert(i / 32 == y && i % 32 == x);
    assert((x - 4 * y) % 32 == (x + 32 - 4 * y) % 32);
}

/// The palette as bytes.
fn palette_bytes() -> (bytes: [u8; 32])
    ensures
        bytes@ == palette(),
{
    let bytes: [u8; 32] = [
        255, 102, 159, 255, 255, 159, 102, 255, 236, 255, 102, 255, 121, 255, 102, 255, 102, 255,
        198, 255, 102, 198, 255, 255, 121, 102, 255, 255, 236, 102, 255, 255,
    ];
    proof {
        reveal(palette);
        assert(bytes@ =~= palette());
    }
    bytes
}

/// The bytes of a colourful test pattern of `TEXTURE_SIZE` by `TEXTURE_SIZE` texels,
/// row after row.
pub fn uv_debug_texture() -> (texture_data: Vec<u8>)
    ensures
        texture_data@ == Seq::new(256, |i: int| texture_byte(i)),
{
    let colours = palette_bytes();
    let mut texture_data: Vec<u8> = Vec::new();
    let mut y: usize = 0;
    while y < TEXTURE_SIZE
        invariant
            y <= TEXTURE_SIZE,
            colours@ == palette(),
            texture_data.len() == 32 * y,
            forall|i: int| 0 <= i < texture_data.len() ==> texture_data[i] == texture_byte(i),
        decreases TEXTURE_SIZE - y,
    {
        let mut x: usize = 0;
        while x < TEXTURE_SIZE * TEXEL_BYTES
            invariant
                y < TEXTURE_SIZE,
                x <= TEXTURE_SIZE * TEXEL_BYTES,
                colours@ == palette(),
                texture_data.len() == 32 * y + x,
                forall|i: int| 0 <= i < texture_data.len() ==> texture_data[i] == texture_byte(i),
            decreases TEXTURE_SIZE * TEXEL_BYTES - x,
        {
            let turned: usize = (x + 32 - 4 * y) % 32;
            proof {
                lemma_turned(y as int, x as int);
            }
            texture_data.push(colours[turned]);
            x += 1;
        }
        y += 1;
    }
    texture_data
}

} // verus!
