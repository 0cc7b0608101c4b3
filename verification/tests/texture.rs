use homing_missiles::texture::{uv_debug_texture, TEXEL_BYTES, TEXTURE_SIZE};

const PALETTE: [u8; 32] = [
    255, 102, 159, 255, 255, 159, 102, 255, 236, 255, 102, 255, 121, 255, 102, 255, 102, 255, 198,
    255, 102, 198, 255, 255, 121, 102, 255, 255, 236, 102, 255, 255,
];

#[test]
fn the_texture_has_four_bytes_for_each_of_its_texels() {
    assert_eq!(TEXTURE_SIZE, 8);
    assert_eq!(TEXEL_BYTES, 4);
    assert_eq!(uv_debug_texture().len(), 8 * 8 * 4);
}

#[test]
fn the_first_row_is_the_palette() {
    let data = uv_debug_texture();
    assert_eq!(data[0..32], PALETTE);
}

#[test]
fn every_row_turns_the_palette_one_texel_further_right() {
    let data = uv_debug_texture();
    let mut palette = PALETTE;
    for y in 0..8 {
        assert_eq!(data[32 * y..32 * (y + 1)], palette, "row {}", y);
        palette.rotate_right(4);
    }
}

#[test]
fn the_second_row_starts_with_the_last_colour() {
    let data = uv_debug_texture();
    assert_eq!(data[32..36], [236, 102, 255, 255]);
    assert_eq!(data[36..40], [255, 102, 159, 255]);
    assert_eq!(data[252..256], [255, 102, 159, 255]);
    assert_eq!(data[224..228], [255, 159, 102, 255]);
}

#[test]
fn every_texel_is_opaque() {
    let data = uv_debug_texture();
    for texel in 0..64 {
        assert_eq!(data[4 * texel + 3], 255);
    }
}
