use galar::fixed::FX_ONE;
use galar::texture::{Material, Texture, MISSING_TEXEL};

#[test]
fn from_rgba_bytes_packs_argb() {
    let bytes = vec![1u8, 2, 3, 4, 5, 6, 7, 8];
    let t = Texture::from_rgba_bytes(String::from("two.png"), 2, 1, &bytes).unwrap();
    assert_eq!(t.width, 2);
    assert_eq!(t.height, 1);
    assert_eq!(t.data, vec![0x04010203, 0x08050607]);
    assert_eq!(t.size(), (2, 1));
}

#[test]
fn from_rgba_bytes_rejects_wrong_length() {
    let bytes = vec![0u8; 9];
    assert!(Texture::from_rgba_bytes(String::new(), 2, 1, &bytes).is_none());
    let bytes = vec![0u8; 8];
    assert!(Texture::from_rgba_bytes(String::new(), 3, 1, &bytes).is_none());
}

fn two_by_two() -> Material {
    Material {
        base_color: None,
        texture: Some(Texture {
            path: String::new(),
            data: vec![10, 20, 30, 40],
            width: 2,
            height: 2,
        }),
    }
}

#[test]
fn sample_corners() {
    let m = two_by_two();
    assert_eq!(m.sample_texture((0, 0)), 10);
    assert_eq!(m.sample_texture((FX_ONE, 0)), 20);
    assert_eq!(m.sample_texture((0, FX_ONE)), 30);
    assert_eq!(m.sample_texture((FX_ONE, FX_ONE)), 40);
}

#[test]
fn sample_clamps_uv() {
    let m = two_by_two();
    assert_eq!(m.sample_texture((-3 * FX_ONE, -FX_ONE)), 10);
    assert_eq!(m.sample_texture((5 * FX_ONE, 9 * FX_ONE)), 40);
}

#[test]
fn sample_nearest_truncates() {
    let m = two_by_two();
    // u just below 1: u * (w - 1) truncates to texel 0.
    assert_eq!(m.sample_texture((FX_ONE - 1, 0)), 10);
}

#[test]
fn sample_without_texture_is_zero() {
    let m = Material::default();
    assert_eq!(m.sample_texture((0, 0)), 0);
}

#[test]
fn sample_out_of_range_index_falls_back() {
    // A texture that advertises more texels than it holds: the computed
    // index misses the data and the sentinel color comes back.
    let m = Material {
        base_color: None,
        texture: Some(Texture { path: String::new(), data: vec![10], width: 2, height: 2 }),
    };
    assert_eq!(m.sample_texture((FX_ONE, FX_ONE)), MISSING_TEXEL);
}
