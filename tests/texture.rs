use rtow::color::Rgb;
use rtow::texture::{ImageTexture, ImageTextureInit};

fn pixels() -> ImageTextureInit {
    // 2 x 2 image, rows padded to 8 bytes.
    let data = vec![
        1, 2, 3, 4, 5, 6, 0, 0, //
        7, 8, 9, 10, 11, 12, 0, 0,
    ];
    ImageTextureInit::new(2, 2, 8, data).unwrap()
}

#[test]
fn layout_must_fit() {
    assert!(ImageTextureInit::new(0, 2, 8, vec![0; 16]).is_none());
    assert!(ImageTextureInit::new(2, 0, 8, vec![0; 16]).is_none());
    assert!(ImageTextureInit::new(3, 2, 8, vec![0; 16]).is_none());
    assert!(ImageTextureInit::new(2, 2, 8, vec![0; 15]).is_none());
    assert!(ImageTextureInit::new(usize::MAX, 1, 8, vec![0; 16]).is_none());
    assert!(ImageTextureInit::new(1, usize::MAX, 8, vec![0; 16]).is_none());
    let t = ImageTextureInit::new(2, 2, 6, vec![0; 12]).unwrap();
    assert_eq!((t.width(), t.height()), (2, 2));
}

#[test]
fn texel_reads_row_major_and_clamps() {
    let t = pixels();
    assert_eq!(t.texel(0, 0), Rgb::new(1, 2, 3));
    assert_eq!(t.texel(1, 0), Rgb::new(4, 5, 6));
    assert_eq!(t.texel(0, 1), Rgb::new(7, 8, 9));
    assert_eq!(t.texel(1, 1), Rgb::new(10, 11, 12));
    assert_eq!(t.texel(9, 9), Rgb::new(10, 11, 12));
    assert_eq!(t.texel(5, 0), Rgb::new(4, 5, 6));
}

#[test]
fn texture_loads_once() {
    let mut tex = ImageTexture::new(String::from("earth.png"));
    assert_eq!(tex.pending_file().map(|s| s.as_str()), Some("earth.png"));
    tex.load(Some(pixels()));
    assert!(tex.pending_file().is_none());
    assert_eq!(tex.texel(1, 0), Some(Rgb::new(4, 5, 6)));
    tex.load(None);
    assert_eq!(tex.texel(1, 0), Some(Rgb::new(4, 5, 6)));
}

#[test]
fn missing_file_has_no_texels() {
    let mut tex = ImageTexture::new(String::from("missing.png"));
    tex.load(None);
    assert_eq!(tex.texel(0, 0), None);
}
