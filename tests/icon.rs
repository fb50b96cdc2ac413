use bsearch::icon::{
    bgra_to_rgba, bitmap_png, choose_icon_path, default_icon_file_name, default_icon_pixels, default_icon_png,
    icon_file_name, IconIds, ICON_BYTES,
};

const PNG_SIGNATURE: [u8; 8] = [137, 80, 78, 71, 13, 10, 26, 10];

fn pixel(buf: &[u8], x: usize, y: usize) -> [u8; 4] {
    let i = (y * 48 + x) * 4;
    [buf[i], buf[i + 1], buf[i + 2], buf[i + 3]]
}

#[test]
fn default_icon_is_a_blue_disc() {
    let px = default_icon_pixels();
    assert_eq!(px.len(), ICON_BYTES);
    assert_eq!(pixel(&px, 24, 24), [100, 149, 237, 255]);
    assert_eq!(pixel(&px, 0, 0), [0, 0, 0, 0]);
    assert_eq!(pixel(&px, 4, 24), [0, 0, 0, 0]);
    assert_eq!(pixel(&px, 5, 24), [100, 149, 237, 255]);
    assert_eq!(pixel(&px, 47, 47), [0, 0, 0, 0]);
}

#[test]
fn bgra_becomes_rgba() {
    assert_eq!(bgra_to_rgba(&vec![1, 2, 3, 4, 5, 6, 7, 8]), vec![3, 2, 1, 4, 7, 6, 5, 8]);
    assert!(bgra_to_rgba(&vec![]).is_empty());
}

#[test]
fn default_icon_encodes_as_png() {
    let png = default_icon_png();
    assert_eq!(&png[..8], &PNG_SIGNATURE);
}

#[test]
fn bitmap_encodes_as_png() {
    let mut bgra = vec![0u8; ICON_BYTES];
    bgra[0] = 255;
    let png = bitmap_png(&bgra);
    assert_eq!(&png[..8], &PNG_SIGNATURE);
    assert_ne!(png, bgra);
}

#[test]
fn icon_ids_are_sequential() {
    let mut ids = IconIds::new();
    assert_eq!(ids.issue(), Some(1));
    assert_eq!(ids.issue(), Some(2));
    assert_eq!(ids.issue(), Some(3));
}

#[test]
fn icon_files_are_named_by_id() {
    assert_eq!(icon_file_name(42), "icon_42.png");
    assert_eq!(icon_file_name(0), "icon_0.png");
    assert_eq!(icon_file_name(u64::MAX), "icon_18446744073709551615.png");
}

#[test]
fn default_icon_name_is_stable() {
    assert_eq!(default_icon_file_name(), "default_icon.png");
    assert_eq!(default_icon_file_name(), default_icon_file_name());
}

#[test]
fn failed_extraction_falls_back_to_default() {
    let d = "cache/default_icon.png".to_string();
    assert_eq!(choose_icon_path(None, d.clone()), d);
    assert_eq!(choose_icon_path(None, d.clone()), choose_icon_path(None, d.clone()));
    assert_eq!(choose_icon_path(Some("icon_5.png".to_string()), d), "icon_5.png".to_string());
}

#[test]
fn bitmap_encoding_depends_on_pixels_alone() {
    let mut bgra = vec![0u8; ICON_BYTES];
    bgra[0] = 255;
    assert_eq!(bitmap_png(&bgra), bitmap_png(&bgra.clone()));
    assert_ne!(bitmap_png(&bgra), bitmap_png(&bgra_to_rgba(&bgra)));
    assert_ne!(bitmap_png(&bgra), bitmap_png(&vec![0u8; ICON_BYTES]));
}
