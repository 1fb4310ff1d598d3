use polymenu::image::{choose_icon, icns_matcher, IconEntry, ImageData};

fn entry(pixel_width: u32, png: bool) -> IconEntry {
    IconEntry { pixel_width, png }
}

#[test]
fn icns_files_begin_with_their_magic() {
    assert!(icns_matcher(b"icns\x00\x00\x00\x08"));
    assert!(icns_matcher(b"icns"));
    assert!(!icns_matcher(b"icn"));
    assert!(!icns_matcher(b""));
    assert!(!icns_matcher(b"icnx rest"));
    assert!(!icns_matcher(b"\x89PNG\r\n"));
}

#[test]
fn widest_small_png_icon_is_chosen() {
    let entries = vec![entry(16, true), entry(256, true), entry(128, true), entry(512, true), entry(1024, true)];
    assert_eq!(choose_icon(&entries), Some(1));
}

#[test]
fn icons_that_are_no_png_are_skipped() {
    let entries = vec![entry(256, false), entry(32, true), entry(128, false)];
    assert_eq!(choose_icon(&entries), Some(1));
    assert_eq!(choose_icon(&vec![entry(16, false), entry(512, true)]), None);
    assert_eq!(choose_icon(&Vec::new()), None);
}

#[test]
fn of_equally_wide_icons_the_last_is_chosen() {
    let entries = vec![entry(64, true), entry(32, true), entry(64, true), entry(64, false)];
    assert_eq!(choose_icon(&entries), Some(2));
    assert_eq!(choose_icon(&vec![entry(511, true), entry(0, true)]), Some(0));
}

#[test]
fn icon_image_is_a_png() {
    let image = ImageData::from_icon(Some(vec![1, 2, 3]), b"placeholder");
    assert_eq!(image, ImageData { content: vec![1, 2, 3], mime: "image/png".to_string() });
    let image = ImageData::from_icon(None, b"placeholder");
    assert_eq!(image, ImageData { content: b"placeholder".to_vec(), mime: "image/png".to_string() });
}

#[test]
fn data_url_is_base64_without_padding() {
    let image = ImageData::from_file(b"hello world".to_vec(), "text/plain");
    assert_eq!(image.b64_content_string(), "data:text/plain;base64,aGVsbG8gd29ybGQ");
    let image = ImageData::from_file(b"hi".to_vec(), "image/jpeg");
    assert_eq!(image.b64_content_string(), "data:image/jpeg;base64,aGk");
    let image = ImageData::from_file(Vec::new(), "image/png");
    assert_eq!(image.b64_content_string(), "data:image/png;base64,");
    let image = ImageData::from_file(vec![0xfb, 0xff], "a/b");
    assert_eq!(image.b64_content_string(), "data:a/b;base64,+/8");
}
