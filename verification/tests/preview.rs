use filter_catalog::preview::preview_text;

#[test]
fn preview_is_standard_base64_with_padding() {
    assert_eq!(preview_text(&Vec::new()), "");
    assert_eq!(preview_text(&b"f".to_vec()), "Zg==");
    assert_eq!(preview_text(&b"fo".to_vec()), "Zm8=");
    assert_eq!(preview_text(&b"foo".to_vec()), "Zm9v");
    assert_eq!(preview_text(&b"hello".to_vec()), "aGVsbG8=");
    assert_eq!(preview_text(&vec![0xfb, 0xff, 0xfe]), "+//+");
}
