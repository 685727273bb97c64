use egl_image::capability::{is_separator, CapabilitySet};
use egl_image::version::Version;

#[test]
fn version_order_is_lexicographic() {
    assert!(Version::new(1, 5).at_least(Version::new(1, 5)));
    assert!(Version::new(1, 5).at_least(Version::new(1, 2)));
    assert!(Version::new(2, 0).at_least(Version::new(1, 9)));
    assert!(!Version::new(1, 4).at_least(Version::new(1, 5)));
    assert!(!Version::new(1, 9).at_least(Version::new(2, 0)));
    assert!(!Version::new(0, 200).at_least(Version::new(1, 0)));
}

#[test]
fn version_from_reported_keeps_well_formed_pairs() {
    assert_eq!(Version::from_reported(1, 4), Version::new(1, 4));
    assert_eq!(Version::from_reported(1, 0), Version::new(1, 0));
    assert_eq!(Version::from_reported(255, 255), Version::new(255, 255));
}

#[test]
fn version_from_reported_degrades_to_earliest() {
    assert_eq!(Version::earliest(), Version::new(1, 0));
    assert_eq!(Version::from_reported(0, 3), Version::new(1, 0));
    assert_eq!(Version::from_reported(-1, 5), Version::new(1, 0));
    assert_eq!(Version::from_reported(1, -1), Version::new(1, 0));
    assert_eq!(Version::from_reported(256, 0), Version::new(1, 0));
    assert_eq!(Version::from_reported(1, 256), Version::new(1, 0));
    assert_eq!(Version::from_reported(i32::MIN, i32::MAX), Version::new(1, 0));
}

#[test]
fn separators_are_space_and_control_whitespace() {
    assert!(is_separator(b' '));
    assert!(is_separator(b'\t'));
    assert!(is_separator(b'\n'));
    assert!(is_separator(0x0b));
    assert!(is_separator(0x0c));
    assert!(is_separator(b'\r'));
    assert!(!is_separator(0x08));
    assert!(!is_separator(0x0e));
    assert!(!is_separator(b'_'));
    assert!(!is_separator(b'E'));
    assert!(!is_separator(0));
}

#[test]
fn has_extension_finds_each_token() {
    let caps = CapabilitySet::new(
        Version::new(1, 4),
        b"EGL_KHR_image_base EGL_KHR_native_pixmap EGL_EXT_image_dma_buf_import",
    );
    assert!(caps.has_extension("EGL_KHR_image_base"));
    assert!(caps.has_extension("EGL_KHR_native_pixmap"));
    assert!(caps.has_extension("EGL_EXT_image_dma_buf_import"));
}

#[test]
fn has_extension_is_exact() {
    let caps = CapabilitySet::new(Version::new(1, 4), b"EGL_KHR_image_base EGL_KHR_native_pixmap");
    assert!(!caps.has_extension("EGL_KHR_image"));
    assert!(!caps.has_extension("EGL_KHR_image_base "));
    assert!(!caps.has_extension("EGL_KHR_image_base EGL_KHR_native_pixmap"));
    assert!(!caps.has_extension("GL_KHR_image_base"));
    assert!(!caps.has_extension(""));
    assert!(!caps.has_extension(" "));
}

#[test]
fn has_extension_is_case_sensitive() {
    let caps = CapabilitySet::new(Version::new(1, 4), b"EGL_KHR_image_base");
    assert!(caps.has_extension("EGL_KHR_image_base"));
    assert!(!caps.has_extension("egl_khr_image_base"));
    assert!(!caps.has_extension("EGL_KHR_IMAGE_BASE"));
}

#[test]
fn tokens_are_cut_at_any_whitespace() {
    let caps = CapabilitySet::new(Version::new(1, 5), b"  A\tBB\n\nCCC\r\x0bD\x0c E  ");
    assert!(caps.has_extension("A"));
    assert!(caps.has_extension("BB"));
    assert!(caps.has_extension("CCC"));
    assert!(caps.has_extension("D"));
    assert!(caps.has_extension("E"));
    assert!(!caps.has_extension("B"));
    assert!(!caps.has_extension("CC"));
    assert!(!caps.has_extension("A\tBB"));
}

#[test]
fn single_token_without_separators() {
    let caps = CapabilitySet::new(Version::new(1, 5), b"EGL_KHR_image");
    assert!(caps.has_extension("EGL_KHR_image"));
    assert!(!caps.has_extension("EGL_KHR_imag"));
    assert!(!caps.has_extension("GL_KHR_image"));
}

#[test]
fn empty_and_blank_strings_hold_no_extension() {
    let empty = CapabilitySet::new(Version::new(1, 5), b"");
    assert!(!empty.has_extension("EGL_KHR_image"));
    assert!(!empty.has_extension(""));
    let blank = CapabilitySet::new(Version::new(1, 5), b" \t \n");
    assert!(!blank.has_extension("EGL_KHR_image"));
    assert!(!blank.has_extension(""));
}

#[test]
fn malformed_extension_string_holds_no_extension() {
    let caps = CapabilitySet::new(Version::new(1, 5), b"EGL_KHR_image \xff EGL_KHR_image_base");
    assert!(!caps.has_extension("EGL_KHR_image"));
    assert!(!caps.has_extension("EGL_KHR_image_base"));
    let caps = CapabilitySet::new(Version::new(1, 5), "EGL_KHR_image caf\u{e9}".as_bytes());
    assert!(!caps.has_extension("EGL_KHR_image"));
}

#[test]
fn negotiate_keeps_what_was_reported() {
    let caps = CapabilitySet::negotiate(Some((1, 4)), Some(b"EGL_KHR_image"));
    assert_eq!(caps.version(), Version::new(1, 4));
    assert!(caps.version_at_least(1, 4));
    assert!(caps.version_at_least(1, 2));
    assert!(!caps.version_at_least(1, 5));
    assert!(caps.has_extension("EGL_KHR_image"));
}

#[test]
fn negotiate_degrades_when_answers_are_missing() {
    let caps = CapabilitySet::negotiate(None, None);
    assert_eq!(caps.version(), Version::new(1, 0));
    assert!(!caps.has_extension("EGL_KHR_image"));
    assert!(caps.version_at_least(1, 0));
    assert!(!caps.version_at_least(1, 1));
}

#[test]
fn negotiate_degrades_when_answers_are_malformed() {
    let caps = CapabilitySet::negotiate(Some((0, 0)), Some(b"EGL_KHR_image\x80"));
    assert_eq!(caps.version(), Version::new(1, 0));
    assert!(!caps.has_extension("EGL_KHR_image"));
    let caps = CapabilitySet::negotiate(Some((-3, 7)), Some(b"EGL_KHR_image"));
    assert_eq!(caps.version(), Version::new(1, 0));
    assert!(caps.has_extension("EGL_KHR_image"));
}
