use bevy_svg::{parse_failure, resolve_file_name, Origin, SvgAssetLoader, SvgError};

#[test]
fn file_name_names_the_document() {
    let r = resolve_file_name(Some("logo.svg".to_string()), "assets/logo.svg".to_string());
    assert_eq!(r.unwrap(), "logo.svg");
}

#[test]
fn missing_file_name_is_an_error() {
    let r = resolve_file_name(None, "assets/..".to_string());
    let e = r.unwrap_err();
    assert_eq!(e.get_path(), "assets/..");
    assert!(matches!(e.get_error(), SvgError::InvalidFileName(p) if p == "assets/.."));
}

#[test]
fn parse_errors_keep_their_cause() {
    let e = parse_failure(usvg::Error::InvalidSize, "a.svg".to_string());
    assert_eq!(e.get_path(), "a.svg");
    assert!(matches!(e.get_error(), SvgError::SvgError(usvg::Error::InvalidSize)));
    let from: SvgError = usvg::Error::NotAnUtf8Str.into();
    assert!(matches!(from, SvgError::SvgError(usvg::Error::NotAnUtf8Str)));
}

#[test]
fn loader_claims_svg_extensions() {
    assert_eq!(SvgAssetLoader.extensions(), &["svg", "svgz"]);
}

#[test]
fn default_origin_is_top_left() {
    assert_eq!(Origin::default(), Origin::TopLeft);
}
