use pinpoint::svg::{svg_check, validate_svg_source, SvgIssue, MAX_SVG_DEPTH};

#[test]
fn svg_preflight_rejects_entity_expansion_documents() {
    let source = br#"<!DOCTYPE svg [<!ENTITY a "aaaaaaaa">]><svg>&a;</svg>"#;
    assert_eq!(validate_svg_source(source).unwrap_err(), "SVG document types are not supported");
}

#[test]
fn svg_preflight_rejects_pathological_nesting() {
    let source = format!("<svg>{}</svg>", "<g>".repeat(MAX_SVG_DEPTH + 1));
    assert!(validate_svg_source(source.as_bytes()).unwrap_err().contains("nesting safety limit"));
}

#[test]
fn svg_preflight_accepts_normal_markup() {
    validate_svg_source(br#"<?xml version="1.0"?><svg><g><rect /></g></svg>"#).unwrap();
}

#[test]
fn svg_preflight_edge_cases() {
    assert_eq!(svg_check(b"<!doctype svg>"), Some(SvgIssue::DocumentType));
    assert_eq!(svg_check(b"<!DocType"), Some(SvgIssue::DocumentType));
    assert_eq!(svg_check(b"<svg"), Some(SvgIssue::UnterminatedTag));
    assert_eq!(svg_check(b"no markup at all"), None);
    assert_eq!(svg_check(b""), None);
    let exactly = format!("{}{}", "<g>".repeat(MAX_SVG_DEPTH), "</g>".repeat(MAX_SVG_DEPTH));
    assert_eq!(svg_check(exactly.as_bytes()), None);
    let many = "<rect/>".repeat(100_001);
    assert_eq!(
        validate_svg_source(many.as_bytes()).unwrap_err(),
        "SVG exceeds the 100000 element safety limit"
    );
    let closed = format!("<svg>{}</svg>", "<g></g>".repeat(300));
    assert_eq!(svg_check(closed.as_bytes()), None);
    let selfclosed = format!("<svg>{}</svg>", "<g / >".repeat(300));
    assert_eq!(svg_check(selfclosed.as_bytes()), None);
    assert_eq!(
        validate_svg_source(format!("<svg>{}", "<g>".repeat(MAX_SVG_DEPTH)).as_bytes()).unwrap_err(),
        "SVG exceeds the 256 level nesting safety limit"
    );
}
