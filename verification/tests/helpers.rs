use versionize_helpers::compute_version;
use versionize_helpers::get_end_version;
use versionize_helpers::get_ident_attr;
use versionize_helpers::get_start_version;
use versionize_helpers::has_c_layout;
use versionize_helpers::is_array;
use versionize_helpers::parse_field_attributes;
use versionize_helpers::scan_attributes;
use versionize_helpers::Attr;
use versionize_helpers::AttrError;
use versionize_helpers::AttrMeta;
use versionize_helpers::Lit;
use versionize_helpers::Meta;
use versionize_helpers::TypeShape;
use versionize_helpers::VersionWindow;

fn list_attr(path: &str, items: Vec<Meta>) -> Attr {
    Attr {
        path: Some(path.to_string()),
        meta: AttrMeta::List { items },
    }
}

fn word(name: &str) -> Meta {
    Meta::Word {
        name: name.to_string(),
    }
}

fn nv_int(name: &str, digits: &str) -> Meta {
    Meta::NameValue {
        name: name.to_string(),
        value: Lit::Integer {
            digits: digits.as_bytes().to_vec(),
        },
    }
}

fn nv_str(name: &str, value: &str) -> Meta {
    Meta::NameValue {
        name: name.to_string(),
        value: Lit::Str {
            value: value.to_string(),
        },
    }
}

#[test]
fn test_union_has_c_layout() {
    // union TestUnion { a: [u32; 1], b: [u8; 4] } carrying
    // #[repr(C)] #[derive(Versionize)], and the same without #[repr(C)].
    let good_union_attrs = vec![
        list_attr("repr", vec![word("C")]),
        list_attr("derive", vec![word("Versionize")]),
    ];
    let bad_union_attrs = vec![list_attr("derive", vec![word("Versionize")])];

    assert_eq!(has_c_layout(&good_union_attrs), true);
    assert_eq!(has_c_layout(&bad_union_attrs), false);
}

#[test]
fn test_c_layout_among_other_repr_options() {
    let trailing = vec![list_attr("repr", vec![word("packed"), word("C")])];
    let leading = vec![list_attr("repr", vec![word("C"), word("packed")])];
    // repr(align(4)) reaches the probe as a sublist item, an `Other` shape.
    let with_align = vec![list_attr("repr", vec![Meta::Other, word("C")])];
    let split = vec![
        list_attr("repr", vec![word("packed")]),
        list_attr("repr", vec![word("C")]),
    ];

    assert!(has_c_layout(&trailing));
    assert!(has_c_layout(&leading));
    assert!(has_c_layout(&with_align));
    assert!(has_c_layout(&split));
}

#[test]
fn test_no_repr_or_other_repr_only() {
    let none: Vec<Attr> = Vec::new();
    let packed = vec![list_attr("repr", vec![word("packed")])];
    let align = vec![list_attr("repr", vec![Meta::Other])];
    // A `C` under some other marker is not a layout marker.
    let not_repr = vec![list_attr("derive", vec![word("C")])];
    let bare_repr = vec![Attr {
        path: Some("repr".to_string()),
        meta: AttrMeta::Other,
    }];

    assert!(!has_c_layout(&none));
    assert!(!has_c_layout(&packed));
    assert!(!has_c_layout(&align));
    assert!(!has_c_layout(&not_repr));
    assert!(!has_c_layout(&bare_repr));
}

#[test]
fn test_version_extraction() {
    // #[version(start_version = 2, end_version = 5)]
    let attrs = vec![list_attr(
        "version",
        vec![nv_int("start_version", "2"), nv_int("end_version", "5")],
    )];
    let map = parse_field_attributes(&attrs);

    assert_eq!(get_start_version(&map), Ok(Some(2)));
    assert_eq!(get_end_version(&map), Ok(Some(5)));
}

#[test]
fn test_version_extraction_bounds() {
    let low = parse_field_attributes(&[list_attr("version", vec![nv_int("start_version", "0")])]);
    let high = parse_field_attributes(&[list_attr(
        "version",
        vec![nv_int("start_version", "65535")],
    )]);
    let over = parse_field_attributes(&[list_attr(
        "version",
        vec![nv_int("start_version", "65536")],
    )]);

    assert_eq!(get_start_version(&low), Ok(Some(0)));
    assert_eq!(get_start_version(&high), Ok(Some(65535)));
    assert_eq!(get_start_version(&over), Err(AttrError::IntegerExpected));
}

#[test]
fn test_version_leading_zeros() {
    let map = parse_field_attributes(&[list_attr("version", vec![nv_int("end_version", "007")])]);

    assert_eq!(get_end_version(&map), Ok(Some(7)));
}

#[test]
fn test_version_negative() {
    let map = parse_field_attributes(&[list_attr("version", vec![nv_int("start_version", "-3")])]);

    assert_eq!(get_start_version(&map), Err(AttrError::IntegerExpected));
}

#[test]
fn test_absent_options() {
    let no_attrs = parse_field_attributes(&[]);
    let unrelated = parse_field_attributes(&[list_attr(
        "version",
        vec![nv_str("default_fn", "make_zero")],
    )]);

    assert_eq!(get_start_version(&no_attrs), Ok(None));
    assert_eq!(get_end_version(&no_attrs), Ok(None));
    assert_eq!(get_ident_attr(&no_attrs, "default_fn"), Ok(None));
    assert_eq!(get_start_version(&unrelated), Ok(None));
    assert_eq!(get_end_version(&unrelated), Ok(None));
}

#[test]
fn test_value_kind_enforcement() {
    // #[version(start_version = "two")]
    let text_version = parse_field_attributes(&[list_attr(
        "version",
        vec![nv_str("start_version", "two")],
    )]);
    let other_version = parse_field_attributes(&[list_attr(
        "version",
        vec![Meta::NameValue {
            name: "end_version".to_string(),
            value: Lit::Other,
        }],
    )]);
    // #[version(default_fn = 2)]
    let int_default = parse_field_attributes(&[list_attr(
        "version",
        vec![nv_int("default_fn", "2")],
    )]);

    let start_err = get_start_version(&text_version).unwrap_err();
    assert_eq!(start_err, AttrError::IntegerExpected);
    assert_eq!(
        start_err.message(),
        "Field start/end version number must be an integer"
    );
    assert_eq!(
        get_end_version(&other_version),
        Err(AttrError::IntegerExpected)
    );
    let default_err = get_ident_attr(&int_default, "default_fn").unwrap_err();
    assert_eq!(default_err, AttrError::StringExpected);
    assert_eq!(
        default_err.message(),
        "default_fn must be the function name as a String."
    );
}

#[test]
fn test_default_fn_ident() {
    // #[version(default_fn = "make_zero")]
    let map = parse_field_attributes(&[list_attr(
        "version",
        vec![nv_str("default_fn", "make_zero")],
    )]);

    let ident = get_ident_attr(&map, "default_fn").unwrap().unwrap();
    assert_eq!(ident.text, "make_zero");
}

#[test]
fn test_marker_isolation() {
    // Annotations under other markers contribute nothing to the map.
    let foreign_only = parse_field_attributes(&[list_attr(
        "serde",
        vec![nv_int("start_version", "9")],
    )]);
    let mixed = parse_field_attributes(&[
        list_attr("serde", vec![nv_int("start_version", "9")]),
        list_attr("version", vec![nv_int("start_version", "1")]),
    ]);
    let no_path = parse_field_attributes(&[Attr {
        path: None,
        meta: AttrMeta::List {
            items: vec![nv_int("start_version", "9")],
        },
    }]);

    assert_eq!(get_start_version(&foreign_only), Ok(None));
    assert_eq!(get_start_version(&mixed), Ok(Some(1)));
    assert_eq!(get_start_version(&no_path), Ok(None));
}

#[test]
fn test_parse_idempotent() {
    let attrs = vec![
        list_attr(
            "version",
            vec![nv_int("start_version", "2"), nv_str("default_fn", "make_zero")],
        ),
        list_attr("serde", vec![word("skip")]),
    ];

    let first = parse_field_attributes(&attrs);
    let second = parse_field_attributes(&attrs);
    assert_eq!(first, second);
}

#[test]
fn test_duplicate_option_last_wins() {
    let one_list = parse_field_attributes(&[list_attr(
        "version",
        vec![nv_int("start_version", "1"), nv_int("start_version", "2")],
    )]);
    let two_lists = parse_field_attributes(&[
        list_attr("version", vec![nv_int("start_version", "3")]),
        list_attr("version", vec![nv_int("start_version", "4")]),
    ]);

    assert_eq!(get_start_version(&one_list), Ok(Some(2)));
    assert_eq!(get_start_version(&two_lists), Ok(Some(4)));
}

#[test]
fn test_scan_attributes_order() {
    let attrs = vec![
        list_attr("version", vec![nv_int("start_version", "1"), word("first")]),
        list_attr("derive", vec![word("Versionize")]),
        list_attr("version", vec![word("second")]),
    ];

    let scanned = scan_attributes("version", &attrs);
    let expected = vec![nv_int("start_version", "1"), word("first"), word("second")];
    assert_eq!(scanned, expected);
}

#[test]
fn test_scan_ignores_non_list() {
    let attrs = vec![
        Attr {
            path: Some("version".to_string()),
            meta: AttrMeta::Other,
        },
        list_attr("version", vec![word("kept")]),
    ];

    let scanned = scan_attributes("version", &attrs);
    assert_eq!(scanned, vec![word("kept")]);
}

#[test]
fn test_compute_version() {
    let fields = [
        VersionWindow { start: 0, end: 0 },
        VersionWindow { start: 1, end: 3 },
        VersionWindow { start: 4, end: 2 },
    ];

    assert_eq!(compute_version(&fields), 4);
}

#[test]
fn test_compute_version_empty() {
    let fields: [VersionWindow; 0] = [];

    assert_eq!(compute_version(&fields), 0);
}

#[test]
fn test_compute_version_attained() {
    // The result is one of the window endpoints: here the largest end.
    let fields = [
        VersionWindow { start: 2, end: 6 },
        VersionWindow { start: 3, end: 1 },
    ];

    assert_eq!(compute_version(&fields), 6);
}

#[test]
fn test_is_array() {
    assert!(is_array(&TypeShape::Array));
    assert!(!is_array(&TypeShape::Slice));
    assert!(!is_array(&TypeShape::Reference));
    assert!(!is_array(&TypeShape::Named));
    assert!(!is_array(&TypeShape::Tuple));
    assert!(!is_array(&TypeShape::Other));
}
