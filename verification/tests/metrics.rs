use varnish::metrics::{
    doc_lines, generate_metadata, generate_metrics, has_repr_c, metric_type,
    parse_metric_attributes, raw_c_string_literal, raw_string_hashes, validate_fields, AttrMeta,
    CType, FieldDecl, FieldError, FieldTy, Format, Level, MetaValue, MetricField, MetricType,
    ReprAttr, check_vsc_struct, VscStructError,
};

fn meta(key: &str, value: Option<&str>) -> AttrMeta {
    AttrMeta {
        key: key.to_string(),
        value: match value {
            Some(v) => MetaValue::Str(v.to_string()),
            None => MetaValue::NoValue,
        },
    }
}

#[test]
fn test_ctype_size() {
    assert_eq!(CType::Uint64.size(), 8);
}

#[test]
fn test_level_from_str() {
    assert_eq!(Level::from_str("info"), Ok(Level::Info));
    assert_eq!(Level::from_str("diag"), Ok(Level::Diag));
    assert_eq!(Level::from_str("debug"), Ok(Level::Debug));
    assert_eq!(
        Level::from_str("loud"),
        Err("Invalid level value 'loud'. Must be one of: info, diag, debug".to_string())
    );
    assert!(Level::from_str("Info").is_err());
}

#[test]
fn test_format_from_str() {
    assert_eq!(Format::from_str("integer"), Ok(Format::Integer));
    assert_eq!(Format::from_str("bitmap"), Ok(Format::Bitmap));
    assert_eq!(Format::from_str("duration"), Ok(Format::Duration));
    assert_eq!(Format::from_str("bytes"), Ok(Format::Bytes));
    assert_eq!(
        Format::from_str("kb"),
        Err("Invalid format value 'kb'. Must be one of: integer, bitmap, duration, bytes".to_string())
    );
}

#[test]
fn test_doc_lines() {
    assert_eq!(doc_lines("one\n\ntwo\nthree"), vec!["one", "two", "three"]);
    assert_eq!(doc_lines(""), Vec::<String>::new());
    assert_eq!(doc_lines("\n\n"), Vec::<String>::new());
    assert_eq!(doc_lines("héllo\n"), vec!["héllo"]);
}

#[test]
fn test_metric_type() {
    assert_eq!(metric_type(true, false, false), Some(MetricType::Counter));
    assert_eq!(metric_type(false, true, false), Some(MetricType::Gauge));
    assert_eq!(metric_type(false, false, true), Some(MetricType::Bitmap));
    assert_eq!(metric_type(false, false, false), None);
    assert_eq!(metric_type(true, true, false), None);
}

#[test]
fn test_parse_metric_attributes() {
    assert_eq!(parse_metric_attributes(&vec![]), (Level::Info, Format::Integer));
    assert_eq!(
        parse_metric_attributes(&vec![meta("level", Some("diag")), meta("format", Some("bytes"))]),
        (Level::Diag, Format::Bytes)
    );
    // an invalid level ends the reading: the format is not read
    assert_eq!(
        parse_metric_attributes(&vec![meta("level", Some("nope")), meta("format", Some("bytes"))]),
        (Level::Info, Format::Integer)
    );
    // an unknown bare argument is skipped, an unknown argument with a value ends the reading
    assert_eq!(
        parse_metric_attributes(&vec![meta("other", None), meta("format", Some("duration"))]),
        (Level::Info, Format::Duration)
    );
    assert_eq!(
        parse_metric_attributes(&vec![meta("other", Some("x")), meta("format", Some("duration"))]),
        (Level::Info, Format::Integer)
    );
    let not_str = AttrMeta { key: "level".to_string(), value: MetaValue::NotStr };
    assert_eq!(parse_metric_attributes(&vec![not_str]), (Level::Info, Format::Integer));
}

#[test]
fn test_generate_metrics_offsets() {
    let fields = vec![
        MetricField {
            name: "hits".to_string(),
            counter: true,
            gauge: false,
            bitmap: false,
            doc: "Cache hits\nEvery hit counts".to_string(),
            metas: vec![meta("level", Some("debug"))],
        },
        MetricField {
            name: "conns".to_string(),
            counter: false,
            gauge: true,
            bitmap: false,
            doc: String::new(),
            metas: vec![],
        },
    ];
    let defs = generate_metrics(&fields);
    assert_eq!(defs.len(), 2);
    assert_eq!(defs[0].name, "hits");
    assert_eq!(defs[0].metric_type, MetricType::Counter);
    assert_eq!(defs[0].level, Level::Debug);
    assert_eq!(defs[0].oneliner, "Cache hits");
    assert_eq!(defs[0].docs, "Every hit counts");
    assert_eq!(defs[0].index, Some(0));
    assert_eq!(defs[1].metric_type, MetricType::Gauge);
    assert_eq!(defs[1].oneliner, "");
    assert_eq!(defs[1].index, Some(8));
    let m = generate_metadata("Stats", &fields);
    assert_eq!(m.version, "1");
    assert_eq!(m.oneliner, "Stats statistics");
    assert_eq!(m.order, 100);
    assert_eq!(m.docs, "");
    assert_eq!(m.elements, 2);
}

#[test]
fn test_raw_string_hashes() {
    assert_eq!(raw_string_hashes("no quotes"), 0);
    assert_eq!(raw_string_hashes("{\"a\":1}"), 1);
    assert_eq!(raw_string_hashes("\"##x\"#"), 3);
    assert_eq!(raw_c_string_literal("{\"a\":1}"), "cr#\"{\"a\":1}\"#");
    assert_eq!(raw_c_string_literal("x"), "cr\"x\"");
    assert_eq!(raw_c_string_literal("a\"##b"), "cr###\"a\"##b\"###");
}

#[test]
fn test_validate_fields() {
    let fields = vec![
        FieldDecl { name: "a".to_string(), ty: FieldTy::Path(Some("AtomicU64".to_string())) },
        FieldDecl { name: "b".to_string(), ty: FieldTy::Path(Some("u64".to_string())) },
        FieldDecl { name: "c".to_string(), ty: FieldTy::Other },
        FieldDecl { name: "d".to_string(), ty: FieldTy::Path(None) },
    ];
    let errs = validate_fields(&fields);
    assert_eq!(
        errs,
        vec![
            FieldError::NotAtomicU64("b".to_string()),
            FieldError::NotAPath,
            FieldError::NotAtomicU64("d".to_string())
        ]
    );
    assert_eq!(errs[0].message(), "Field b must be of type AtomicU64");
    assert_eq!(errs[1].message(), "Field types must be of type AtomicU64");
}

#[test]
fn test_has_repr_c() {
    assert!(!has_repr_c(&vec![]));
    assert!(!has_repr_c(&vec![ReprAttr { path_is_repr: true, arg_is_c: false }]));
    assert!(has_repr_c(&vec![
        ReprAttr { path_is_repr: false, arg_is_c: true },
        ReprAttr { path_is_repr: true, arg_is_c: true }
    ]));
}

#[test]
fn test_check_vsc_struct_order() {
    let repr_c = vec![ReprAttr { path_is_repr: true, arg_is_c: true }];
    let not_c = vec![ReprAttr { path_is_repr: true, arg_is_c: false }];
    let bad = vec![FieldDecl { name: "x".to_string(), ty: FieldTy::Other }];
    let good = vec![FieldDecl { name: "y".to_string(), ty: FieldTy::Path(Some("AtomicU64".to_string())) }];
    // the repr(C) check comes first
    assert_eq!(check_vsc_struct(&not_c, &bad), Err(VscStructError::NotReprC));
    assert_eq!(check_vsc_struct(&repr_c, &bad), Err(VscStructError::Fields(vec![FieldError::NotAPath])));
    assert_eq!(check_vsc_struct(&repr_c, &good), Ok(()));
}
