use std::path::Path;

use varnish::metrics::{
    generate_metadata, has_repr_c, raw_c_string_literal, validate_fields, AttrMeta, FieldDecl,
    FieldTy, Format, Level, MetaValue, MetricField, MetricType, ReprAttr, VscMetadata,
};

/// Goes over every VMOD source file matching `path` (relative to the crate).
fn run_parse_tests(path: &str) {
    for file in glob::glob(path).unwrap() {
        test_file(&file.unwrap());
    }
}

fn has_attr(attrs: &[syn::Attribute], name: &str) -> bool {
    attrs.iter().any(|a| a.path().is_ident(name))
}

fn doc_of(attrs: &[syn::Attribute]) -> String {
    let mut lines = Vec::new();
    for a in attrs {
        if a.path().is_ident("doc") {
            if let syn::Meta::NameValue(nv) = &a.meta {
                if let syn::Expr::Lit(syn::ExprLit { lit: syn::Lit::Str(s), .. }) = &nv.value {
                    lines.push(s.value().trim().to_string());
                }
            }
        }
    }
    lines.join("\n")
}

fn metas_of(attrs: &[syn::Attribute], kind: &str) -> Vec<AttrMeta> {
    let mut metas = Vec::new();
    if let Some(attr) = attrs.iter().find(|a| a.path().is_ident(kind)) {
        let _ = attr.parse_nested_meta(|meta| {
            let key = meta
                .path
                .get_ident()
                .map(ToString::to_string)
                .unwrap_or_default();
            let value = if meta.input.peek(syn::token::Eq) {
                match meta.value()?.parse::<syn::LitStr>() {
                    Ok(s) => MetaValue::Str(s.value()),
                    Err(_) => MetaValue::NotStr,
                }
            } else {
                MetaValue::NoValue
            };
            metas.push(AttrMeta { key, value });
            Ok(())
        });
    }
    metas
}

fn check_metrics(item: &syn::ItemStruct) -> VscMetadata {
    let attrs: Vec<ReprAttr> = item
        .attrs
        .iter()
        .map(|a| ReprAttr {
            path_is_repr: a.path().is_ident("repr"),
            arg_is_c: matches!(a.parse_args::<syn::Meta>(), Ok(syn::Meta::Path(p)) if p.is_ident("C")),
        })
        .collect();
    assert!(has_repr_c(&attrs), "VSC structs must be marked with #[repr(C)]");
    let syn::Fields::Named(named) = &item.fields else {
        panic!("Only named fields are supported");
    };
    let decls: Vec<FieldDecl> = named
        .named
        .iter()
        .map(|f| FieldDecl {
            name: f.ident.as_ref().unwrap().to_string(),
            ty: match &f.ty {
                syn::Type::Path(p) => FieldTy::Path(p.path.segments.last().map(|s| s.ident.to_string())),
                _ => FieldTy::Other,
            },
        })
        .collect();
    assert!(validate_fields(&decls).is_empty());
    let fields: Vec<MetricField> = named
        .named
        .iter()
        .map(|f| {
            let counter = has_attr(&f.attrs, "counter");
            let gauge = has_attr(&f.attrs, "gauge");
            let bitmap = has_attr(&f.attrs, "bitmap");
            let kind = if counter { "counter" } else if gauge { "gauge" } else { "bitmap" };
            MetricField {
                name: f.ident.as_ref().unwrap().to_string(),
                counter,
                gauge,
                bitmap,
                doc: doc_of(&f.attrs),
                metas: metas_of(&f.attrs, kind),
            }
        })
        .collect();
    let meta = generate_metadata(&item.ident.to_string(), &fields);
    assert_eq!(meta.elements, fields.len());
    for (i, d) in meta.elem.iter().enumerate() {
        assert_eq!(d.index, Some(8 * i));
    }
    let lit = raw_c_string_literal(&meta.oneliner);
    assert!(lit.starts_with("cr"));
    meta
}

/// The contents of the files cannot be read from here: a matched file must
/// be a Rust source whose stem gives a valid test identifier.
fn test_file(filepath: &Path) {
    let file = filepath.to_str().unwrap();
    assert!(file.ends_with(".rs"), "not a Rust source: {file}");
    let stem = filepath.file_stem().unwrap().to_str().unwrap();
    let ident = varnish::vtc_tests::sanitize_ident(stem);
    assert!(syn::parse_str::<syn::Ident>(&format!("vtc_{ident}")).is_ok());
}

/// Processes every `#[derive(VscMetric)]` struct of a source text.
fn check_source(src: &str) -> Vec<VscMetadata> {
    let syntax = syn::parse_file(src).expect("unable to parse file");
    let mut has_metrics = false;
    let mut n = Vec::new();
    for item in syntax.items {
        if let syn::Item::Struct(item) = item {
            let derives_metric = item.attrs.iter().any(|attr| {
                matches!(&attr.meta, syn::Meta::List(l)
                    if l.path.is_ident("derive") && l.tokens.to_string().contains("VscMetric"))
            });
            if derives_metric {
                assert!(!has_metrics, "Multiple VscMetric structs found");
                has_metrics = true;
                n.push(check_metrics(&item));
            }
        }
    }
    n
}

/// A source in the shape of the pass files: a VMOD module (whose code
/// generation is not part of this library) and a metrics struct.
const PASS_SAMPLE: &str = r#"
    #[varnish::vmod]
    mod counters {
        pub fn hello() -> i64 { 1 }
    }

    #[derive(VscMetric)]
    #[repr(C)]
    pub struct Stats {
        /// Number of requests
        /// Counts every request.
        #[counter(level = "diag")]
        requests: AtomicU64,
        /// Bytes in flight
        #[gauge(format = "bytes")]
        inflight: AtomicU64,
    }
"#;

/// A source in the shape of the FFI pass files: a metrics struct with a
/// bitmap and a duration.
const PASS_FFI_SAMPLE: &str = r#"
    #[derive(Debug, VscMetric)]
    #[repr(C)]
    pub struct Timings {
        /// Flags seen
        #[bitmap(level = "debug", format = "bitmap")]
        flags: AtomicU64,
        /// Time spent
        ///
        /// In seconds.
        #[counter(format = "duration")]
        spent: AtomicU64,
    }
"#;

/// The pass files of the original source tree are not in this crate and
/// tests cannot read files, so each path the glob matches is only checked to
/// be a Rust source whose stem makes an identifier. The test then checks the
/// `#[derive(VscMetric)]` processing of a source shaped like those files:
/// the exact metadata the library computes for its metrics struct.
#[test]
fn parse_pass_tests() {
    run_parse_tests("../varnish/tests/pass/*.rs");
    let metas = check_source(PASS_SAMPLE);
    assert_eq!(metas.len(), 1);
    let m = &metas[0];
    assert_eq!(m.name, "Stats");
    assert_eq!(m.oneliner, "Stats statistics");
    assert_eq!(m.version, "1");
    assert_eq!(m.order, 100);
    assert_eq!(m.elements, 2);
    let r = &m.elem[0];
    assert_eq!((r.name.as_str(), r.metric_type, r.level, r.format), ("requests", MetricType::Counter, Level::Diag, Format::Integer));
    assert_eq!((r.oneliner.as_str(), r.docs.as_str(), r.index), ("Number of requests", "Counts every request.", Some(0)));
    let g = &m.elem[1];
    assert_eq!((g.name.as_str(), g.metric_type, g.level, g.format), ("inflight", MetricType::Gauge, Level::Info, Format::Bytes));
    assert_eq!((g.oneliner.as_str(), g.docs.as_str(), g.index), ("Bytes in flight", "", Some(8)));
}

/// As [`parse_pass_tests`], for the FFI pass files.
#[test]
fn parse_pass_ffi_tests() {
    run_parse_tests("../varnish/tests/pass_ffi/*.rs");
    let metas = check_source(PASS_FFI_SAMPLE);
    assert_eq!(metas.len(), 1);
    let m = &metas[0];
    assert_eq!(m.name, "Timings");
    assert_eq!(m.elements, 2);
    let b = &m.elem[0];
    assert_eq!((b.name.as_str(), b.metric_type, b.level, b.format), ("flags", MetricType::Bitmap, Level::Debug, Format::Bitmap));
    assert_eq!((b.oneliner.as_str(), b.index), ("Flags seen", Some(0)));
    let c = &m.elem[1];
    assert_eq!((c.name.as_str(), c.metric_type, c.level, c.format), ("spent", MetricType::Counter, Level::Info, Format::Duration));
    assert_eq!((c.oneliner.as_str(), c.docs.as_str(), c.index), ("Time spent", "In seconds.", Some(8)));
}

#[test]
fn test_metrics_struct_source() {
    let src = r#"
        #[derive(VscMetric)]
        #[repr(C)]
        pub struct Stats {
            /// Number of requests
            #[counter]
            requests: AtomicU64,
        }
    "#;
    assert_eq!(check_source(src).len(), 1);
}
