//! The metadata of a VSC metrics struct: one metric per field, described by
//! the field's attributes and documentation, laid out one `u64` after the
//! other.
use vstd::prelude::*;
use vstd::string::StrSliceExecFns;

use crate::strings::{str_eq, string_push, string_push_str};

verus! {

/// C type of a metric.
#[derive(Debug, Clone, Copy, PartialEq, Eq, Structural)]
pub enum CType {
    /// `uint64_t`
    Uint64,
}

impl CType {
    /// Size in bytes of a metric of this type (that of an `AtomicU64`).
    pub open spec fn spec_size(&self) -> nat {
        8
    }

    /// Size in bytes of a metric of this type (that of an `AtomicU64`).
    pub fn size(&self) -> (n: usize)
        ensures
            n == self.spec_size(),
    {
        match self {
            CType::Uint64 => 8,
        }
    }
}

/// Kind of a metric.
#[derive(Debug, Clone, Copy, PartialEq, Eq, Structural)]
pub enum MetricType {
    Counter,
    Gauge,
    Bitmap,
}

/// Level of a metric.
#[derive(Debug, Clone, Copy, PartialEq, Eq, Structural)]
pub enum Level {
    Info,
    Diag,
    Debug,
}

/// Display format of a metric.
#[derive(Debug, Clone, Copy, PartialEq, Eq, Structural)]
pub enum Format {
    Integer,
    Bitmap,
    Duration,
    Bytes,
}

/// The level that a name stands for.
pub open spec fn level_of(s: Seq<char>) -> Option<Level> {
    if s == "info"@ {
        Some(Level::Info)
    } else if s == "diag"@ {
        Some(Level::Diag)
    } else if s == "debug"@ {
        Some(Level::Debug)
    } else {
        None
    }
}

/// The format that a name stands for.
pub open spec fn format_of(s: Seq<char>) -> Option<Format> {
    if s == "integer"@ {
        Some(Format::Integer)
    } else if s == "bitmap"@ {
        Some(Format::Bitmap)
    } else if s == "duration"@ {
        Some(Format::Duration)
    } else if s == "bytes"@ {
        Some(Format::Bytes)
    } else {
        None
    }
}

impl Level {
    /// The default level, `info`.
    pub fn default_level() -> (l: Level)
        ensures
            l == Level::Info,
    {
        Level::Info
    }

    /// Parses `info`, `diag` or `debug`; any other text is refused with a
    /// message naming it.
    pub fn from_str(s: &str) -> (r: Result<Level, String>)
        ensures
            match level_of(s@) {
                Some(l) => r == Ok::<Level, String>(l),
                None => r matches Err(e) && e@ == "Invalid level value '"@ + s@
                    + "'. Must be one of: info, diag, debug"@,
            },
    {
        if str_eq(s, "info") {
            Ok(Level::Info)
        } else if str_eq(s, "diag") {
            Ok(Level::Diag)
        } else if str_eq(s, "debug") {
            Ok(Level::Debug)
        } else {
            let mut e = String::from_str("Invalid level value '");
            string_push_str(&mut e, s);
            string_push_str(&mut e, "'. Must be one of: info, diag, debug");
            Err(e)
        }
    }
}

impl Format {
    /// The default format, `integer`.
    pub fn default_format() -> (f: Format)
        ensures
            f == Format::Integer,
    {
        Format::Integer
    }

    /// Parses `integer`, `bitmap`, `duration` or `bytes`; any other text is
    /// refused with a message naming it.
    pub fn from_str(s: &str) -> (r: Result<Format, String>)
        ensures
            match format_of(s@) {
                Some(f) => r == Ok::<Format, String>(f),
                None => r matches Err(e) && e@ == "Invalid format value '"@ + s@
                    + "'. Must be one of: integer, bitmap, duration, bytes"@,
            },
    {
        if str_eq(s, "integer") {
            Ok(Format::Integer)
        } else if str_eq(s, "bitmap") {
            Ok(Format::Bitmap)
        } else if str_eq(s, "duration") {
            Ok(Format::Duration)
        } else if str_eq(s, "bytes") {
            Ok(Format::Bytes)
        } else {
            let mut e = String::from_str("Invalid format value '");
            string_push_str(&mut e, s);
            string_push_str(&mut e, "'. Must be one of: integer, bitmap, duration, bytes");
            Err(e)
        }
    }
}

/// The lines of `s`, split at each `\n` (an empty text is one empty line).
pub open spec fn split_lines(s: Seq<char>) -> Seq<Seq<char>>
    decreases s.len(),
{
    if s.len() == 0 {
        seq![Seq::<char>::empty()]
    } else {
        let l = split_lines(s.drop_last());
        if s.last() == '\n' {
            l.push(Seq::<char>::empty())
        } else {
            l.update(l.len() - 1, l.last().push(s.last()))
        }
    }
}

/// The non-empty lines among `ls`, in order.
pub open spec fn nonempty_lines(ls: Seq<Seq<char>>) -> Seq<Seq<char>>
    decreases ls.len(),
{
    if ls.len() == 0 {
        seq![]
    } else {
        let r = nonempty_lines(ls.drop_last());
        if ls.last().len() > 0 {
            r.push(ls.last())
        } else {
            r
        }
    }
}

/// The non-empty lines of a documentation text.
pub open spec fn doc_lines_of(s: Seq<char>) -> Seq<Seq<char>> {
    nonempty_lines(split_lines(s))
}

/// The characters of a sequence of strings.
pub open spec fn strings_view(v: Seq<String>) -> Seq<Seq<char>> {
    v.map_values(|x: String| x@)
}

/// Splitting never gives no line.
pub proof fn lemma_split_lines_nonempty(s: Seq<char>)
    ensures
        split_lines(s).len() >= 1,
    decreases s.len(),
{
    if s.len() > 0 {
        lemma_split_lines_nonempty(s.drop_last());
    }
}

/// The non-empty lines of a documentation text, in order.
pub fn doc_lines(doc: &str) -> (r: Vec<String>)
    ensures
        strings_view(r@) == doc_lines_of(doc@),
{
    let n = doc.unicode_len();
    let ghost s = doc@;
    let mut acc: Vec<String> = Vec::new();
    let mut start: usize = 0;
    let mut i: usize = 0;
    assert(s.take(0) =~= Seq::<char>::empty());
    assert(split_lines(s.take(0)).drop_last() =~= Seq::<Seq<char>>::empty());
    assert(s.subrange(0, 0) =~= Seq::<char>::empty());
    while i < n
        invariant
            n == s.len(),
            s == doc@,
            start <= i <= n,
            split_lines(s.take(i as int)).len() >= 1,
            split_lines(s.take(i as int)).last() == s.subrange(start as int, i as int),
            strings_view(acc@) == nonempty_lines(split_lines(s.take(i as int)).drop_last()),
        decreases n - i,
    {
        let c = doc.get_char(i);
        let ghost l = split_lines(s.take(i as int));
        assert(s.take(i + 1).drop_last() =~= s.take(i as int));
        assert(s.take(i + 1).last() == c);
        if c == '\n' {
            let ghost nl = l.push(Seq::<char>::empty());
            assert(split_lines(s.take(i + 1)) == nl);
            assert(nl.drop_last() =~= l);
            if start < i {
                let line = doc.substring_char(start, i).to_owned();
                acc.push(line);
                assert(strings_view(acc@) =~= nonempty_lines(l));
            } else {
                assert(strings_view(acc@) =~= nonempty_lines(l));
            }
            start = i + 1;
            assert(s.subrange(start as int, i + 1) =~= Seq::<char>::empty());
        } else {
            let ghost nl = l.update(l.len() - 1, l.last().push(c));
            assert(split_lines(s.take(i + 1)) == nl);
            assert(nl.drop_last() =~= l.drop_last());
            assert(s.subrange(start as int, i + 1) =~= s.subrange(start as int, i as int).push(c));
        }
        i = i + 1;
    }
    assert(s.take(n as int) =~= s);
    let ghost l = split_lines(s);
    if start < n {
        let line = doc.substring_char(start, n).to_owned();
        acc.push(line);
        assert(strings_view(acc@) =~= nonempty_lines(l));
    } else {
        assert(strings_view(acc@) =~= nonempty_lines(l));
    }
    acc
}

/// The value of a nested attribute argument.
#[derive(Debug)]
pub enum MetaValue {
    /// The argument is a bare name.
    NoValue,
    /// The argument is `name = "text"`.
    Str(String),
    /// The argument is `name = <something that is not a string literal>`.
    NotStr,
}

/// One `name = value` argument of a metric attribute such as
/// `#[counter(level = "diag")]`.
#[derive(Debug)]
pub struct AttrMeta {
    pub key: String,
    pub value: MetaValue,
}

/// The level and format that the arguments give, read in order: `level`
/// and `format` with a valid string value set the level or the format; a
/// `level` or `format` without one, or any other argument with a value, ends
/// the reading; any other bare argument is skipped.
pub open spec fn attrs_result(metas: Seq<AttrMeta>, level: Level, format: Format) -> (Level, Format)
    decreases metas.len(),
{
    if metas.len() == 0 {
        (level, format)
    } else {
        let m = metas[0];
        if m.key@ == "level"@ {
            match m.value {
                MetaValue::Str(v) => match level_of(v@) {
                    Some(l) => attrs_result(metas.drop_first(), l, format),
                    None => (level, format),
                },
                _ => (level, format),
            }
        } else if m.key@ == "format"@ {
            match m.value {
                MetaValue::Str(v) => match format_of(v@) {
                    Some(f) => attrs_result(metas.drop_first(), level, f),
                    None => (level, format),
                },
                _ => (level, format),
            }
        } else {
            match m.value {
                MetaValue::NoValue => attrs_result(metas.drop_first(), level, format),
                _ => (level, format),
            }
        }
    }
}

/// The argument sets the level to a valid value (`level = "info"`, say).
pub open spec fn sets_level(m: AttrMeta) -> bool {
    m.key@ == "level"@ && (m.value matches MetaValue::Str(v) && level_of(v@) is Some)
}

/// The argument sets the format to a valid value (`format = "bytes"`, say).
pub open spec fn sets_format(m: AttrMeta) -> bool {
    m.key@ == "format"@ && (m.value matches MetaValue::Str(v) && format_of(v@) is Some)
}

/// The level that a `level` argument names.
pub open spec fn level_named(m: AttrMeta) -> Level {
    match m.value {
        MetaValue::Str(v) => level_of(v@)->0,
        _ => Level::Info,
    }
}

/// The format that a `format` argument names.
pub open spec fn format_named(m: AttrMeta) -> Format {
    match m.value {
        MetaValue::Str(v) => format_of(v@)->0,
        _ => Format::Integer,
    }
}

/// When every argument validly sets the level or the format, every one of
/// them is read, in any order: the level is that of the last `level`
/// argument (the starting one when there is none), the format that of the
/// last `format` argument.
pub proof fn law_valid_settings_all_read(metas: Seq<AttrMeta>, level: Level, format: Format)
    requires
        forall|i: int| 0 <= i < metas.len() ==> sets_level(#[trigger] metas[i]) || sets_format(metas[i]),
    ensures
        (forall|i: int| 0 <= i < metas.len() ==> !sets_level(#[trigger] metas[i])) ==> attrs_result(
            metas,
            level,
            format,
        ).0 == level,
        forall|i: int|
            0 <= i < metas.len() && sets_level(#[trigger] metas[i]) && (forall|j: int|
                i < j < metas.len() ==> !sets_level(metas[j])) ==> attrs_result(metas, level, format).0
                == level_named(metas[i]),
        (forall|i: int| 0 <= i < metas.len() ==> !sets_format(#[trigger] metas[i])) ==> attrs_result(
            metas,
            level,
            format,
        ).1 == format,
        forall|i: int|
            0 <= i < metas.len() && sets_format(#[trigger] metas[i]) && (forall|j: int|
                i < j < metas.len() ==> !sets_format(metas[j])) ==> attrs_result(metas, level, format).1
                == format_named(metas[i]),
    decreases metas.len(),
{
    if metas.len() > 0 {
        let m = metas[0];
        let rest = metas.drop_first();
        assert forall|i: int| 0 <= i < rest.len() implies sets_level(#[trigger] rest[i]) || sets_format(
            rest[i],
        ) by {
            assert(rest[i] == metas[i + 1]);
        }
        let (l2, f2) = if sets_level(m) {
            (level_named(m), format)
        } else {
            (level, format_named(m))
        };
        reveal_strlit("level");
        reveal_strlit("format");
        assert("format"@.len() != "level"@.len());
        if sets_level(m) {
            if let MetaValue::Str(v) = m.value {
                assert(level_of(v@) == Some(level_named(m)));
            }
        } else {
            assert(m.key@ != "level"@);
            if let MetaValue::Str(v) = m.value {
                assert(format_of(v@) == Some(format_named(m)));
            }
        }
        assert(attrs_result(metas, level, format) == attrs_result(rest, l2, f2));
        law_valid_settings_all_read(rest, l2, f2);
        let r = attrs_result(metas, level, format);
        assert forall|i: int|
            0 <= i < metas.len() && sets_level(#[trigger] metas[i]) && (forall|j: int|
                i < j < metas.len() ==> !sets_level(metas[j])) implies r.0 == level_named(metas[i]) by {
            if i == 0 {
                assert forall|k: int| 0 <= k < rest.len() implies !sets_level(#[trigger] rest[k]) by {
                    assert(rest[k] == metas[k + 1]);
                }
            } else {
                assert(rest[i - 1] == metas[i]);
                assert forall|j: int| i - 1 < j < rest.len() implies !sets_level(rest[j]) by {
                    assert(rest[j] == metas[j + 1]);
                }
            }
        }
        assert forall|i: int|
            0 <= i < metas.len() && sets_format(#[trigger] metas[i]) && (forall|j: int|
                i < j < metas.len() ==> !sets_format(metas[j])) implies r.1 == format_named(metas[i]) by {
            if i == 0 {
                assert forall|k: int| 0 <= k < rest.len() implies !sets_format(#[trigger] rest[k]) by {
                    assert(rest[k] == metas[k + 1]);
                }
            } else {
                assert(rest[i - 1] == metas[i]);
                assert forall|j: int| i - 1 < j < rest.len() implies !sets_format(rest[j]) by {
                    assert(rest[j] == metas[j + 1]);
                }
            }
        }
        if forall|i: int| 0 <= i < metas.len() ==> !sets_level(#[trigger] metas[i]) {
            assert(!sets_level(metas[0]));
            assert forall|k: int| 0 <= k < rest.len() implies !sets_level(#[trigger] rest[k]) by {
                assert(rest[k] == metas[k + 1]);
            }
        }
        if forall|i: int| 0 <= i < metas.len() ==> !sets_format(#[trigger] metas[i]) {
            assert(!sets_format(metas[0]));
            assert forall|k: int| 0 <= k < rest.len() implies !sets_format(#[trigger] rest[k]) by {
                assert(rest[k] == metas[k + 1]);
            }
        }
    }
}


/// The level and format of a metric from the arguments of its attribute,
/// `info` and `integer` unless they say otherwise.
pub fn parse_metric_attributes(metas: &Vec<AttrMeta>) -> (r: (Level, Format))
    ensures
        r == attrs_result(metas@, Level::Info, Format::Integer),
{
    let mut level = Level::default_level();
    let mut format = Format::default_format();
    let mut i: usize = 0;
    assert(metas@.skip(0) =~= metas@);
    while i < metas.len()
        invariant
            i <= metas@.len(),
            attrs_result(metas@, Level::Info, Format::Integer) == attrs_result(
                metas@.skip(i as int),
                level,
                format,
            ),
        decreases metas@.len() - i,
    {
        let m = &metas[i];
        assert(metas@.skip(i as int)[0] == metas@[i as int]);
        assert(metas@.skip(i as int).drop_first() =~= metas@.skip(i + 1));
        if str_eq(m.key.as_str(), "level") {
            match &m.value {
                MetaValue::Str(v) => match Level::from_str(v.as_str()) {
                    Ok(l) => {
                        level = l;
                    },
                    Err(_) => {
                        return (level, format);
                    },
                },
                _ => {
                    return (level, format);
                },
            }
        } else if str_eq(m.key.as_str(), "format") {
            match &m.value {
                MetaValue::Str(v) => match Format::from_str(v.as_str()) {
                    Ok(f) => {
                        format = f;
                    },
                    Err(_) => {
                        return (level, format);
                    },
                },
                _ => {
                    return (level, format);
                },
            }
        } else {
            match &m.value {
                MetaValue::NoValue => {},
                _ => {
                    return (level, format);
                },
            }
        }
        i = i + 1;
    }
    (level, format)
}

/// A field of a metrics struct, as the derive sees it: its name, which of
/// `#[counter]`, `#[gauge]` and `#[bitmap]` it carries, its documentation, and
/// the arguments of its metric attribute.
#[derive(Debug)]
pub struct MetricField {
    pub name: String,
    pub counter: bool,
    pub gauge: bool,
    pub bitmap: bool,
    pub doc: String,
    pub metas: Vec<AttrMeta>,
}

/// The kind that exactly one metric attribute gives; `None` for no attribute
/// or several.
pub open spec fn metric_type_of(counter: bool, gauge: bool, bitmap: bool) -> Option<MetricType> {
    if counter && !gauge && !bitmap {
        Some(MetricType::Counter)
    } else if !counter && gauge && !bitmap {
        Some(MetricType::Gauge)
    } else if !counter && !gauge && bitmap {
        Some(MetricType::Bitmap)
    } else {
        None
    }
}

/// The kind that exactly one metric attribute gives; `None` for no attribute
/// or several.
pub fn metric_type(counter: bool, gauge: bool, bitmap: bool) -> (r: Option<MetricType>)
    ensures
        r == metric_type_of(counter, gauge, bitmap),
{
    if counter && !gauge && !bitmap {
        Some(MetricType::Counter)
    } else if !counter && gauge && !bitmap {
        Some(MetricType::Gauge)
    } else if !counter && !gauge && bitmap {
        Some(MetricType::Bitmap)
    } else {
        None
    }
}

/// The `k`-th line, or the empty text when there are fewer lines.
pub open spec fn line_or_empty(ls: Seq<Seq<char>>, k: int) -> Seq<char> {
    if 0 <= k < ls.len() {
        ls[k]
    } else {
        Seq::<char>::empty()
    }
}

/// One metric of the metadata.
#[derive(Debug)]
pub struct VscMetricDef {
    pub name: String,
    pub metric_type: MetricType,
    pub ctype: CType,
    pub level: Level,
    pub oneliner: String,
    pub format: Format,
    pub docs: String,
    pub index: Option<usize>,
}

/// `d` describes field `f` at position `i` of the struct.
pub open spec fn describes(d: VscMetricDef, f: MetricField, i: int) -> bool {
    &&& d.name@ == f.name@
    &&& metric_type_of(f.counter, f.gauge, f.bitmap) == Some(d.metric_type)
    &&& d.ctype == CType::Uint64
    &&& (d.level, d.format) == attrs_result(f.metas@, Level::Info, Format::Integer)
    &&& d.oneliner@ == line_or_empty(doc_lines_of(f.doc@), 0)
    &&& d.docs@ == line_or_empty(doc_lines_of(f.doc@), 1)
    &&& d.index == Some((8 * i) as usize)
}

/// The first line of the documentation (the one-liner) and the second one.
fn doc_summary(doc: &str) -> (r: (String, String))
    ensures
        r.0@ == line_or_empty(doc_lines_of(doc@), 0),
        r.1@ == line_or_empty(doc_lines_of(doc@), 1),
{
    let lines = doc_lines(doc);
    let oneliner = if lines.len() > 0 {
        lines[0].clone()
    } else {
        String::new()
    };
    let docs = if lines.len() > 1 {
        lines[1].clone()
    } else {
        String::new()
    };
    (oneliner, docs)
}

/// One metric per field, in field order, each a `uint64_t` placed right
/// after the previous one.
pub fn generate_metrics(fields: &Vec<MetricField>) -> (r: Vec<VscMetricDef>)
    requires
        forall|i: int|
            0 <= i < fields@.len() ==> #[trigger] metric_type_of(
                fields@[i].counter,
                fields@[i].gauge,
                fields@[i].bitmap,
            ) is Some,
        8 * fields@.len() <= usize::MAX,
    ensures
        r@.len() == fields@.len(),
        forall|i: int| 0 <= i < fields@.len() ==> describes(#[trigger] r@[i], fields@[i], i),
{
    let mut r: Vec<VscMetricDef> = Vec::new();
    let mut offset: usize = 0;
    let mut i: usize = 0;
    while i < fields.len()
        invariant
            i <= fields@.len(),
            8 * fields@.len() <= usize::MAX,
            offset == 8 * i,
            r@.len() == i,
            forall|j: int|
                0 <= j < fields@.len() ==> #[trigger] metric_type_of(
                    fields@[j].counter,
                    fields@[j].gauge,
                    fields@[j].bitmap,
                ) is Some,
            forall|j: int| 0 <= j < i ==> describes(#[trigger] r@[j], fields@[j], j),
        decreases fields@.len() - i,
    {
        let f = &fields[i];
        let t = match metric_type(f.counter, f.gauge, f.bitmap) {
            Some(t) => t,
            None => {
                assert(metric_type_of(fields@[i as int].counter, fields@[i as int].gauge, fields@[i as int].bitmap) is Some);
                return r;
            },
        };
        let (oneliner, docs) = doc_summary(f.doc.as_str());
        let (level, format) = parse_metric_attributes(&f.metas);
        let ctype = CType::Uint64;
        let index = Some(offset);
        offset = offset + ctype.size();
        r.push(
            VscMetricDef {
                name: f.name.clone(),
                metric_type: t,
                ctype,
                level,
                oneliner,
                format,
                docs,
                index,
            },
        );
        i = i + 1;
    }
    r
}

/// The metadata of a metrics struct.
#[derive(Debug)]
pub struct VscMetadata {
    pub version: String,
    pub name: String,
    pub oneliner: String,
    pub order: u32,
    pub docs: String,
    pub elements: usize,
    pub elem: Vec<VscMetricDef>,
}

/// The metadata of the metrics struct `name` with the fields `fields`: its
/// version is `1`, its one-liner `<name> statistics`, its order 100, and it
/// has one element per field.
pub fn generate_metadata(name: &str, fields: &Vec<MetricField>) -> (m: VscMetadata)
    requires
        forall|i: int|
            0 <= i < fields@.len() ==> #[trigger] metric_type_of(
                fields@[i].counter,
                fields@[i].gauge,
                fields@[i].bitmap,
            ) is Some,
        8 * fields@.len() <= usize::MAX,
    ensures
        m.version@ == "1"@,
        m.name@ == name@,
        m.oneliner@ == name@ + " statistics"@,
        m.order == 100,
        m.docs@ == Seq::<char>::empty(),
        m.elements == fields@.len(),
        m.elem@.len() == fields@.len(),
        forall|i: int| 0 <= i < fields@.len() ==> describes(#[trigger] m.elem@[i], fields@[i], i),
{
    let elem = generate_metrics(fields);
    let mut oneliner = String::from_str(name);
    string_push_str(&mut oneliner, " statistics");
    VscMetadata {
        version: String::from_str("1"),
        name: String::from_str(name),
        oneliner,
        order: 100,
        docs: String::new(),
        elements: elem.len(),
        elem,
    }
}

/// The number of `#` starting at position `k`.
pub open spec fn hash_run(s: Seq<char>, k: int) -> nat
    decreases s.len() - k,
{
    if 0 <= k < s.len() && s[k] == '#' {
        1 + hash_run(s, k + 1)
    } else {
        0
    }
}

/// The number of `#` that a raw string literal over `s` needs, looking at
/// the first `n` characters: one more than the longest run of `#` right
/// after a `"`, 0 without any `"`.
pub open spec fn needed_hashes(s: Seq<char>, n: int) -> nat
    decreases n,
{
    if n <= 0 {
        0
    } else {
        let prev = needed_hashes(s, n - 1);
        let here = if s[n - 1] == '"' {
            hash_run(s, n) + 1
        } else {
            0
        };
        if here > prev {
            here
        } else {
            prev
        }
    }
}

/// `needed_hashes` exceeds every run of `#` after a `"` it looked at.
pub proof fn lemma_needed_hashes_bound(s: Seq<char>, n: int, q: int)
    requires
        0 <= q < n,
        s[q] == '"',
    ensures
        hash_run(s, q + 1) < needed_hashes(s, n),
    decreases n,
{
    if q < n - 1 {
        lemma_needed_hashes_bound(s, n - 1, q);
    }
}

/// The number of `#` that delimit a raw string literal holding `s`.
///
/// No `"` in `s` is followed by that many `#`, so the literal cannot end
/// early.
pub fn raw_string_hashes(s: &str) -> (h: usize)
    ensures
        h == needed_hashes(s@, s@.len() as int),
        forall|q: int| 0 <= q < s@.len() && s@[q] == '"' ==> hash_run(s@, q + 1) < h,
{
    let n = s.unicode_len();
    let mut best: usize = 0;
    let mut q: usize = 0;
    while q < n
        invariant
            n == s@.len(),
            q <= n,
            best == needed_hashes(s@, q as int),
            best <= n,
        decreases n - q,
    {
        if s.get_char(q) == '"' {
            let mut k: usize = q + 1;
            let mut run: usize = 0;
            while k < n && s.get_char(k) == '#'
                invariant
                    n == s@.len(),
                    q < n,
                    k == q + 1 + run,
                    k <= n,
                    hash_run(s@, q + 1) == run + hash_run(s@, k as int),
                decreases n - k,
            {
                run = run + 1;
                k = k + 1;
            }
            if run + 1 > best {
                best = run + 1;
            }
        }
        q = q + 1;
    }
    proof {
        assert forall|p: int| 0 <= p < s@.len() && s@[p] == '"' implies hash_run(s@, p + 1) < best by {
            lemma_needed_hashes_bound(s@, s@.len() as int, p);
        }
    }
    best
}

/// `h` hash signs.
pub open spec fn hash_signs(h: nat) -> Seq<char> {
    Seq::new(h, |i: int| '#')
}

/// The raw C string literal `cr#..#"s"#..#` with `h` hash signs.
pub open spec fn raw_c_literal(s: Seq<char>, h: nat) -> Seq<char> {
    seq!['c', 'r'] + hash_signs(h) + seq!['"'] + s + seq!['"'] + hash_signs(h)
}

/// Appends `h` hash signs.
fn push_hashes(out: &mut String, h: usize)
    ensures
        final(out)@ == old(out)@ + hash_signs(h as nat),
{
    let mut i: usize = 0;
    while i < h
        invariant
            i <= h,
            out@ == old(out)@ + hash_signs(i as nat),
        decreases h - i,
    {
        string_push(out, '#');
        assert(hash_signs((i + 1) as nat) =~= hash_signs(i as nat).push('#'));
        i = i + 1;
    }
}

/// The raw C string literal that holds `metadata` verbatim.
pub fn raw_c_string_literal(metadata: &str) -> (r: String)
    ensures
        r@ == raw_c_literal(metadata@, needed_hashes(metadata@, metadata@.len() as int)),
{
    let h = raw_string_hashes(metadata);
    let mut out = String::new();
    string_push(&mut out, 'c');
    string_push(&mut out, 'r');
    push_hashes(&mut out, h);
    string_push(&mut out, '"');
    string_push_str(&mut out, metadata);
    string_push(&mut out, '"');
    push_hashes(&mut out, h);
    assert(out@ =~= raw_c_literal(metadata@, h as nat));
    out
}

/// The type of a field: a path whose last segment is given (if it has one),
/// or another kind of type.
#[derive(Debug)]
pub enum FieldTy {
    Path(Option<String>),
    Other,
}

/// A named field and its type.
#[derive(Debug)]
pub struct FieldDecl {
    pub name: String,
    pub ty: FieldTy,
}

/// Why a field cannot be a metric.
#[derive(Debug, PartialEq, Eq)]
pub enum FieldError {
    /// The field with this name has a path type other than `AtomicU64`.
    NotAtomicU64(String),
    /// The field's type is not a path.
    NotAPath,
}

impl FieldError {
    /// The message that reports the error.
    pub fn message(&self) -> (m: String)
        ensures
            match self {
                FieldError::NotAtomicU64(n) => m@ == "Field "@ + n@ + " must be of type AtomicU64"@,
                FieldError::NotAPath => m@ == "Field types must be of type AtomicU64"@,
            },
    {
        match self {
            FieldError::NotAtomicU64(n) => {
                let mut m = String::from_str("Field ");
                string_push_str(&mut m, n.as_str());
                string_push_str(&mut m, " must be of type AtomicU64");
                m
            },
            FieldError::NotAPath => String::from_str("Field types must be of type AtomicU64"),
        }
    }
}

/// The errors of the fields, in field order: one per field whose type is
/// not `AtomicU64`.
pub open spec fn field_errors(fields: Seq<FieldDecl>) -> Seq<FieldError>
    decreases fields.len(),
{
    if fields.len() == 0 {
        seq![]
    } else {
        let r = field_errors(fields.drop_last());
        let f = fields.last();
        match f.ty {
            FieldTy::Path(Some(id)) => if id@ == "AtomicU64"@ {
                r
            } else {
                r.push(FieldError::NotAtomicU64(f.name))
            },
            FieldTy::Path(None) => r.push(FieldError::NotAtomicU64(f.name)),
            FieldTy::Other => r.push(FieldError::NotAPath),
        }
    }
}

/// Checks that every field is an `AtomicU64`, collecting one error per field
/// that is not.
pub fn validate_fields(fields: &Vec<FieldDecl>) -> (errs: Vec<FieldError>)
    ensures
        errs@ == field_errors(fields@),
{
    let mut errs: Vec<FieldError> = Vec::new();
    let mut i: usize = 0;
    assert(fields@.take(0) =~= Seq::<FieldDecl>::empty());
    while i < fields.len()
        invariant
            i <= fields@.len(),
            errs@ == field_errors(fields@.take(i as int)),
        decreases fields@.len() - i,
    {
        let f = &fields[i];
        assert(fields@.take(i + 1).drop_last() =~= fields@.take(i as int));
        assert(fields@.take(i + 1).last() == fields@[i as int]);
        match &f.ty {
            FieldTy::Path(Some(id)) => {
                if !str_eq(id.as_str(), "AtomicU64") {
                    errs.push(FieldError::NotAtomicU64(f.name.clone()));
                }
            },
            FieldTy::Path(None) => {
                errs.push(FieldError::NotAtomicU64(f.name.clone()));
            },
            FieldTy::Other => {
                errs.push(FieldError::NotAPath);
            },
        }
        i = i + 1;
    }
    assert(fields@.take(i as int) =~= fields@);
    errs
}

/// An attribute of the struct: whether its path is `repr`, and whether its
/// argument is the path `C`.
#[derive(Debug)]
pub struct ReprAttr {
    pub path_is_repr: bool,
    pub arg_is_c: bool,
}

/// Whether the struct is marked `#[repr(C)]`.
pub fn has_repr_c(attrs: &Vec<ReprAttr>) -> (r: bool)
    ensures
        r == exists|i: int| 0 <= i < attrs@.len() && #[trigger] attrs@[i].path_is_repr && attrs@[i].arg_is_c,
{
    let mut i: usize = 0;
    while i < attrs.len()
        invariant
            i <= attrs@.len(),
            forall|j: int| 0 <= j < i ==> !(#[trigger] attrs@[j].path_is_repr && attrs@[j].arg_is_c),
        decreases attrs@.len() - i,
    {
        if attrs[i].path_is_repr && attrs[i].arg_is_c {
            return true;
        }
        i = i + 1;
    }
    false
}

/// Whether one of the attributes is `#[repr(C)]`.
pub open spec fn repr_c_of(attrs: Seq<ReprAttr>) -> bool {
    exists|i: int| 0 <= i < attrs.len() && #[trigger] attrs[i].path_is_repr && attrs[i].arg_is_c
}

/// Why a struct cannot derive `VscMetric`.
#[derive(Debug, PartialEq, Eq)]
pub enum VscStructError {
    /// The struct is not `#[repr(C)]`.
    NotReprC,
    /// These fields are not `AtomicU64`, one error each, in field order.
    Fields(Vec<FieldError>),
}

/// The checks made before the metadata of a metrics struct is generated, in
/// their order: the struct must be `#[repr(C)]`, then every field an
/// `AtomicU64`.
pub fn check_vsc_struct(attrs: &Vec<ReprAttr>, fields: &Vec<FieldDecl>) -> (r: Result<
    (),
    VscStructError,
>)
    ensures
        !repr_c_of(attrs@) ==> r == Err::<(), VscStructError>(VscStructError::NotReprC),
        repr_c_of(attrs@) && field_errors(fields@).len() == 0 ==> r is Ok,
        repr_c_of(attrs@) && field_errors(fields@).len() > 0 ==> (r matches Err(
            VscStructError::Fields(e),
        ) && e@ == field_errors(fields@)),
{
    if !has_repr_c(attrs) {
        return Err(VscStructError::NotReprC);
    }
    let errs = validate_fields(fields);
    if errs.len() == 0 {
        Ok(())
    } else {
        Err(VscStructError::Fields(errs))
    }
}

} // verus!
