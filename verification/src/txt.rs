//! Header lines as Varnish stores them: `name: value` byte strings.
use vstd::prelude::*;

verus! {

/// Optional white space allowed between a header's colon and its value.
pub open spec fn is_ows(b: u8) -> bool {
    b == 32u8 || b == 9u8
}

/// `s` without its leading optional white space.
pub open spec fn trim_start_ows(s: Seq<u8>) -> Seq<u8>
    decreases s.len(),
{
    if s.len() > 0 && is_ows(s[0]) {
        trim_start_ows(s.drop_first())
    } else {
        s
    }
}

/// `i` is the position of the first colon of `s`.
pub open spec fn is_first_colon(s: Seq<u8>, i: int) -> bool {
    &&& 0 <= i < s.len()
    &&& s[i] == 58u8
    &&& forall|j: int| 0 <= j < i ==> s[j] != 58u8
}

/// Splits a header line at its first colon into the name and the value, the
/// value without leading white space; `None` for a line without a colon.
pub open spec fn parse_header_line(line: Seq<u8>) -> Option<(Seq<u8>, Seq<u8>)> {
    if exists|i: int| is_first_colon(line, i) {
        let i = choose|i: int| is_first_colon(line, i);
        Some((line.take(i), trim_start_ows(line.skip(i + 1))))
    } else {
        None
    }
}

/// ASCII lower-casing of one byte.
pub open spec fn ascii_lower(b: u8) -> u8 {
    if 65u8 <= b && b <= 90u8 {
        (b + 32) as u8
    } else {
        b
    }
}

/// Equality of byte strings up to ASCII case.
pub open spec fn eq_ignore_ascii_case(a: Seq<u8>, b: Seq<u8>) -> bool {
    &&& a.len() == b.len()
    &&& forall|i: int| 0 <= i < a.len() ==> ascii_lower(a[i]) == ascii_lower(b[i])
}

/// Two positions that are both the first colon are the same position.
pub proof fn lemma_first_colon_unique(s: Seq<u8>, i: int, j: int)
    requires
        is_first_colon(s, i),
        is_first_colon(s, j),
    ensures
        i == j,
{
}

/// A line `name: value` whose name holds no colon parses back into the name
/// and the value without its leading white space.
pub proof fn lemma_parse_built_line(name: Seq<u8>, rest: Seq<u8>)
    requires
        forall|j: int| 0 <= j < name.len() ==> name[j] != 58u8,
    ensures
        parse_header_line(name + seq![58u8] + rest) == Some(
            (name, trim_start_ows(rest)),
        ),
{
    let line = name + seq![58u8] + rest;
    let k = name.len() as int;
    assert(is_first_colon(line, k));
    let c = choose|i: int| is_first_colon(line, i);
    lemma_first_colon_unique(line, c, k);
    assert(line.take(k) =~= name);
    assert(line.skip(k + 1) =~= rest);
}

/// Byte-wise ASCII lower-casing.
pub fn to_ascii_lower(b: u8) -> (r: u8)
    ensures
        r == ascii_lower(b),
{
    if 65u8 <= b && b <= 90u8 {
        b + 32
    } else {
        b
    }
}

/// Compares two byte strings, ignoring ASCII case.
pub fn bytes_eq_ignore_ascii_case(a: &[u8], b: &[u8]) -> (r: bool)
    ensures
        r == eq_ignore_ascii_case(a@, b@),
{
    if a.len() != b.len() {
        return false;
    }
    let mut i: usize = 0;
    while i < a.len()
        invariant
            a@.len() == b@.len(),
            i <= a@.len(),
            forall|j: int| 0 <= j < i ==> ascii_lower(a@[j]) == ascii_lower(b@[j]),
        decreases a@.len() - i,
    {
        if to_ascii_lower(a[i]) != to_ascii_lower(b[i]) {
            return false;
        }
        i = i + 1;
    }
    true
}

/// Copies `s[from..to]` into a new vector.
pub fn copy_range(s: &[u8], from: usize, to: usize) -> (r: Vec<u8>)
    requires
        from <= to <= s@.len(),
    ensures
        r@ == s@.subrange(from as int, to as int),
{
    let mut r: Vec<u8> = Vec::new();
    let mut i: usize = from;
    while i < to
        invariant
            from <= i <= to <= s@.len(),
            r@ == s@.subrange(from as int, i as int),
        decreases to - i,
    {
        r.push(s[i]);
        assert(s@.subrange(from as int, i + 1) =~= s@.subrange(from as int, i as int).push(
            s@[i as int],
        ));
        i = i + 1;
    }
    r
}

/// Copies a whole slice into a new vector.
pub fn copy_bytes(s: &[u8]) -> (r: Vec<u8>)
    ensures
        r@ == s@,
{
    let r = copy_range(s, 0, s.len());
    assert(s@.subrange(0, s@.len() as int) =~= s@);
    r
}

/// Splits a header line into its name and its value, as
/// [`parse_header_line`] states.
pub fn parse_header(line: &[u8]) -> (r: Option<(Vec<u8>, Vec<u8>)>)
    ensures
        match parse_header_line(line@) {
            Some((n, v)) => r matches Some((rn, rv)) && rn@ == n && rv@ == v,
            None => r is None,
        },
{
    let mut i: usize = 0;
    while i < line.len() && line[i] != 58u8
        invariant
            i <= line@.len(),
            forall|j: int| 0 <= j < i ==> line@[j] != 58u8,
        decreases line@.len() - i,
    {
        i = i + 1;
    }
    if i == line.len() {
        assert(!exists|k: int| is_first_colon(line@, k));
        return None;
    }
    assert(is_first_colon(line@, i as int));
    proof {
        let c = choose|k: int| is_first_colon(line@, k);
        lemma_first_colon_unique(line@, c, i as int);
    }
    let name = copy_range(line, 0, i);
    let mut k: usize = i + 1;
    while k < line.len() && (line[k] == 32u8 || line[k] == 9u8)
        invariant
            i + 1 <= k <= line@.len(),
            trim_start_ows(line@.skip(i + 1)) == trim_start_ows(line@.skip(k as int)),
        decreases line@.len() - k,
    {
        assert(line@.skip(k as int).drop_first() =~= line@.skip(k + 1));
        k = k + 1;
    }
    let value = copy_range(line, k, line.len());
    assert(line@.subrange(k as int, line@.len() as int) =~= line@.skip(k as int));
    Some((name, value))
}

} // verus!
