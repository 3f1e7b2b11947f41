//! Headers and top line of an HTTP object.
//!
//! An HTTP object is a table of slots. The first five slots hold the request
//! line (method, URL, protocol) or the response line (protocol, status,
//! reason); every slot from [`HDR_FIRST`] on holds one `name: value` header
//! line. New lines are written into the object's [`Workspace`].
use vstd::prelude::*;

use crate::error::VclError;
use crate::txt::{
    copy_bytes, copy_range, eq_ignore_ascii_case, is_first_colon, parse_header, parse_header_line,
    trim_start_ows, bytes_eq_ignore_ascii_case, lemma_parse_built_line, ascii_lower,
};
use crate::workspace::Workspace;
use vstd::string::StringSliceAdditionalSpecFns;

verus! {

/// Slot of the request method.
pub const HDR_METHOD: u16 = 0;
/// Slot of the request URL.
pub const HDR_URL: u16 = 1;
/// Slot of the protocol, in requests and responses.
pub const HDR_PROTO: u16 = 2;
/// Slot of the response status.
pub const HDR_STATUS: u16 = 3;
/// Slot of the response reason.
pub const HDR_REASON: u16 = 4;
/// First slot that holds a header line.
pub const HDR_FIRST: u16 = 5;

/// The bytes of an optional slot.
pub open spec fn slot_view(o: Option<Vec<u8>>) -> Option<Seq<u8>> {
    match o {
        Some(v) => Some(v@),
        None => None,
    }
}

/// The bytes of a sequence of optional slots.
pub open spec fn slots_of(v: Seq<Option<Vec<u8>>>) -> Seq<Option<Seq<u8>>> {
    v.map_values(|o: Option<Vec<u8>>| slot_view(o))
}

/// The name and value held by a slot, if it holds a header line.
pub open spec fn parse_slot(slot: Option<Seq<u8>>) -> Option<(Seq<u8>, Seq<u8>)> {
    match slot {
        Some(l) => parse_header_line(l),
        None => None,
    }
}

/// The slot holds a header whose name is `name`, up to ASCII case.
pub open spec fn slot_named(slot: Option<Seq<u8>>, name: Seq<u8>) -> bool {
    match parse_slot(slot) {
        Some(p) => eq_ignore_ascii_case(p.0, name),
        None => false,
    }
}

/// The `(name, value)` pairs of the slots from `i` on, in slot order, skipping
/// slots that hold no header line.
pub open spec fn entries_from(slots: Seq<Option<Seq<u8>>>, i: int) -> Seq<(Seq<u8>, Seq<u8>)>
    decreases slots.len() - i,
{
    if i < 0 || i >= slots.len() {
        seq![]
    } else {
        match parse_slot(slots[i]) {
            Some(p) => seq![p] + entries_from(slots, i + 1),
            None => entries_from(slots, i + 1),
        }
    }
}

/// Value of the first pair named `name`, up to ASCII case.
pub open spec fn lookup(entries: Seq<(Seq<u8>, Seq<u8>)>, name: Seq<u8>) -> Option<Seq<u8>>
    decreases entries.len(),
{
    if entries.len() == 0 {
        None
    } else if eq_ignore_ascii_case(entries[0].0, name) {
        Some(entries[0].1)
    } else {
        lookup(entries.drop_first(), name)
    }
}

/// The slots of `s` that do not hold a header named `name`, in order.
pub open spec fn retain_unnamed(s: Seq<Option<Seq<u8>>>, name: Seq<u8>) -> Seq<Option<Seq<u8>>>
    decreases s.len(),
{
    if s.len() == 0 {
        s
    } else {
        let r = retain_unnamed(s.drop_last(), name);
        if slot_named(s.last(), name) {
            r
        } else {
            r.push(s.last())
        }
    }
}

/// The flags of the slots of `s` that do not hold a header named `name`,
/// `f` giving the flag of each slot of `s`.
pub open spec fn retain_flags(s: Seq<Option<Seq<u8>>>, f: Seq<u8>, name: Seq<u8>) -> Seq<u8>
    decreases s.len(),
{
    if s.len() == 0 {
        seq![]
    } else {
        let r = retain_flags(s.drop_last(), f.drop_last(), name);
        if slot_named(s.last(), name) {
            r
        } else {
            r.push(f.last())
        }
    }
}

/// The fragments of `parts` one after the other.
pub open spec fn concat_parts(parts: Seq<Seq<u8>>) -> Seq<u8>
    decreases parts.len(),
{
    if parts.len() == 0 {
        seq![]
    } else {
        concat_parts(parts.drop_last()) + parts.last()
    }
}

/// The header line `name: <parts...>`.
pub open spec fn header_line(name: Seq<u8>, parts: Seq<Seq<u8>>) -> Seq<u8> {
    name + seq![58u8, 32u8] + concat_parts(parts)
}

/// The views of a vector of byte vectors.
pub open spec fn parts_view(parts: Seq<Vec<u8>>) -> Seq<Seq<u8>> {
    parts.map_values(|v: Vec<u8>| v@)
}

/// `v` reads `HTTP/<major>.<minor>`, major and minor being ASCII digits given
/// by their byte values.
pub open spec fn is_proto_text(v: Seq<u8>, major: u8, minor: u8) -> bool {
    &&& v.len() == 8
    &&& v[0] == 72u8 && v[1] == 84u8 && v[2] == 84u8 && v[3] == 80u8 && v[4] == 47u8
    &&& v[5] == major && v[6] == 46u8 && v[7] == minor
}

/// The protocol version number that a protocol string stands for:
/// `HTTP/0.9` is 9, `HTTP/1.0` is 10, `HTTP/1.1` is 11, `HTTP/2.0` is 20, and
/// any other string 0.
pub open spec fn protover_of(v: Seq<u8>) -> u8 {
    if is_proto_text(v, 48u8, 57u8) {
        9
    } else if is_proto_text(v, 49u8, 48u8) {
        10
    } else if is_proto_text(v, 49u8, 49u8) {
        11
    } else if is_proto_text(v, 50u8, 48u8) {
        20
    } else {
        0
    }
}

/// The header name `ETag`.
pub open spec fn etag_name() -> Seq<u8> {
    seq![69u8, 84u8, 97u8, 103u8]
}

/// The weak validator prefix `W/`.
pub open spec fn weak_prefix() -> Seq<u8> {
    seq![87u8, 47u8]
}

/// The value starts with `W/`.
pub open spec fn is_weak_etag(v: Seq<u8>) -> bool {
    v.len() >= 2 && v[0] == 87u8 && v[1] == 47u8
}

/// A validator is weak exactly when it starts with `W/`, whatever its
/// length.
pub proof fn law_weak_etag_is_prefix(v: Seq<u8>)
    ensures
        is_weak_etag(v) <==> weak_prefix().is_prefix_of(v),
        is_weak_etag(weak_prefix() + v),
{
    if weak_prefix().is_prefix_of(v) {
        assert(v[0] == weak_prefix()[0] && v[1] == weak_prefix()[1]);
    }
    if is_weak_etag(v) {
        assert(v.subrange(0, 2) =~= weak_prefix());
    }
    assert((weak_prefix() + v)[0] == 87u8);
    assert((weak_prefix() + v)[1] == 47u8);
}

/// The value of the first-line slot `idx`, `None` past the used slots.
pub open spec fn field_of(slots: Seq<Option<Seq<u8>>>, idx: int) -> Option<Seq<u8>> {
    if 0 <= idx < slots.len() {
        slots[idx]
    } else {
        None
    }
}

/// The byte string holds no colon.
pub open spec fn no_colon(s: Seq<u8>) -> bool {
    forall|j: int| 0 <= j < s.len() ==> s[j] != 58u8
}

/// Whether the slot holds a header line.
fn slot_parses(slot: &Option<Vec<u8>>) -> (r: bool)
    ensures
        r == (parse_slot(slot_view(*slot)) is Some),
{
    match slot {
        Some(l) => {
            let p = parse_header(l.as_slice());
            match p {
                Some(_) => true,
                None => false,
            }
        },
        None => false,
    }
}

/// Whether the slot holds a header named `name`, up to ASCII case.
fn slot_has_name(slot: &Option<Vec<u8>>, name: &[u8]) -> (r: bool)
    ensures
        r == slot_named(slot_view(*slot), name@),
{
    match slot {
        Some(l) => {
            let p = parse_header(l.as_slice());
            match p {
                Some((n, _)) => bytes_eq_ignore_ascii_case(n.as_slice(), name),
                None => false,
            }
        },
        None => false,
    }
}

/// A copy of a slot.
fn clone_slot(slot: &Option<Vec<u8>>) -> (r: Option<Vec<u8>>)
    ensures
        slot_view(r) == slot_view(*slot),
{
    match slot {
        Some(l) => Some(copy_bytes(l.as_slice())),
        None => None,
    }
}


/// One more part extends the concatenation by that part.
pub proof fn lemma_concat_parts_take(parts: Seq<Seq<u8>>, i: int)
    requires
        0 <= i < parts.len(),
    ensures
        concat_parts(parts.take(i + 1)) == concat_parts(parts.take(i)) + parts[i],
{
    assert(parts.take(i + 1).drop_last() =~= parts.take(i));
}

/// Concatenating more parts never gives a shorter result.
pub proof fn lemma_concat_parts_len_mono(parts: Seq<Seq<u8>>, i: int, j: int)
    requires
        0 <= i <= j <= parts.len(),
    ensures
        concat_parts(parts.take(i)).len() <= concat_parts(parts.take(j)).len(),
    decreases j - i,
{
    if i < j {
        lemma_concat_parts_take(parts, j - 1);
        lemma_concat_parts_len_mono(parts, i, j - 1);
    }
}

/// A byte string with a colon somewhere has a first colon.
pub proof fn lemma_colon_has_first(s: Seq<u8>, k: int)
    requires
        0 <= k < s.len(),
        s[k] == 58u8,
    ensures
        exists|i: int| is_first_colon(s, i),
    decreases k,
{
    if forall|j: int| 0 <= j < k ==> s[j] != 58u8 {
        assert(is_first_colon(s, k));
    } else {
        let j = choose|j: int| 0 <= j < k && s[j] == 58u8;
        lemma_colon_has_first(s, j);
    }
}

/// Every header line built by [`header_line`] holds a header.
pub proof fn lemma_header_line_parses(name: Seq<u8>, parts: Seq<Seq<u8>>)
    ensures
        parse_header_line(header_line(name, parts)) is Some,
{
    let line = header_line(name, parts);
    assert(line[name.len() as int] == 58u8);
    lemma_colon_has_first(line, name.len() as int);
}

/// Appends the bytes of `s` to `v`.
fn append_bytes(v: &mut Vec<u8>, s: &[u8])
    ensures
        final(v)@ == old(v)@ + s@,
{
    let mut i: usize = 0;
    while i < s.len()
        invariant
            i <= s@.len(),
            v@ == old(v)@ + s@.take(i as int),
        decreases s@.len() - i,
    {
        v.push(s[i]);
        assert(s@.take(i + 1) =~= s@.take(i as int).push(s@[i as int]));
        i = i + 1;
    }
    assert(s@.take(s@.len() as int) =~= s@);
}

/// Writes `name: <parts...>` into the workspace, returning the header line.
///
/// The line and its terminating NUL take `len + 1` bytes of the workspace;
/// when they do not fit, nothing is taken.
pub fn alloc_header_line(ws: &mut Workspace, name: &[u8], parts: &Vec<Vec<u8>>) -> (r: Result<
    Vec<u8>,
    VclError,
>)
    requires
        old(ws).wf(),
    ensures
        final(ws).wf(),
        final(ws).spec_capacity() == old(ws).spec_capacity(),
        ({
            let line = header_line(name@, parts_view(parts@));
            if line.len() + 1 <= old(ws).spec_free() {
                &&& r matches Ok(l) && l@ == line
                &&& final(ws).spec_free() == old(ws).spec_free() - (line.len() + 1)
            } else {
                &&& r == Err::<Vec<u8>, VclError>(VclError::OutOfWorkspace)
                &&& *final(ws) == *old(ws)
            }
        }),
{
    let ghost pv = parts_view(parts@);
    let ghost full = header_line(name@, pv);
    proof {
        lemma_concat_parts_len_mono(pv, 0, pv.len() as int);
        assert(pv.take(pv.len() as int) =~= pv);
    }
    let free = ws.free();
    if free == 0 {
        return Err(VclError::OutOfWorkspace);
    }
    let room = free - 1;
    if name.len() > room || room - name.len() < 2 {
        return Err(VclError::OutOfWorkspace);
    }
    let mut total: usize = name.len() + 2;
    let mut line = copy_bytes(name);
    line.push(58u8);
    line.push(32u8);
    proof {
        assert(pv.take(0) =~= Seq::<Seq<u8>>::empty());
        assert(line@ =~= name@ + seq![58u8, 32u8] + concat_parts(pv.take(0)));
    }
    let mut i: usize = 0;
    while i < parts.len()
        invariant
            i <= parts@.len(),
            pv == parts_view(parts@),
            pv.len() == parts@.len(),
            full == header_line(name@, pv),
            total == line@.len(),
            total <= room,
            room + 1 == free,
            free == ws.spec_free(),
            ws.wf(),
            line@ == name@ + seq![58u8, 32u8] + concat_parts(pv.take(i as int)),
        decreases parts@.len() - i,
    {
        let part = &parts[i];
        proof {
            lemma_concat_parts_take(pv, i as int);
            assert(pv[i as int] == part@);
        }
        if part.len() > room - total {
            proof {
                lemma_concat_parts_len_mono(pv, i + 1, pv.len() as int);
                assert(pv.take(pv.len() as int) =~= pv);
            }
            return Err(VclError::OutOfWorkspace);
        }
        total = total + part.len();
        append_bytes(&mut line, part.as_slice());
        i = i + 1;
        proof {
            assert(line@ =~= name@ + seq![58u8, 32u8] + concat_parts(pv.take(i as int)));
        }
    }
    proof {
        assert(pv.take(pv.len() as int) =~= pv);
    }
    let ok = ws.reserve(total + 1);
    Ok(line)
}

/// Same as [`alloc_header_line`] for a single value, reporting a workspace
/// too small for the value itself as [`VclError::NoSpaceForHeaderValue`].
pub fn alloc_header_line_fmt(ws: &mut Workspace, name: &[u8], value: &[u8]) -> (r: Result<
    Vec<u8>,
    VclError,
>)
    requires
        old(ws).wf(),
    ensures
        final(ws).wf(),
        final(ws).spec_capacity() == old(ws).spec_capacity(),
        ({
            let line = header_line(name@, seq![value@]);
            if name@.len() + 2 + 1 > old(ws).spec_free() {
                &&& r == Err::<Vec<u8>, VclError>(VclError::OutOfWorkspace)
                &&& *final(ws) == *old(ws)
            } else if line.len() + 1 > old(ws).spec_free() {
                &&& r == Err::<Vec<u8>, VclError>(VclError::NoSpaceForHeaderValue)
                &&& *final(ws) == *old(ws)
            } else {
                &&& r matches Ok(l) && l@ == line
                &&& final(ws).spec_free() == old(ws).spec_free() - (line.len() + 1)
            }
        }),
{
    let free = ws.free();
    if free == 0 {
        return Err(VclError::OutOfWorkspace);
    }
    let room = free - 1;
    if name.len() > room || room - name.len() < 2 {
        return Err(VclError::OutOfWorkspace);
    }
    let total: usize = name.len() + 2;
    if value.len() > room - total {
        proof {
            lemma_single_part_line(name@, value@);
        }
        return Err(VclError::NoSpaceForHeaderValue);
    }
    let mut line = copy_bytes(name);
    line.push(58u8);
    line.push(32u8);
    append_bytes(&mut line, value);
    proof {
        lemma_single_part_line(name@, value@);
    }
    let ok = ws.reserve(total + value.len() + 1);
    Ok(line)
}

/// A line with one part is the name, `: ` and that part.
pub proof fn lemma_single_part_line(name: Seq<u8>, value: Seq<u8>)
    ensures
        header_line(name, seq![value]) == name + seq![58u8, 32u8] + value,
        header_line(name, seq![value]).len() == name.len() + 2 + value.len(),
{
    let parts = seq![value];
    assert(parts.drop_last() =~= Seq::<Seq<u8>>::empty());
    assert(concat_parts(parts.drop_last()) =~= Seq::<u8>::empty());
    assert(concat_parts(parts) =~= value);
}


/// The protocol version number of a protocol string.
fn protover_for(v: &[u8]) -> (r: u8)
    ensures
        r == protover_of(v@),
{
    if v.len() == 8 && v[0] == 72u8 && v[1] == 84u8 && v[2] == 84u8 && v[3] == 80u8 && v[4]
        == 47u8 && v[6] == 46u8 {
        let major = v[5];
        let minor = v[7];
        if major == 48u8 && minor == 57u8 {
            9
        } else if major == 49u8 && minor == 48u8 {
            10
        } else if major == 49u8 && minor == 49u8 {
            11
        } else if major == 50u8 && minor == 48u8 {
            20
        } else {
            0
        }
    } else {
        0
    }
}


/// Looking up a name in a list that starts with `p`.
pub proof fn lemma_lookup_cons(p: (Seq<u8>, Seq<u8>), e: Seq<(Seq<u8>, Seq<u8>)>, name: Seq<u8>)
    ensures
        lookup(seq![p] + e, name) == if eq_ignore_ascii_case(p.0, name) {
            Some(p.1)
        } else {
            lookup(e, name)
        },
{
    assert((seq![p] + e).drop_first() =~= e);
}

/// Looking up a name in a list with one more pair at the end.
pub proof fn lemma_lookup_snoc(e: Seq<(Seq<u8>, Seq<u8>)>, p: (Seq<u8>, Seq<u8>), name: Seq<u8>)
    ensures
        lookup(e + seq![p], name) == if lookup(e, name) is Some {
            lookup(e, name)
        } else if eq_ignore_ascii_case(p.0, name) {
            Some(p.1)
        } else {
            None
        },
    decreases e.len(),
{
    if e.len() == 0 {
        assert(e + seq![p] =~= seq![p]);
        lemma_lookup_cons(p, Seq::empty(), name);
    } else {
        assert((e + seq![p]).drop_first() =~= e.drop_first() + seq![p]);
        lemma_lookup_snoc(e.drop_first(), p, name);
    }
}

/// The entries of slots with one more slot at the end.
pub proof fn lemma_entries_from_push(s: Seq<Option<Seq<u8>>>, x: Option<Seq<u8>>, i: int)
    requires
        0 <= i <= s.len(),
    ensures
        entries_from(s.push(x), i) == entries_from(s, i) + match parse_slot(x) {
            Some(p) => seq![p],
            None => Seq::<(Seq<u8>, Seq<u8>)>::empty(),
        },
    decreases s.len() - i,
{
    let t = s.push(x);
    if i == s.len() {
        assert(entries_from(t, i + 1) == Seq::<(Seq<u8>, Seq<u8>)>::empty());
        assert(entries_from(s, i) == Seq::<(Seq<u8>, Seq<u8>)>::empty());
        match parse_slot(x) {
            Some(p) => {
                assert(seq![p] + Seq::<(Seq<u8>, Seq<u8>)>::empty() =~= seq![p]);
            },
            None => {},
        }
        assert(Seq::<(Seq<u8>, Seq<u8>)>::empty() + Seq::<(Seq<u8>, Seq<u8>)>::empty()
            =~= Seq::<(Seq<u8>, Seq<u8>)>::empty());
    } else {
        lemma_entries_from_push(s, x, i + 1);
        assert(t[i] == s[i]);
        match parse_slot(s[i]) {
            Some(p) => {
                let tail = match parse_slot(x) {
                    Some(q) => seq![q],
                    None => Seq::<(Seq<u8>, Seq<u8>)>::empty(),
                };
                assert(seq![p] + (entries_from(s, i + 1) + tail) =~= (seq![p] + entries_from(
                    s,
                    i + 1,
                )) + tail);
            },
            None => {},
        }
    }
}

/// A list built from slots none of which is named `name` has no pair
/// named `name`.
pub proof fn lemma_lookup_none_if_unnamed(s: Seq<Option<Seq<u8>>>, i: int, name: Seq<u8>)
    requires
        0 <= i,
        forall|j: int| i <= j < s.len() ==> !slot_named(#[trigger] s[j], name),
    ensures
        lookup(entries_from(s, i), name) is None,
    decreases s.len() - i,
{
    if i < s.len() {
        lemma_lookup_none_if_unnamed(s, i + 1, name);
        assert(!slot_named(s[i], name));
        match parse_slot(s[i]) {
            Some(p) => {
                lemma_lookup_cons(p, entries_from(s, i + 1), name);
            },
            None => {},
        }
    }
}

/// A name that the lookup finds is held by one of the slots.
pub proof fn lemma_lookup_some_named(s: Seq<Option<Seq<u8>>>, i: int, name: Seq<u8>)
    requires
        0 <= i,
        lookup(entries_from(s, i), name) is Some,
    ensures
        exists|j: int| i <= j < s.len() && slot_named(#[trigger] s[j], name),
    decreases s.len() - i,
{
    if i >= s.len() {
    } else {
        match parse_slot(s[i]) {
            Some(p) => {
                lemma_lookup_cons(p, entries_from(s, i + 1), name);
                if eq_ignore_ascii_case(p.0, name) {
                    assert(slot_named(s[i], name));
                } else {
                    lemma_lookup_some_named(s, i + 1, name);
                }
            },
            None => {
                lemma_lookup_some_named(s, i + 1, name);
            },
        }
    }
}

/// What [`retain_unnamed`] keeps: no slot named `name`, only slots of `s`,
/// and no more of them than `s` has, fewer when `s` holds one named `name`.
pub proof fn lemma_retain_unnamed(s: Seq<Option<Seq<u8>>>, name: Seq<u8>)
    ensures
        retain_unnamed(s, name).len() <= s.len(),
        (exists|j: int| 0 <= j < s.len() && slot_named(#[trigger] s[j], name)) ==> retain_unnamed(
            s,
            name,
        ).len() < s.len(),
        forall|k: int|
            0 <= k < retain_unnamed(s, name).len() ==> !slot_named(
                #[trigger] retain_unnamed(s, name)[k],
                name,
            ),
        forall|k: int|
            0 <= k < retain_unnamed(s, name).len() ==> exists|j: int|
                0 <= j < s.len() && #[trigger] retain_unnamed(s, name)[k] == s[j],
    decreases s.len(),
{
    if s.len() > 0 {
        let d = s.drop_last();
        lemma_retain_unnamed(d, name);
        let r = retain_unnamed(d, name);
        assert forall|k: int| 0 <= k < r.len() implies exists|j: int|
            0 <= j < s.len() && #[trigger] r[k] == s[j] by {
            let j = choose|j: int| 0 <= j < d.len() && r[k] == d[j];
            assert(s[j] == d[j]);
        }
        if exists|j: int| 0 <= j < s.len() && slot_named(#[trigger] s[j], name) {
            let j = choose|j: int| 0 <= j < s.len() && slot_named(#[trigger] s[j], name);
            if j < s.len() - 1 {
                assert(d[j] == s[j]);
            }
        }
        if !slot_named(s.last(), name) {
            let rr = r.push(s.last());
            assert forall|k: int| 0 <= k < rr.len() implies exists|j: int|
                0 <= j < s.len() && #[trigger] rr[k] == s[j] by {
                if k < r.len() {
                    assert(rr[k] == r[k]);
                } else {
                    assert(rr[k] == s[s.len() - 1]);
                }
            }
        }
    }
}

/// Removing every slot named `name` leaves no header named `name`.
pub proof fn law_unset_header_removes(slots: Seq<Option<Seq<u8>>>, name: Seq<u8>)
    requires
        HDR_FIRST <= slots.len(),
    ensures
        lookup(
            entries_from(
                slots.take(HDR_FIRST as int) + retain_unnamed(slots.skip(HDR_FIRST as int), name),
                HDR_FIRST as int,
            ),
            name,
        ) is None,
{
    let r = retain_unnamed(slots.skip(HDR_FIRST as int), name);
    let n = slots.take(HDR_FIRST as int) + r;
    lemma_retain_unnamed(slots.skip(HDR_FIRST as int), name);
    assert forall|j: int| HDR_FIRST <= j < n.len() implies !slot_named(#[trigger] n[j], name) by {
        assert(n[j] == r[j - HDR_FIRST]);
    }
    lemma_lookup_none_if_unnamed(n, HDR_FIRST as int, name);
}

/// A slot named `name` from `i` on makes the lookup of `name` succeed.
pub proof fn lemma_named_slot_found(s: Seq<Option<Seq<u8>>>, i: int, name: Seq<u8>)
    requires
        0 <= i,
        exists|j: int| i <= j < s.len() && slot_named(#[trigger] s[j], name),
    ensures
        lookup(entries_from(s, i), name) is Some,
    decreases s.len() - i,
{
    let j = choose|j: int| i <= j < s.len() && slot_named(#[trigger] s[j], name);
    match parse_slot(s[i]) {
        Some(p) => {
            lemma_lookup_cons(p, entries_from(s, i + 1), name);
            if !eq_ignore_ascii_case(p.0, name) {
                assert(j != i);
                lemma_named_slot_found(s, i + 1, name);
            }
        },
        None => {
            assert(j != i);
            lemma_named_slot_found(s, i + 1, name);
        },
    }
}

/// Dropping the slots named `name` from slots none of which is named
/// `name` keeps them all, and all their flags.
pub proof fn lemma_retain_none_named(s: Seq<Option<Seq<u8>>>, f: Seq<u8>, name: Seq<u8>)
    requires
        f.len() == s.len(),
        forall|j: int| 0 <= j < s.len() ==> !slot_named(#[trigger] s[j], name),
    ensures
        retain_unnamed(s, name) == s,
        retain_flags(s, f, name) == f,
    decreases s.len(),
{
    if s.len() > 0 {
        let d = s.drop_last();
        assert forall|j: int| 0 <= j < d.len() implies !slot_named(#[trigger] d[j], name) by {
            assert(d[j] == s[j]);
        }
        lemma_retain_none_named(d, f.drop_last(), name);
        assert(!slot_named(s[s.len() - 1], name));
        assert(d.push(s.last()) =~= s);
        assert(f.drop_last().push(f.last()) =~= f);
    }
}

/// Removing a header that is absent changes nothing: neither the slots nor
/// their flags.
pub proof fn law_unset_absent_header_is_noop(
    slots: Seq<Option<Seq<u8>>>,
    flags: Seq<u8>,
    name: Seq<u8>,
)
    requires
        HDR_FIRST <= slots.len(),
        flags.len() == slots.len(),
        lookup(entries_from(slots, HDR_FIRST as int), name) is None,
    ensures
        slots.take(HDR_FIRST as int) + retain_unnamed(slots.skip(HDR_FIRST as int), name) == slots,
        flags.take(HDR_FIRST as int) + retain_flags(
            slots.skip(HDR_FIRST as int),
            flags.skip(HDR_FIRST as int),
            name,
        ) == flags,
{
    let t = slots.skip(HDR_FIRST as int);
    if exists|j: int| HDR_FIRST <= j < slots.len() && slot_named(#[trigger] slots[j], name) {
        lemma_named_slot_found(slots, HDR_FIRST as int, name);
    }
    assert forall|j: int| 0 <= j < t.len() implies !slot_named(#[trigger] t[j], name) by {
        assert(t[j] == slots[j + HDR_FIRST]);
    }
    lemma_retain_none_named(t, flags.skip(HDR_FIRST as int), name);
    assert(slots.take(HDR_FIRST as int) + t =~= slots);
    assert(flags.take(HDR_FIRST as int) + flags.skip(HDR_FIRST as int) =~= flags);
}

/// A header written where none of that name was present is what a lookup of
/// that name gives back, without the value's leading white space.
pub proof fn law_set_header_then_header(
    slots: Seq<Option<Seq<u8>>>,
    name: Seq<u8>,
    value: Seq<u8>,
)
    requires
        HDR_FIRST <= slots.len(),
        no_colon(name),
        lookup(entries_from(slots, HDR_FIRST as int), name) is None,
    ensures
        lookup(
            entries_from(slots.push(Some(header_line(name, seq![value]))), HDR_FIRST as int),
            name,
        ) == Some(trim_start_ows(value)),
{
    let line = header_line(name, seq![value]);
    lemma_single_part_line(name, value);
    assert(line =~= name + seq![58u8] + (seq![32u8] + value));
    lemma_parse_built_line(name, seq![32u8] + value);
    assert((seq![32u8] + value).drop_first() =~= value);
    lemma_entries_from_push(slots, Some(line), HDR_FIRST as int);
    let p = (name, trim_start_ows(value));
    lemma_lookup_snoc(entries_from(slots, HDR_FIRST as int), p, name);
}

/// The entries of slots behind a prefix, from the first slot behind it, are
/// those of the slots alone.
pub proof fn lemma_entries_from_shift(p: Seq<Option<Seq<u8>>>, x: Seq<Option<Seq<u8>>>, i: int)
    requires
        0 <= i <= x.len(),
    ensures
        entries_from(p + x, p.len() + i) == entries_from(x, i),
    decreases x.len() - i,
{
    if i < x.len() {
        lemma_entries_from_shift(p, x, i + 1);
        assert((p + x)[p.len() + i] == x[i]);
    }
}

/// Two names equal, up to ASCII case, to a third one are equal to each
/// other.
pub proof fn lemma_eq_ignore_ascii_case_trans(a: Seq<u8>, b: Seq<u8>, c: Seq<u8>)
    requires
        eq_ignore_ascii_case(a, b),
        eq_ignore_ascii_case(a, c),
    ensures
        eq_ignore_ascii_case(b, c),
{
    assert forall|i: int| 0 <= i < b.len() implies ascii_lower(b[i]) == ascii_lower(c[i]) by {
        assert(ascii_lower(a[i]) == ascii_lower(b[i]));
        assert(ascii_lower(a[i]) == ascii_lower(c[i]));
    }
}

/// Dropping the slots named `name` does not change the lookup of a name
/// that differs from it.
pub proof fn lemma_retain_keeps_lookup(t: Seq<Option<Seq<u8>>>, name: Seq<u8>, other: Seq<u8>)
    requires
        !eq_ignore_ascii_case(other, name),
    ensures
        lookup(entries_from(retain_unnamed(t, name), 0), other) == lookup(
            entries_from(t, 0),
            other,
        ),
    decreases t.len(),
{
    if t.len() > 0 {
        let d = t.drop_last();
        let x = t.last();
        lemma_retain_keeps_lookup(d, name, other);
        let rd = retain_unnamed(d, name);
        assert(t == d.push(x));
        lemma_entries_from_push(d, x, 0);
        let opt = match parse_slot(x) {
            Some(p) => seq![p],
            None => Seq::<(Seq<u8>, Seq<u8>)>::empty(),
        };
        match parse_slot(x) {
            Some(p) => {
                lemma_lookup_snoc(entries_from(d, 0), p, other);
                if slot_named(x, name) {
                    if eq_ignore_ascii_case(p.0, other) {
                        lemma_eq_ignore_ascii_case_trans(p.0, other, name);
                    }
                } else {
                    lemma_entries_from_push(rd, x, 0);
                    lemma_lookup_snoc(entries_from(rd, 0), p, other);
                }
            },
            None => {
                assert(entries_from(d, 0) + opt =~= entries_from(d, 0));
                if !slot_named(x, name) {
                    lemma_entries_from_push(rd, x, 0);
                    assert(entries_from(rd, 0) + opt =~= entries_from(rd, 0));
                }
            },
        }
    }
}

/// Removing the headers named `name` leaves the lookup of every name that
/// differs from it, up to ASCII case, as it was.
pub proof fn law_unset_header_keeps_others(
    slots: Seq<Option<Seq<u8>>>,
    name: Seq<u8>,
    other: Seq<u8>,
)
    requires
        HDR_FIRST <= slots.len(),
        !eq_ignore_ascii_case(other, name),
    ensures
        lookup(
            entries_from(
                slots.take(HDR_FIRST as int) + retain_unnamed(slots.skip(HDR_FIRST as int), name),
                HDR_FIRST as int,
            ),
            other,
        ) == lookup(entries_from(slots, HDR_FIRST as int), other),
{
    let p = slots.take(HDR_FIRST as int);
    let t = slots.skip(HDR_FIRST as int);
    let r = retain_unnamed(t, name);
    lemma_entries_from_shift(p, r, 0);
    assert(p + t =~= slots);
    lemma_entries_from_shift(p, t, 0);
    lemma_retain_keeps_lookup(t, name, other);
}

/// After the `ETag` header has been weakened, the lookup of `ETag` gives the
/// weak validator `W/` followed by the former value.
pub proof fn law_weakened_etag(slots: Seq<Option<Seq<u8>>>, e: Seq<u8>)
    requires
        HDR_FIRST <= slots.len(),
        lookup(entries_from(slots, HDR_FIRST as int), etag_name()) == Some(e),
        !weak_prefix().is_prefix_of(e),
    ensures
        lookup(
            entries_from(
                (slots.take(HDR_FIRST as int) + retain_unnamed(
                    slots.skip(HDR_FIRST as int),
                    etag_name(),
                )).push(Some(header_line(etag_name(), seq![weak_prefix(), e]))),
                HDR_FIRST as int,
            ),
            etag_name(),
        ) == Some(weak_prefix() + e),
        is_weak_etag(weak_prefix() + e),
{
    law_weak_etag_is_prefix(e);
    let n = slots.take(HDR_FIRST as int) + retain_unnamed(slots.skip(HDR_FIRST as int), etag_name());
    law_unset_header_removes(slots, etag_name());
    let parts = seq![weak_prefix(), e];
    assert(parts.drop_last() =~= seq![weak_prefix()]);
    assert(seq![weak_prefix()].drop_last() =~= Seq::<Seq<u8>>::empty());
    assert(concat_parts(Seq::<Seq<u8>>::empty()) =~= Seq::<u8>::empty());
    assert(concat_parts(seq![weak_prefix()]) == concat_parts(Seq::<Seq<u8>>::empty()) + weak_prefix());
    assert(Seq::<u8>::empty() + weak_prefix() =~= weak_prefix());
    assert(concat_parts(parts) =~= weak_prefix() + e);
    let line = header_line(etag_name(), parts);
    assert(line =~= etag_name() + seq![58u8] + (seq![32u8] + (weak_prefix() + e)));
    lemma_parse_built_line(etag_name(), seq![32u8] + (weak_prefix() + e));
    assert((seq![32u8] + (weak_prefix() + e)).drop_first() =~= weak_prefix() + e);
    assert(trim_start_ows(weak_prefix() + e) == weak_prefix() + e);
    lemma_entries_from_push(n, Some(line), HDR_FIRST as int);
    lemma_lookup_snoc(
        entries_from(n, HDR_FIRST as int),
        (etag_name(), weak_prefix() + e),
        etag_name(),
    );
}

/// HTTP headers of an object.
#[derive(Debug)]
pub struct HttpHeaders {
    hd: Vec<Option<Vec<u8>>>,
    hdf: Vec<u8>,
    shd: u16,
    protover: u8,
    ws: Workspace,
}

impl HttpHeaders {
    /// The used slots, in order.
    pub closed spec fn slots(&self) -> Seq<Option<Seq<u8>>> {
        slots_of(self.hd@)
    }

    /// The flags of the used slots, one per slot.
    pub closed spec fn flags(&self) -> Seq<u8> {
        self.hdf@
    }

    /// The number of slots the object has room for.
    pub closed spec fn spec_capacity(&self) -> nat {
        self.shd as nat
    }

    /// The protocol version number.
    pub closed spec fn spec_protover(&self) -> u8 {
        self.protover
    }

    /// The workspace the object writes into.
    pub closed spec fn spec_ws(&self) -> Workspace {
        self.ws
    }

    /// The header pairs, in slot order.
    pub open spec fn headers(&self) -> Seq<(Seq<u8>, Seq<u8>)> {
        entries_from(self.slots(), HDR_FIRST as int)
    }

    /// The value of first-line slot `idx`.
    pub open spec fn spec_field(&self, idx: int) -> Option<Seq<u8>> {
        field_of(self.slots(), idx)
    }

    /// The first line is in place, the used slots fit the room, and every slot
    /// from [`HDR_FIRST`] on holds a header line.
    pub closed spec fn wf(&self) -> bool {
        &&& HDR_FIRST <= self.hd@.len() <= self.shd
        &&& self.hdf@.len() == self.hd@.len()
        &&& self.ws.wf()
        &&& forall|i: int|
            HDR_FIRST <= i < self.hd@.len() ==> #[trigger] parse_slot(slot_view(self.hd@[i])) is Some
    }

    /// What a well-formed object guarantees: the first line is in place, the
    /// used slots fit the room, there is one flag per slot, every slot from
    /// [`HDR_FIRST`] on holds a header line, and the workspace is well formed.
    pub proof fn lemma_wf_bounds(&self)
        requires
            self.wf(),
        ensures
            HDR_FIRST <= self.slots().len() <= self.spec_capacity(),
            self.flags().len() == self.slots().len(),
            forall|i: int|
                HDR_FIRST <= i < self.slots().len() ==> #[trigger] parse_slot(self.slots()[i]) is Some,
            self.spec_ws().wf(),
    {
        assert forall|i: int| HDR_FIRST <= i < self.slots().len() implies #[trigger] parse_slot(
            self.slots()[i],
        ) is Some by {
            assert(self.slots()[i] == slot_view(self.hd@[i]));
        }
    }

    /// Removing a header that a well-formed object does not hold leaves its
    /// slots and flags as they are.
    pub proof fn law_unset_absent_header_keeps(&self, name: Seq<u8>)
        requires
            self.wf(),
            lookup(self.headers(), name) is None,
        ensures
            self.slots().take(HDR_FIRST as int) + retain_unnamed(
                self.slots().skip(HDR_FIRST as int),
                name,
            ) == self.slots(),
            self.flags().take(HDR_FIRST as int) + retain_flags(
                self.slots().skip(HDR_FIRST as int),
                self.flags().skip(HDR_FIRST as int),
                name,
            ) == self.flags(),
    {
        self.lemma_wf_bounds();
        law_unset_absent_header_is_noop(self.slots(), self.flags(), name);
    }

    proof fn lemma_slots(&self)
        ensures
            self.slots().len() == self.hd@.len(),
            forall|i: int|
                0 <= i < self.hd@.len() ==> #[trigger] self.slots()[i] == slot_view(self.hd@[i]),
    {
    }

    /// Builds the object from its raw parts: the slots, their flags, the
    /// number of slots it has room for, the protocol version and its
    /// workspace. `None` unless there is one flag per slot, the first line is
    /// in place, the slots fit the room and every slot from [`HDR_FIRST`] on
    /// holds a header line.
    pub fn from_parts(
        hd: Vec<Option<Vec<u8>>>,
        hdf: Vec<u8>,
        shd: u16,
        protover: u8,
        ws: Workspace,
    ) -> (r: Option<HttpHeaders>)
        requires
            ws.wf(),
        ensures
            r is Some <==> (hdf@.len() == hd@.len() && HDR_FIRST <= hd@.len() <= shd && forall|
                i: int,
            | HDR_FIRST <= i < hd@.len() ==> #[trigger] parse_slot(slot_view(hd@[i])) is Some),
            r matches Some(h) ==> {
                &&& h.wf()
                &&& h.slots() == slots_of(hd@)
                &&& h.flags() == hdf@
                &&& h.spec_capacity() == shd
                &&& h.spec_protover() == protover
                &&& h.spec_ws() == ws
            },
    {
        if hdf.len() != hd.len() || hd.len() < HDR_FIRST as usize || hd.len() > shd as usize {
            return None;
        }
        let mut i: usize = HDR_FIRST as usize;
        while i < hd.len()
            invariant
                HDR_FIRST <= i <= hd@.len(),
                forall|j: int| HDR_FIRST <= j < i ==> #[trigger] parse_slot(slot_view(hd@[j])) is Some,
            decreases hd@.len() - i,
        {
            if !slot_parses(&hd[i]) {
                return None;
            }
            i = i + 1;
        }
        Some(HttpHeaders { hd, hdf, shd, protover, ws })
    }

    /// The workspace this HTTP object allocates from.
    pub fn ws(&self) -> (r: &Workspace)
        ensures
            *r == self.spec_ws(),
    {
        &self.ws
    }

    /// The protocol version number.
    pub fn protover(&self) -> (r: u8)
        ensures
            r == self.spec_protover(),
    {
        self.protover
    }

    /// The flags of the used slots, one per slot.
    pub fn header_flags(&self) -> (r: Vec<u8>)
        ensures
            r@ == self.flags(),
    {
        self.hdf.clone()
    }

    /// The number of used slots.
    pub fn num_slots(&self) -> (r: usize)
        ensures
            r == self.slots().len(),
    {
        self.hd.len()
    }

    /// Returns the slot at position `idx`, `None` past the used slots or for
    /// an empty slot.
    fn field(&self, idx: u16) -> (r: Option<Vec<u8>>)
        ensures
            slot_view(r) == self.spec_field(idx as int),
    {
        proof {
            self.lemma_slots();
        }
        if idx as usize >= self.hd.len() {
            None
        } else {
            match &self.hd[idx as usize] {
                Some(v) => Some(copy_bytes(v.as_slice())),
                None => None,
            }
        }
    }

    /// Points the slot at `idx` to the line `hdr`.
    fn store_header(&mut self, idx: u16, hdr: Vec<u8>)
        requires
            old(self).wf(),
            (idx as int) < old(self).slots().len(),
            idx >= HDR_FIRST ==> parse_header_line(hdr@) is Some,
        ensures
            final(self).wf(),
            final(self).slots() == old(self).slots().update(idx as int, Some(hdr@)),
            final(self).flags() == old(self).flags().update(idx as int, 0u8),
            final(self).spec_capacity() == old(self).spec_capacity(),
            final(self).spec_protover() == old(self).spec_protover(),
            final(self).spec_ws() == old(self).spec_ws(),
    {
        let ghost h = hdr@;
        self.hd.set(idx as usize, Some(hdr));
        self.hdf.set(idx as usize, 0u8);
        assert(self.slots() =~= old(self).slots().update(idx as int, Some(h)));
        assert forall|i: int| HDR_FIRST <= i < self.hd@.len() implies #[trigger] parse_slot(
            slot_view(self.hd@[i]),
        ) is Some by {
            if i != idx {
                assert(self.hd@[i] == old(self).hd@[i]);
            }
        }
    }

    /// Appends an already allocated header line.
    ///
    /// Fails if all header slots are taken.
    fn push_header(&mut self, hdr: Vec<u8>) -> (r: Result<(), VclError>)
        requires
            old(self).wf(),
            parse_header_line(hdr@) is Some,
        ensures
            final(self).wf(),
            if old(self).slots().len() == old(self).spec_capacity() {
                &&& r == Err::<(), VclError>(VclError::NoHeaderSlot)
                &&& *final(self) == *old(self)
            } else {
                &&& r is Ok
                &&& final(self).slots() == old(self).slots().push(Some(hdr@))
                &&& final(self).flags() == old(self).flags().push(0u8)
                &&& final(self).spec_capacity() == old(self).spec_capacity()
                &&& final(self).spec_protover() == old(self).spec_protover()
                &&& final(self).spec_ws() == old(self).spec_ws()
            },
    {
        proof {
            self.lemma_slots();
        }
        if self.hd.len() == self.shd as usize {
            return Err(VclError::NoHeaderSlot);
        }
        let ghost h = hdr@;
        self.hd.push(Some(hdr));
        self.hdf.push(0u8);
        assert(self.slots() =~= old(self).slots().push(Some(h)));
        assert forall|i: int| HDR_FIRST <= i < self.hd@.len() implies #[trigger] parse_slot(
            slot_view(self.hd@[i]),
        ) is Some by {
            if i < old(self).hd@.len() {
                assert(self.hd@[i] == old(self).hd@[i]);
            }
        }
        Ok(())
    }

    /// Copies `value` into the workspace and points first-line slot `idx` to it.
    fn change_header(&mut self, idx: u16, value: &[u8]) -> (r: Result<(), VclError>)
        requires
            old(self).wf(),
            idx < HDR_FIRST,
        ensures
            final(self).wf(),
            final(self).spec_capacity() == old(self).spec_capacity(),
            final(self).spec_protover() == old(self).spec_protover(),
            final(self).spec_ws().spec_capacity() == old(self).spec_ws().spec_capacity(),
            if value@.len() + 1 <= old(self).spec_ws().spec_free() {
                &&& r is Ok
                &&& final(self).slots() == old(self).slots().update(idx as int, Some(value@))
                &&& final(self).flags() == old(self).flags().update(idx as int, 0u8)
                &&& final(self).spec_ws().spec_free() == old(self).spec_ws().spec_free() - (
                value@.len() + 1)
            } else {
                &&& r == Err::<(), VclError>(VclError::OutOfWorkspace)
                &&& *final(self) == *old(self)
            },
    {
        if value.len() >= self.ws.free() {
            return Err(VclError::OutOfWorkspace);
        }
        let ok = self.ws.reserve(value.len() + 1);
        let hdr = copy_bytes(value);
        self.store_header(idx, hdr);
        Ok(())
    }

    /// Appends a `name: value` header, writing it into the workspace.
    ///
    /// Fails with [`VclError::OutOfWorkspace`] if the line does not fit in the
    /// workspace (nothing changes then), or with [`VclError::NoHeaderSlot`] if
    /// all header slots are taken (the line has been written to the workspace
    /// by then).
    pub fn set_header(&mut self, name: &str, value: &str) -> (r: Result<(), VclError>)
        requires
            old(self).wf(),
        ensures
            final(self).wf(),
            final(self).spec_capacity() == old(self).spec_capacity(),
            final(self).spec_protover() == old(self).spec_protover(),
            final(self).spec_ws().spec_capacity() == old(self).spec_ws().spec_capacity(),
            ({
                let line = header_line(name.spec_bytes(), seq![value.spec_bytes()]);
                if line.len() + 1 > old(self).spec_ws().spec_free() {
                    &&& r == Err::<(), VclError>(VclError::OutOfWorkspace)
                    &&& *final(self) == *old(self)
                } else if old(self).slots().len() == old(self).spec_capacity() {
                    &&& r == Err::<(), VclError>(VclError::NoHeaderSlot)
                    &&& final(self).slots() == old(self).slots()
                    &&& final(self).flags() == old(self).flags()
                    &&& final(self).spec_ws().spec_free() == old(self).spec_ws().spec_free() - (
                    line.len() + 1)
                } else {
                    &&& r is Ok
                    &&& final(self).slots() == old(self).slots().push(Some(line))
                    &&& final(self).flags() == old(self).flags().push(0u8)
                    &&& final(self).spec_ws().spec_free() == old(self).spec_ws().spec_free() - (
                    line.len() + 1)
                }
            }),
    {
        let parts = vec![copy_bytes(value.as_bytes())];
        assert(parts_view(parts@) =~= seq![value.spec_bytes()]);
        let hdr = match alloc_header_line(&mut self.ws, name.as_bytes(), &parts) {
            Ok(h) => h,
            Err(e) => {
                return Err(e);
            },
        };
        proof {
            lemma_header_line_parses(name.spec_bytes(), seq![value.spec_bytes()]);
        }
        self.push_header(hdr)
    }

    /// Appends a header whose value has been formatted into `value`, writing it
    /// into the workspace.
    ///
    /// Fails with [`VclError::OutOfWorkspace`] if not even the name fits in
    /// the workspace, with [`VclError::NoSpaceForHeaderValue`] if the value
    /// does not (nothing changes in either case), or with
    /// [`VclError::NoHeaderSlot`] if all header slots are taken.
    pub fn set_header_fmt(&mut self, name: &str, value: &str) -> (r: Result<(), VclError>)
        requires
            old(self).wf(),
        ensures
            final(self).wf(),
            final(self).spec_capacity() == old(self).spec_capacity(),
            final(self).spec_protover() == old(self).spec_protover(),
            final(self).spec_ws().spec_capacity() == old(self).spec_ws().spec_capacity(),
            ({
                let line = header_line(name.spec_bytes(), seq![value.spec_bytes()]);
                if name.spec_bytes().len() + 3 > old(self).spec_ws().spec_free() {
                    &&& r == Err::<(), VclError>(VclError::OutOfWorkspace)
                    &&& *final(self) == *old(self)
                } else if line.len() + 1 > old(self).spec_ws().spec_free() {
                    &&& r == Err::<(), VclError>(VclError::NoSpaceForHeaderValue)
                    &&& *final(self) == *old(self)
                } else if old(self).slots().len() == old(self).spec_capacity() {
                    &&& r == Err::<(), VclError>(VclError::NoHeaderSlot)
                    &&& final(self).slots() == old(self).slots()
                    &&& final(self).flags() == old(self).flags()
                    &&& final(self).spec_ws().spec_free() == old(self).spec_ws().spec_free() - (
                    line.len() + 1)
                } else {
                    &&& r is Ok
                    &&& final(self).slots() == old(self).slots().push(Some(line))
                    &&& final(self).flags() == old(self).flags().push(0u8)
                    &&& final(self).spec_ws().spec_free() == old(self).spec_ws().spec_free() - (
                    line.len() + 1)
                }
            }),
    {
        let hdr = match alloc_header_line_fmt(&mut self.ws, name.as_bytes(), value.as_bytes()) {
            Ok(h) => h,
            Err(e) => {
                return Err(e);
            },
        };
        proof {
            lemma_header_line_parses(name.spec_bytes(), seq![value.spec_bytes()]);
        }
        self.push_header(hdr)
    }

    /// Sets the URL of this HTTP request, copying it into the workspace.
    pub fn set_url(&mut self, value: &str) -> (r: Result<(), VclError>)
        requires
            old(self).wf(),
        ensures
            final(self).wf(),
            final(self).spec_capacity() == old(self).spec_capacity(),
            final(self).spec_protover() == old(self).spec_protover(),
            final(self).spec_ws().spec_capacity() == old(self).spec_ws().spec_capacity(),
            if value.spec_bytes().len() + 1 <= old(self).spec_ws().spec_free() {
                &&& r is Ok
                &&& final(self).slots() == old(self).slots().update(
                    HDR_URL as int,
                    Some(value.spec_bytes()),
                )
                &&& final(self).spec_field(HDR_URL as int) == Some(value.spec_bytes())
                &&& final(self).flags() == old(self).flags().update(HDR_URL as int, 0u8)
                &&& final(self).spec_ws().spec_free() == old(self).spec_ws().spec_free() - (
                value.spec_bytes().len() + 1)
            } else {
                &&& r == Err::<(), VclError>(VclError::OutOfWorkspace)
                &&& *final(self) == *old(self)
            },
    {
        self.change_header(HDR_URL, value.as_bytes())
    }

    /// Sets the reason of this HTTP response, copying it into the workspace.
    pub fn set_reason(&mut self, value: &str) -> (r: Result<(), VclError>)
        requires
            old(self).wf(),
        ensures
            final(self).wf(),
            final(self).spec_capacity() == old(self).spec_capacity(),
            final(self).spec_protover() == old(self).spec_protover(),
            final(self).spec_ws().spec_capacity() == old(self).spec_ws().spec_capacity(),
            if value.spec_bytes().len() + 1 <= old(self).spec_ws().spec_free() {
                &&& r is Ok
                &&& final(self).slots() == old(self).slots().update(
                    HDR_REASON as int,
                    Some(value.spec_bytes()),
                )
                &&& final(self).spec_field(HDR_REASON as int) == Some(value.spec_bytes())
                &&& final(self).flags() == old(self).flags().update(HDR_REASON as int, 0u8)
                &&& final(self).spec_ws().spec_free() == old(self).spec_ws().spec_free() - (
                value.spec_bytes().len() + 1)
            } else {
                &&& r == Err::<(), VclError>(VclError::OutOfWorkspace)
                &&& *final(self) == *old(self)
            },
    {
        self.change_header(HDR_REASON, value.as_bytes())
    }

    /// Sets the protocol, and the protocol version number that it stands for
    /// (0 for an unknown protocol). The version number is set even when the
    /// protocol string does not fit in the workspace.
    pub fn set_proto(&mut self, value: &str) -> (r: Result<(), VclError>)
        requires
            old(self).wf(),
        ensures
            final(self).wf(),
            final(self).spec_capacity() == old(self).spec_capacity(),
            final(self).spec_protover() == protover_of(value.spec_bytes()),
            final(self).spec_ws().spec_capacity() == old(self).spec_ws().spec_capacity(),
            if value.spec_bytes().len() + 1 <= old(self).spec_ws().spec_free() {
                &&& r is Ok
                &&& final(self).slots() == old(self).slots().update(
                    HDR_PROTO as int,
                    Some(value.spec_bytes()),
                )
                &&& final(self).spec_field(HDR_PROTO as int) == Some(value.spec_bytes())
                &&& final(self).flags() == old(self).flags().update(HDR_PROTO as int, 0u8)
                &&& final(self).spec_ws().spec_free() == old(self).spec_ws().spec_free() - (
                value.spec_bytes().len() + 1)
            } else {
                &&& r == Err::<(), VclError>(VclError::OutOfWorkspace)
                &&& final(self).slots() == old(self).slots()
                &&& final(self).flags() == old(self).flags()
                &&& final(self).spec_ws() == old(self).spec_ws()
            },
    {
        self.protover = protover_for(value.as_bytes());
        self.change_header(HDR_PROTO, value.as_bytes())
    }

    /// Returns the value of the first header named `name`, names compared
    /// without regard to ASCII case.
    pub fn header_bytes(&self, name: &[u8]) -> (r: Option<Vec<u8>>)
        ensures
            slot_view(r) == lookup(self.headers(), name@),
    {
        proof {
            self.lemma_slots();
        }
        let mut i: usize = HDR_FIRST as usize;
        while i < self.hd.len()
            invariant
                HDR_FIRST <= i,
                self.slots().len() == self.hd@.len(),
                forall|k: int|
                    0 <= k < self.hd@.len() ==> #[trigger] self.slots()[k] == slot_view(
                        self.hd@[k],
                    ),
                lookup(self.headers(), name@) == lookup(
                    entries_from(self.slots(), i as int),
                    name@,
                ),
            decreases self.hd@.len() - i,
        {
            match &self.hd[i] {
                Some(l) => {
                    let p = parse_header(l.as_slice());
                    match p {
                        Some((n, v)) => {
                            proof {
                                lemma_lookup_cons(
                                    (n@, v@),
                                    entries_from(self.slots(), i + 1),
                                    name@,
                                );
                            }
                            if bytes_eq_ignore_ascii_case(n.as_slice(), name) {
                                return Some(v);
                            }
                        },
                        None => {},
                    }
                },
                None => {},
            }
            i = i + 1;
        }
        None
    }

    /// Returns the value of the first header named `name`, names compared
    /// without regard to ASCII case.
    pub fn header(&self, name: &str) -> (r: Option<Vec<u8>>)
        ensures
            slot_view(r) == lookup(self.headers(), name.spec_bytes()),
    {
        self.header_bytes(name.as_bytes())
    }

    /// Removes all headers named `name` (without regard to ASCII case),
    /// keeping the other slots in order. No-op if the header is absent.
    pub fn unset_header_bytes(&mut self, name: &[u8])
        requires
            old(self).wf(),
        ensures
            final(self).wf(),
            final(self).slots() == old(self).slots().take(HDR_FIRST as int) + retain_unnamed(
                old(self).slots().skip(HDR_FIRST as int),
                name@,
            ),
            final(self).flags() == old(self).flags().take(HDR_FIRST as int) + retain_flags(
                old(self).slots().skip(HDR_FIRST as int),
                old(self).flags().skip(HDR_FIRST as int),
                name@,
            ),
            final(self).spec_capacity() == old(self).spec_capacity(),
            final(self).spec_protover() == old(self).spec_protover(),
            final(self).spec_ws() == old(self).spec_ws(),
    {
        proof {
            self.lemma_slots();
        }
        let ghost old_slots = self.slots();
        let ghost old_flags = self.flags();
        let ghost tail = old_slots.skip(HDR_FIRST as int);
        let ghost ftail = old_flags.skip(HDR_FIRST as int);
        let mut out: Vec<Option<Vec<u8>>> = Vec::new();
        let mut out_f: Vec<u8> = Vec::new();
        let mut i: usize = 0;
        while i < HDR_FIRST as usize
            invariant
                i <= HDR_FIRST <= self.hd@.len(),
                self.hd@.len() == old_slots.len(),
                self.hdf@ == old_flags,
                old_flags.len() == old_slots.len(),
                forall|k: int|
                    0 <= k < self.hd@.len() ==> #[trigger] old_slots[k] == slot_view(self.hd@[k]),
                slots_of(out@) == old_slots.take(i as int),
                out_f@ == old_flags.take(i as int),
            decreases HDR_FIRST - i,
        {
            let c = clone_slot(&self.hd[i]);
            let ghost before = out@;
            let ghost cv = slot_view(c);
            out.push(c);
            out_f.push(self.hdf[i]);
            assert(slots_of(out@) =~= slots_of(before).push(cv));
            assert(old_slots.take(i + 1) =~= old_slots.take(i as int).push(old_slots[i as int]));
            assert(old_flags.take(i + 1) =~= old_flags.take(i as int).push(old_flags[i as int]));
            i = i + 1;
        }
        assert(tail.take(0) =~= Seq::<Option<Seq<u8>>>::empty());
        assert(old_slots.take(HDR_FIRST as int) + retain_unnamed(tail.take(0), name@)
            =~= old_slots.take(HDR_FIRST as int));
        assert(old_flags.take(HDR_FIRST as int) + retain_flags(tail.take(0), ftail.take(0), name@)
            =~= old_flags.take(HDR_FIRST as int));
        while i < self.hd.len()
            invariant
                HDR_FIRST <= i <= self.hd@.len(),
                self.hd@.len() == old_slots.len(),
                self.hdf@ == old_flags,
                old_flags.len() == old_slots.len(),
                tail == old_slots.skip(HDR_FIRST as int),
                ftail == old_flags.skip(HDR_FIRST as int),
                forall|k: int|
                    0 <= k < self.hd@.len() ==> #[trigger] old_slots[k] == slot_view(self.hd@[k]),
                slots_of(out@) == old_slots.take(
                    HDR_FIRST as int,
                ) + retain_unnamed(tail.take(i - HDR_FIRST), name@),
                out_f@ == old_flags.take(HDR_FIRST as int) + retain_flags(
                    tail.take(i - HDR_FIRST),
                    ftail.take(i - HDR_FIRST),
                    name@,
                ),
                out_f@.len() == out@.len(),
            decreases self.hd@.len() - i,
        {
            let ghost t = tail.take(i - HDR_FIRST + 1);
            let ghost ft = ftail.take(i - HDR_FIRST + 1);
            assert(t.drop_last() =~= tail.take(i - HDR_FIRST));
            assert(ft.drop_last() =~= ftail.take(i - HDR_FIRST));
            assert(t.last() == old_slots[i as int]);
            assert(ft.last() == old_flags[i as int]);
            if !slot_has_name(&self.hd[i], name) {
                let c = clone_slot(&self.hd[i]);
                let ghost before = out@;
                let ghost before_f = out_f@;
                let ghost cv = slot_view(c);
                out.push(c);
                out_f.push(self.hdf[i]);
                assert(slots_of(out@) =~= slots_of(before).push(cv));
                assert(slots_of(out@) =~= old_slots.take(
                    HDR_FIRST as int,
                ) + retain_unnamed(t, name@));
                assert(out_f@ =~= old_flags.take(HDR_FIRST as int) + retain_flags(t, ft, name@));
            }
            i = i + 1;
        }
        assert(tail.take(i - HDR_FIRST) =~= tail);
        assert(ftail.take(i - HDR_FIRST) =~= ftail);
        proof {
            lemma_retain_unnamed(tail, name@);
            let r = retain_unnamed(tail, name@);
            let n = slots_of(out@);
            assert forall|k: int| HDR_FIRST <= k < out@.len() implies #[trigger] parse_slot(
                slot_view(out@[k]),
            ) is Some by {
                assert(n[k] == r[k - HDR_FIRST]);
                let j = choose|j: int| 0 <= j < tail.len() && r[k - HDR_FIRST] == tail[j];
                assert(tail[j] == old_slots[j + HDR_FIRST]);
                assert(parse_slot(slot_view(self.hd@[j + HDR_FIRST])) is Some);
            }
        }
        self.hd = out;
        self.hdf = out_f;
    }

    /// Removes all headers named `name` (without regard to ASCII case),
    /// keeping the other slots in order. No-op if the header is absent.
    pub fn unset_header(&mut self, name: &str)
        requires
            old(self).wf(),
        ensures
            final(self).wf(),
            final(self).slots() == old(self).slots().take(HDR_FIRST as int) + retain_unnamed(
                old(self).slots().skip(HDR_FIRST as int),
                name.spec_bytes(),
            ),
            final(self).flags() == old(self).flags().take(HDR_FIRST as int) + retain_flags(
                old(self).slots().skip(HDR_FIRST as int),
                old(self).flags().skip(HDR_FIRST as int),
                name.spec_bytes(),
            ),
            final(self).spec_capacity() == old(self).spec_capacity(),
            final(self).spec_protover() == old(self).spec_protover(),
            final(self).spec_ws() == old(self).spec_ws(),
    {
        self.unset_header_bytes(name.as_bytes())
    }

    /// Weakens the `ETag` header if present and not already weak: the first
    /// `ETag` value `v` that does not start with `W/` is replaced by one
    /// header `ETag: W/v`, all `ETag` headers being removed first.
    ///
    /// Fails with [`VclError::OutOfWorkspace`], changing nothing, when the new
    /// line does not fit in the workspace.
    pub fn weaken_etag(&mut self) -> (r: Result<(), VclError>)
        requires
            old(self).wf(),
        ensures
            final(self).wf(),
            final(self).spec_capacity() == old(self).spec_capacity(),
            final(self).spec_protover() == old(self).spec_protover(),
            final(self).spec_ws().spec_capacity() == old(self).spec_ws().spec_capacity(),
            match lookup(old(self).headers(), etag_name()) {
                None => r is Ok && *final(self) == *old(self),
                Some(e) => if weak_prefix().is_prefix_of(e) {
                    r is Ok && *final(self) == *old(self)
                } else {
                    let line = header_line(etag_name(), seq![weak_prefix(), e]);
                    if line.len() + 1 > old(self).spec_ws().spec_free() {
                        &&& r == Err::<(), VclError>(VclError::OutOfWorkspace)
                        &&& *final(self) == *old(self)
                    } else {
                        &&& r is Ok
                        &&& final(self).slots() == (old(self).slots().take(HDR_FIRST as int)
                            + retain_unnamed(old(self).slots().skip(HDR_FIRST as int), etag_name())).push(
                            Some(line),
                        )
                        &&& final(self).flags() == (old(self).flags().take(HDR_FIRST as int)
                            + retain_flags(
                            old(self).slots().skip(HDR_FIRST as int),
                            old(self).flags().skip(HDR_FIRST as int),
                            etag_name(),
                        )).push(0u8)
                        &&& final(self).spec_ws().spec_free() == old(self).spec_ws().spec_free() - (
                        line.len() + 1)
                    }
                },
            },
    {
        let name: Vec<u8> = vec![69u8, 84u8, 97u8, 103u8];
        assert(name@ =~= etag_name());
        let cur = self.header_bytes(name.as_slice());
        let value = match cur {
            None => {
                return Ok(());
            },
            Some(v) => v,
        };
        proof {
            law_weak_etag_is_prefix(value@);
        }
        if value.len() >= 2 && value[0] == 87u8 && value[1] == 47u8 {
            return Ok(());
        }
        let ghost e = value@;
        let prefix: Vec<u8> = vec![87u8, 47u8];
        assert(prefix@ =~= weak_prefix());
        let parts = vec![prefix, value];
        assert(parts_view(parts@) =~= seq![weak_prefix(), e]);
        let hdr = match alloc_header_line(&mut self.ws, name.as_slice(), &parts) {
            Ok(h) => h,
            Err(err) => {
                return Err(err);
            },
        };
        proof {
            lemma_header_line_parses(etag_name(), seq![weak_prefix(), e]);
            self.lemma_slots();
            let s0 = old(self).slots();
            lemma_lookup_some_named(s0, HDR_FIRST as int, etag_name());
            let j = choose|j: int| HDR_FIRST <= j < s0.len() && slot_named(#[trigger] s0[j], etag_name());
            assert(s0.skip(HDR_FIRST as int)[j - HDR_FIRST] == s0[j]);
            lemma_retain_unnamed(s0.skip(HDR_FIRST as int), etag_name());
        }
        self.unset_header_bytes(name.as_slice());
        proof {
            self.lemma_slots();
        }
        self.push_header(hdr)
    }

    /// Iterates over the `(name, value)` pairs of all headers, excluding the
    /// request or status line.
    pub fn iter(&self) -> (it: HttpHeadersIter<'_>)
        ensures
            it.remaining() == self.headers(),
    {
        HttpHeadersIter { http: self, cursor: HDR_FIRST as usize }
    }

    /// Method of an HTTP request, `None` for a response.
    pub fn method(&self) -> (r: Option<Vec<u8>>)
        ensures
            slot_view(r) == self.spec_field(HDR_METHOD as int),
    {
        self.field(HDR_METHOD)
    }

    /// URL of an HTTP request, `None` for a response.
    pub fn url(&self) -> (r: Option<Vec<u8>>)
        ensures
            slot_view(r) == self.spec_field(HDR_URL as int),
    {
        self.field(HDR_URL)
    }

    /// Protocol of an object.
    pub fn proto(&self) -> (r: Option<Vec<u8>>)
        ensures
            slot_view(r) == self.spec_field(HDR_PROTO as int),
    {
        self.field(HDR_PROTO)
    }

    /// Response status, `None` for a request.
    pub fn status(&self) -> (r: Option<Vec<u8>>)
        ensures
            slot_view(r) == self.spec_field(HDR_STATUS as int),
    {
        self.field(HDR_STATUS)
    }

    /// Response reason, `None` for a request.
    pub fn reason(&self) -> (r: Option<Vec<u8>>)
        ensures
            slot_view(r) == self.spec_field(HDR_REASON as int),
    {
        self.field(HDR_REASON)
    }
}

/// Iterator over HTTP header `(name, value)` pairs, returned by
/// [`HttpHeaders::iter`].
#[derive(Debug)]
pub struct HttpHeadersIter<'a> {
    http: &'a HttpHeaders,
    cursor: usize,
}

impl<'a> HttpHeadersIter<'a> {
    /// The pairs still to come.
    pub closed spec fn remaining(&self) -> Seq<(Seq<u8>, Seq<u8>)> {
        entries_from(self.http.slots(), self.cursor as int)
    }

    /// The next `(name, value)` pair, `None` once all have been given.
    pub fn next(&mut self) -> (r: Option<(Vec<u8>, Vec<u8>)>)
        ensures
            match r {
                None => old(self).remaining().len() == 0 && final(self).remaining().len() == 0,
                Some(p) => {
                    &&& old(self).remaining().len() > 0
                    &&& (p.0@, p.1@) == old(self).remaining()[0]
                    &&& final(self).remaining() == old(self).remaining().drop_first()
                },
            },
    {
        proof {
            self.http.lemma_slots();
        }
        while self.cursor < self.http.hd.len()
            invariant
                self.http == old(self).http,
                self.http.slots().len() == self.http.hd@.len(),
                forall|k: int|
                    0 <= k < self.http.hd@.len() ==> #[trigger] self.http.slots()[k] == slot_view(
                        self.http.hd@[k],
                    ),
                old(self).remaining() == self.remaining(),
            decreases self.http.hd@.len() - self.cursor,
        {
            let c = self.cursor;
            self.cursor = c + 1;
            match &self.http.hd[c] {
                Some(l) => {
                    let p = parse_header(l.as_slice());
                    match p {
                        Some((n, v)) => {
                            assert(old(self).remaining() == seq![(n@, v@)] + self.remaining());
                            assert((seq![(n@, v@)] + self.remaining()).drop_first()
                                =~= self.remaining());
                            return Some((n, v));
                        },
                        None => {},
                    }
                },
                None => {},
            }
        }
        None
    }
}

} // verus!
