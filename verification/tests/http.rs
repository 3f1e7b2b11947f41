use varnish::error::VclError;
use varnish::http::{alloc_header_line, alloc_header_line_fmt, HttpHeaders};
use varnish::workspace::Workspace;

fn request(extra: &[&str], shd: u16, ws: usize) -> HttpHeaders {
    let mut hd: Vec<Option<Vec<u8>>> = vec![
        Some(b"GET".to_vec()),
        Some(b"/index.html".to_vec()),
        Some(b"HTTP/1.1".to_vec()),
        None,
        None,
    ];
    for l in extra {
        hd.push(Some(l.as_bytes().to_vec()));
    }
    let hdf: Vec<u8> = (0..hd.len()).map(|i| 10 * i as u8 + 1).collect();
    HttpHeaders::from_parts(hd, hdf, shd, 11, Workspace::new(ws)).unwrap()
}

fn response(extra: &[&str], shd: u16, ws: usize) -> HttpHeaders {
    let mut hd: Vec<Option<Vec<u8>>> = vec![
        None,
        None,
        Some(b"HTTP/1.1".to_vec()),
        Some(b"200".to_vec()),
        Some(b"OK".to_vec()),
    ];
    for l in extra {
        hd.push(Some(l.as_bytes().to_vec()));
    }
    let hdf: Vec<u8> = (0..hd.len()).map(|i| 10 * i as u8 + 1).collect();
    HttpHeaders::from_parts(hd, hdf, shd, 11, Workspace::new(ws)).unwrap()
}

fn names(h: &HttpHeaders) -> Vec<(Vec<u8>, Vec<u8>)> {
    let mut it = h.iter();
    let mut out = Vec::new();
    while let Some(p) = it.next() {
        out.push(p);
    }
    out
}

#[test]
fn test_first_line_fields() {
    let req = request(&[], 10, 100);
    assert_eq!(req.method(), Some(b"GET".to_vec()));
    assert_eq!(req.url(), Some(b"/index.html".to_vec()));
    assert_eq!(req.proto(), Some(b"HTTP/1.1".to_vec()));
    assert_eq!(req.status(), None);
    assert_eq!(req.reason(), None);
    let resp = response(&[], 10, 100);
    assert_eq!(resp.method(), None);
    assert_eq!(resp.url(), None);
    assert_eq!(resp.status(), Some(b"200".to_vec()));
    assert_eq!(resp.reason(), Some(b"OK".to_vec()));
}

#[test]
fn test_from_parts_refusals() {
    let short = vec![None, None, None];
    assert!(HttpHeaders::from_parts(short, vec![0; 3], 10, 0, Workspace::new(10)).is_none());
    let too_many = vec![None, None, None, None, None, Some(b"A: b".to_vec())];
    assert!(HttpHeaders::from_parts(too_many, vec![0; 6], 5, 0, Workspace::new(10)).is_none());
    let no_colon = vec![None, None, None, None, None, Some(b"garbage".to_vec())];
    assert!(HttpHeaders::from_parts(no_colon, vec![0; 6], 10, 0, Workspace::new(10)).is_none());
    let empty_slot = vec![None, None, None, None, None, None];
    assert!(HttpHeaders::from_parts(empty_slot, vec![0; 6], 10, 0, Workspace::new(10)).is_none());
    let flags_short = vec![None, None, None, None, None, Some(b"A: b".to_vec())];
    assert!(HttpHeaders::from_parts(flags_short, vec![0; 5], 10, 0, Workspace::new(10)).is_none());
}

#[test]
fn test_set_header_then_header() {
    let mut http = request(&[], 10, 100);
    http.set_header("X-Foo", "bar").unwrap();
    assert_eq!(http.header("X-Foo"), Some(b"bar".to_vec()));
    assert_eq!(http.header("x-foo"), Some(b"bar".to_vec()));
    assert_eq!(http.header("X-FOO"), Some(b"bar".to_vec()));
    assert_eq!(http.header("X-Fo"), None);
    // "X-Foo: bar" and its NUL
    assert_eq!(http.ws().free(), 100 - 11);
    assert_eq!(http.num_slots(), 6);
    // the new slot's flag is cleared, the others are kept
    assert_eq!(http.header_flags(), vec![1, 11, 21, 31, 41, 0]);
}

#[test]
fn test_header_first_match_wins() {
    let mut http = request(&["Accept: a", "accept: b"], 10, 100);
    assert_eq!(http.header("ACCEPT"), Some(b"a".to_vec()));
    http.set_header("Accept", "c").unwrap();
    assert_eq!(http.header("accept"), Some(b"a".to_vec()));
}

#[test]
fn test_header_value_trimmed() {
    let http = request(&["X-Space:   \t value ", "X-None:"], 10, 100);
    assert_eq!(http.header("x-space"), Some(b"value ".to_vec()));
    assert_eq!(http.header("x-none"), Some(b"".to_vec()));
}

#[test]
fn test_set_header_no_slot() {
    let mut http = request(&["A: 1"], 6, 100);
    assert_eq!(http.set_header("B", "2"), Err(VclError::NoHeaderSlot));
    assert_eq!(http.header("B"), None);
    // the line was written to the workspace before the slot check
    assert_eq!(http.ws().free(), 100 - 5);
}

#[test]
fn test_set_header_out_of_workspace() {
    let mut http = request(&[], 10, 10);
    // "X-Foo: bar" needs 11 bytes with its NUL
    assert_eq!(http.set_header("X-Foo", "bar"), Err(VclError::OutOfWorkspace));
    assert_eq!(http.ws().free(), 10);
    assert_eq!(http.num_slots(), 5);
    let mut http = request(&[], 10, 11);
    assert_eq!(http.set_header("X-Foo", "bar"), Ok(()));
    assert_eq!(http.ws().free(), 0);
}

#[test]
fn test_set_header_fmt_errors() {
    let mut http = request(&[], 10, 8);
    assert_eq!(http.set_header_fmt("X-Foo", "bar"), Err(VclError::NoSpaceForHeaderValue));
    let mut http = request(&[], 10, 7);
    assert_eq!(http.set_header_fmt("X-Foo", "bar"), Err(VclError::OutOfWorkspace));
    let mut http = request(&[], 10, 12);
    assert_eq!(http.set_header_fmt("X-Info", "id=1"), Err(VclError::NoSpaceForHeaderValue));
    let mut http = request(&[], 10, 13);
    assert_eq!(http.set_header_fmt("X-Info", "id=1"), Ok(()));
    assert_eq!(http.header("x-info"), Some(b"id=1".to_vec()));
}

#[test]
fn test_alloc_header_line() {
    let mut ws = Workspace::new(20);
    let parts = vec![b"W/".to_vec(), b"abc".to_vec()];
    let line = alloc_header_line(&mut ws, b"ETag", &parts).unwrap();
    assert_eq!(line, b"ETag: W/abc".to_vec());
    assert_eq!(ws.free(), 20 - 12);
    let mut ws = Workspace::new(11);
    assert_eq!(alloc_header_line(&mut ws, b"ETag", &parts), Err(VclError::OutOfWorkspace));
    assert_eq!(ws.free(), 11);
    let mut ws = Workspace::new(20);
    assert_eq!(alloc_header_line_fmt(&mut ws, b"A", b"b").unwrap(), b"A: b".to_vec());
    assert_eq!(ws.free(), 15);
}

#[test]
fn test_unset_header() {
    let mut http = request(&["A: 1", "B: 2", "a: 3", "C: 4"], 10, 100);
    http.unset_header("A");
    assert_eq!(http.header("a"), None);
    assert_eq!(
        names(&http),
        vec![(b"B".to_vec(), b"2".to_vec()), (b"C".to_vec(), b"4".to_vec())]
    );
    assert_eq!(http.num_slots(), 7);
    // kept lines keep their flags: slots 6 and 8 held B and C
    assert_eq!(http.header_flags(), vec![1, 11, 21, 31, 41, 61, 81]);
    assert_eq!(http.url(), Some(b"/index.html".to_vec()));
    // absent header: no-op
    let before = names(&http);
    http.unset_header("Z");
    assert_eq!(http.num_slots(), 7);
    assert_eq!(names(&http), before);
    assert_eq!(http.header_flags(), vec![1, 11, 21, 31, 41, 61, 81]);
    assert_eq!(http.ws().free(), 100);
}

#[test]
fn test_iter_in_order() {
    let http = request(&["A: 1", "B:2", "C:  3"], 10, 100);
    assert_eq!(
        names(&http),
        vec![
            (b"A".to_vec(), b"1".to_vec()),
            (b"B".to_vec(), b"2".to_vec()),
            (b"C".to_vec(), b"3".to_vec())
        ]
    );
    let mut it = http.iter();
    for _ in 0..3 {
        assert!(it.next().is_some());
    }
    assert!(it.next().is_none());
    assert!(it.next().is_none());
}

#[test]
fn test_weaken_etag() {
    let mut http = response(&["ETag: \"abc\"", "X: y"], 10, 100);
    http.weaken_etag().unwrap();
    assert_eq!(http.header("etag"), Some(b"W/\"abc\"".to_vec()));
    assert_eq!(
        names(&http),
        vec![(b"X".to_vec(), b"y".to_vec()), (b"ETag".to_vec(), b"W/\"abc\"".to_vec())]
    );
    // already weak: nothing changes
    let free = http.ws().free();
    http.weaken_etag().unwrap();
    assert_eq!(http.header("etag"), Some(b"W/\"abc\"".to_vec()));
    assert_eq!(http.ws().free(), free);
}

#[test]
fn test_weaken_etag_absent_or_weak() {
    let mut http = response(&["X: y"], 10, 100);
    assert_eq!(http.weaken_etag(), Ok(()));
    assert_eq!(http.num_slots(), 6);
    assert_eq!(http.ws().free(), 100);
    let mut http = response(&["etag: W/\"x\""], 10, 100);
    assert_eq!(http.weaken_etag(), Ok(()));
    assert_eq!(http.header("ETag"), Some(b"W/\"x\"".to_vec()));
}

#[test]
fn test_weaken_etag_duplicates_and_full_table() {
    // the table is full, but the old ETag headers free a slot
    let mut http = response(&["ETag: a", "etag: b"], 7, 100);
    http.weaken_etag().unwrap();
    assert_eq!(names(&http), vec![(b"ETag".to_vec(), b"W/a".to_vec())]);
}

#[test]
fn test_weaken_etag_out_of_workspace() {
    // "ETag: W/abc" needs 12 bytes with its NUL
    let mut http = response(&["ETag: abc"], 10, 11);
    assert_eq!(http.weaken_etag(), Err(VclError::OutOfWorkspace));
    assert_eq!(http.header("ETag"), Some(b"abc".to_vec()));
}

#[test]
fn test_set_url_reason() {
    let mut http = request(&[], 10, 100);
    http.set_url("/new/path?foo=bar").unwrap();
    assert_eq!(http.url(), Some(b"/new/path?foo=bar".to_vec()));
    assert_eq!(http.ws().free(), 100 - 18);
    assert_eq!(http.header_flags(), vec![1, 0, 21, 31, 41]);
    let mut resp = response(&[], 10, 100);
    resp.set_reason("Not Found").unwrap();
    assert_eq!(resp.reason(), Some(b"Not Found".to_vec()));
    let mut small = request(&[], 10, 3);
    assert_eq!(small.set_url("abc"), Err(VclError::OutOfWorkspace));
    assert_eq!(small.url(), Some(b"/index.html".to_vec()));
    assert_eq!(small.header_flags(), vec![1, 11, 21, 31, 41]);
}

#[test]
fn test_set_proto() {
    let mut http = response(&[], 10, 1000);
    for (p, v) in [("HTTP/0.9", 9), ("HTTP/1.0", 10), ("HTTP/1.1", 11), ("HTTP/2.0", 20), ("HTTP/3", 0), ("http/1.1", 0)] {
        http.set_proto(p).unwrap();
        assert_eq!(http.protover(), v);
        assert_eq!(http.proto(), Some(p.as_bytes().to_vec()));
    }
    // the version number changes even when the text does not fit
    let mut small = response(&[], 10, 2);
    assert_eq!(small.set_proto("HTTP/1.0"), Err(VclError::OutOfWorkspace));
    assert_eq!(small.protover(), 10);
    assert_eq!(small.proto(), Some(b"HTTP/1.1".to_vec()));
}
