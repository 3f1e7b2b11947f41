use varnish::backend::VCL_BACKEND;
use varnish::backend_set::BackendSet;

fn be(n: usize) -> VCL_BACKEND {
    VCL_BACKEND(n)
}

fn set_of(ids: &[usize]) -> BackendSet {
    let mut s = BackendSet::new();
    for &i in ids {
        s.add(be(i));
    }
    s
}

#[test]
fn test_add_len_all() {
    let mut s = BackendSet::with_capacity(4);
    assert!(s.is_empty());
    s.add(be(1));
    s.add(be(2));
    s.add(be(1));
    assert_eq!(s.len(), 3);
    assert!(!s.is_empty());
    assert_eq!(s.all(), vec![be(1), be(2), be(1)]);
}

#[test]
fn test_remove_first_occurrence() {
    let mut s = set_of(&[1, 2, 1, 3]);
    assert_eq!(s.position(be(1)), Some(0));
    assert!(s.remove(be(1)));
    assert_eq!(s.all(), vec![be(2), be(1), be(3)]);
    assert!(!s.remove(be(9)));
    assert_eq!(s.len(), 3);
    assert_eq!(s.position(be(9)), None);
}

#[test]
fn test_add_then_remove() {
    let mut s = set_of(&[1, 2]);
    s.add(be(3));
    assert!(s.remove(be(3)));
    assert_eq!(s.all(), vec![be(1), be(2)]);
}

#[test]
fn test_release_all() {
    let mut s = set_of(&[1, 2, 3]);
    s.release_all();
    assert!(s.is_empty());
    assert_eq!(s.all(), vec![]);
}

#[test]
fn test_healthy_list_and_count() {
    let s = set_of(&[1, 2, 3, 4]);
    let health = [false, true, false, true];
    assert_eq!(s.healthy_list(&health), vec![be(2), be(4)]);
    assert_eq!(s.healthy_count(&health), 2);
    assert_eq!(s.healthy_count(&[false; 4]), 0);
}

#[test]
fn test_pick_first_healthy() {
    let s = set_of(&[1, 2, 3]);
    assert_eq!(s.pick_first_healthy(&[false, true, true]), Some(be(2)));
    assert_eq!(s.pick_first_healthy(&[true, true, true]), Some(be(1)));
    assert_eq!(s.pick_first_healthy(&[false, false, false]), None);
    assert_eq!(s.first_healthy_index(&[false, false, true]), Some(2));
    assert_eq!(BackendSet::new().pick_first_healthy(&[]), None);
}

#[test]
fn test_pick_by_index_round_robin() {
    let s = set_of(&[1, 2, 3, 4]);
    let health = [true, false, true, true];
    let picks: Vec<_> = (0..6).map(|i| s.pick_by_index(&health, i)).collect();
    assert_eq!(
        picks,
        vec![Some(be(1)), Some(be(3)), Some(be(4)), Some(be(1)), Some(be(3)), Some(be(4))]
    );
    assert_eq!(s.pick_by_index(&[false; 4], 5), None);
    assert_eq!(s.pick_by_index(&health, usize::MAX), Some(be(1)));
}
