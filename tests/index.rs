use w6r::index::{Hit, Threshold, LSH};

fn sig(values: &[f32]) -> Vec<u32> {
    values.iter().map(|x| x.to_bits()).collect()
}

fn half() -> Threshold {
    Threshold { num: 1, den: 2 }
}

fn ids_of(hits: &[Hit]) -> Vec<String> {
    let mut ids: Vec<String> = hits.iter().map(|h| h.id.clone()).collect();
    ids.sort();
    ids
}

#[test]
fn empty_index_reports_nothing() {
    let lsh = LSH::new();
    assert_eq!(lsh.length(), 0);
    assert!(lsh.keys().is_empty());
    assert!(lsh.values().is_empty());
    assert!(lsh.check(&sig(&[1.0, 2.0, 3.0]), half()).is_empty());
}

#[test]
fn check_before_insert() {
    let mut lsh = LSH::new();
    let s = sig(&[1.0, 2.0, 3.0, 4.0]);
    let first = lsh.check_and_add("a", s.clone(), half(), false);
    assert!(first.is_empty());
    let second = lsh.check_and_add("b", s.clone(), half(), false);
    assert_eq!(second.len(), 1);
    assert_eq!(second[0].id, "a");
    assert_eq!(second[0].index, 0);
    assert_eq!(second[0].matches, 4);
}

#[test]
fn duplicate_not_inserted_without_override() {
    let mut lsh = LSH::new();
    let s = sig(&[0.5, 1.5, 2.5, 3.5]);
    lsh.check_and_add("id1", s.clone(), half(), false);
    let r = lsh.check_and_add("id2", s.clone(), half(), false);
    assert_eq!(ids_of(&r), vec!["id1".to_string()]);
    assert_eq!(r[0].matches, 4);
    assert_eq!(lsh.length(), 1);
    assert_eq!(lsh.keys(), vec!["id1".to_string()]);
}

#[test]
fn duplicate_forced_insert() {
    let mut lsh = LSH::new();
    let s = sig(&[0.5, 1.5, 2.5, 3.5]);
    lsh.check_and_add("id1", s.clone(), half(), false);
    let r = lsh.check_and_add("id2", s.clone(), half(), true);
    assert_eq!(ids_of(&r), vec!["id1".to_string()]);
    assert_eq!(lsh.length(), 2);
    assert_eq!(lsh.keys(), vec!["id1".to_string(), "id2".to_string()]);
    assert_eq!(lsh.values(), vec![s.clone(), s]);
}

#[test]
fn threshold_boundary_is_inclusive() {
    let mut lsh = LSH::new();
    lsh.check_and_add("x", sig(&[1.0, 2.0, 3.0, 4.0]), half(), false);
    let q = sig(&[1.0, 2.0, 3.0, 9.0]);
    let at = lsh.check(&q, Threshold { num: 3, den: 4 });
    assert_eq!(at.len(), 1);
    assert_eq!(at[0].matches, 3);
    let above = lsh.check(&q, Threshold { num: 751, den: 1000 });
    assert!(above.is_empty());
}

#[test]
fn candidates_found_by_value_at_any_slot() {
    let mut lsh = LSH::new();
    lsh.check_and_add("x", sig(&[1.0, 2.0, 3.0, 4.0]), half(), false);
    // Shares the value 1.0 only at another slot: a candidate, agreeing nowhere.
    let q = sig(&[7.0, 1.0, 8.0, 9.0]);
    assert!(lsh.check(&q, Threshold { num: 1, den: 2 }).is_empty());
    let all = lsh.check(&q, Threshold { num: 0, den: 1 });
    assert_eq!(all.len(), 1);
    assert_eq!(all[0].matches, 0);
    // Shares no value at all: never a candidate, even at threshold zero.
    assert!(lsh.check(&sig(&[5.0, 6.0, 7.0, 8.0]), Threshold { num: 0, den: 1 }).is_empty());
}

#[test]
fn several_documents_each_reported_once() {
    let mut lsh = LSH::new();
    lsh.check_and_add("a", sig(&[1.0, 2.0, 3.0, 4.0]), half(), false);
    lsh.check_and_add("b", sig(&[1.0, 2.0, 5.0, 6.0]), half(), true);
    lsh.check_and_add("c", sig(&[9.0, 9.0, 9.0, 9.0]), half(), false);
    assert_eq!(lsh.length(), 3);
    let r = lsh.check(&sig(&[1.0, 2.0, 3.0, 6.0]), half());
    assert_eq!(ids_of(&r), vec!["a".to_string(), "b".to_string()]);
    assert!(r.iter().all(|h| h.matches == 3));
    let mut idx: Vec<usize> = r.iter().map(|h| h.index).collect();
    idx.sort();
    assert_eq!(idx, vec![0, 1]);
}

#[test]
fn bit_patterns_distinguish_signed_zero() {
    let mut lsh = LSH::new();
    lsh.check_and_add("z", sig(&[0.0, 1.0]), half(), false);
    let r = lsh.check(&sig(&[-0.0, 2.0]), Threshold { num: 0, den: 1 });
    assert!(r.is_empty());
}

#[test]
fn empty_signature_is_total() {
    let mut lsh = LSH::new();
    assert!(lsh.check_and_add("e", Vec::new(), half(), false).is_empty());
    assert_eq!(lsh.length(), 1);
    assert!(lsh.check(&[], half()).is_empty());
}

#[test]
fn empty_query_on_filled_index() {
    let mut lsh = LSH::new();
    lsh.check_and_add("a", sig(&[1.0, 2.0, 3.0]), half(), false);
    assert!(lsh.check(&[], Threshold { num: 0, den: 1 }).is_empty());
    assert!(lsh.check_and_add("b", Vec::new(), Threshold { num: 0, den: 1 }, false).is_empty());
    assert_eq!(lsh.length(), 2);
    // The stored empty signature is never a candidate for a full one.
    let r = lsh.check(&sig(&[1.0, 2.0, 3.0]), Threshold { num: 0, den: 1 });
    assert_eq!(ids_of(&r), vec!["a".to_string()]);
}

#[test]
fn repeated_value_in_one_signature_reported_once() {
    let mut lsh = LSH::new();
    lsh.check_and_add("a", sig(&[4.0, 4.0, 4.0, 1.0]), half(), false);
    let r = lsh.check(&sig(&[4.0, 4.0, 4.0, 4.0]), half());
    assert_eq!(r.len(), 1);
    assert_eq!(r[0].matches, 3);
}
