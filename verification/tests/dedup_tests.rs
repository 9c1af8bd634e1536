use jobstr_poller::dedup::{contains_record, dedup};
use jobstr_poller::record::{bytes_equal, entry_equal, tags_equal, Record};

fn sample(content: &str, created_at: u64, sig: &str, last_id_byte: u8) -> Record {
    let mut id = vec![0x11u8; 32];
    id[31] = last_id_byte;
    Record {
        content: content.to_string(),
        pubkey: vec![0x22u8; 32],
        created_at,
        sig: sig.to_string(),
        tags: vec![vec!["t".to_string(), "jobstr".to_string()]],
        id,
    }
}

fn all_same(a: &[Record], b: &[Record]) -> bool {
    a.len() == b.len() && a.iter().zip(b.iter()).all(|(x, y)| x.same(y))
}

#[test]
fn dedup_twice_equals_dedup_once() {
    let input = vec![
        sample("a", 10, "s1", 1),
        sample("b", 11, "s2", 2),
        sample("a", 10, "s1", 1),
        sample("c", 12, "s3", 3),
        sample("b", 11, "s2", 2),
    ];
    let once = dedup(input);
    assert_eq!(once.len(), 3);
    let twice = dedup(once.clone());
    assert!(all_same(&once, &twice));
}

#[test]
fn dedup_keeps_first_occurrence_order() {
    let input = vec![
        sample("b", 11, "s2", 2),
        sample("a", 10, "s1", 1),
        sample("b", 11, "s2", 2),
        sample("a", 10, "s1", 1),
    ];
    let out = dedup(input);
    let expected = vec![sample("b", 11, "s2", 2), sample("a", 10, "s1", 1)];
    assert!(all_same(&out, &expected));
}

#[test]
fn dedup_of_nothing_is_nothing() {
    assert_eq!(dedup(Vec::new()).len(), 0);
}

#[test]
fn records_differing_only_in_signature_are_both_kept() {
    let a = sample("a", 10, "s1", 1);
    let b = sample("a", 10, "s2", 1);
    assert!(!a.same(&b));
    assert_eq!(dedup(vec![a, b]).len(), 2);
}

#[test]
fn records_differing_in_any_single_field_are_both_kept() {
    let base = sample("a", 10, "s1", 1);
    let mut variants: Vec<Record> = Vec::new();
    let mut v = base.clone();
    v.content = "A".to_string();
    variants.push(v);
    let mut v = base.clone();
    v.pubkey[0] = 0x23;
    variants.push(v);
    let mut v = base.clone();
    v.created_at = 11;
    variants.push(v);
    let mut v = base.clone();
    v.sig = "s2".to_string();
    variants.push(v);
    let mut v = base.clone();
    v.tags[0][1] = "other".to_string();
    variants.push(v);
    let mut v = base.clone();
    v.tags.push(vec![]);
    variants.push(v);
    let mut v = base.clone();
    v.id[0] = 0x12;
    variants.push(v);
    for other in variants {
        assert!(!base.same(&other));
        assert_eq!(dedup(vec![base.clone(), other]).len(), 2);
    }
}

#[test]
fn identical_records_built_separately_are_merged() {
    let a = sample("a", 10, "s1", 1);
    let b = sample("a", 10, "s1", 1);
    assert!(a.same(&b));
    let out = dedup(vec![a, b]);
    assert_eq!(out.len(), 1);
    assert!(out[0].same(&sample("a", 10, "s1", 1)));
}

#[test]
fn contains_record_finds_structural_copies_only() {
    let list = vec![sample("a", 10, "s1", 1), sample("b", 11, "s2", 2)];
    assert!(contains_record(&list, &sample("b", 11, "s2", 2)));
    assert!(!contains_record(&list, &sample("b", 11, "s2", 3)));
    assert!(!contains_record(&Vec::new(), &sample("b", 11, "s2", 3)));
}

#[test]
fn byte_and_tag_equality() {
    assert!(bytes_equal(&vec![1, 2, 3], &vec![1, 2, 3]));
    assert!(!bytes_equal(&vec![1, 2, 3], &vec![1, 2]));
    assert!(!bytes_equal(&vec![1, 2, 3], &vec![1, 2, 4]));
    assert!(bytes_equal(&vec![], &vec![]));
    let row = vec!["t".to_string(), "jobstr".to_string()];
    assert!(entry_equal(&row, &row.clone()));
    assert!(!entry_equal(&row, &vec!["t".to_string()]));
    assert!(!entry_equal(&row, &vec!["t".to_string(), "jobs".to_string()]));
    assert!(tags_equal(&vec![row.clone()], &vec![row.clone()]));
    assert!(!tags_equal(&vec![row.clone()], &vec![row.clone(), vec![]]));
    assert!(!tags_equal(&vec![row.clone()], &vec![vec!["t".to_string(), "x".to_string()]]));
    assert!(tags_equal(&Vec::new(), &Vec::new()));
}
