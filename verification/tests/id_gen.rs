use animus_subject_sqlite::id_gen::{
    is_sqlite_id, new_subject_id, strip_prefix, subject_id_of, ID_PREFIX,
};
use animus_subject_sqlite::subject::SubjectId;
use std::time::{Duration, Instant};

#[test]
fn new_subject_id_has_prefix_and_ulid_length() {
    let id = new_subject_id();
    let raw = id.as_str();
    assert!(raw.starts_with(ID_PREFIX));
    // sqlite: + 26 ULID chars
    assert_eq!(raw.len(), ID_PREFIX.len() + 26);
}

#[test]
fn new_ids_sort_by_creation_order() {
    let a = new_subject_id();
    // Within one millisecond the order is left to chance, so let two pass.
    let start = Instant::now();
    while start.elapsed() < Duration::from_millis(2) {}
    let b = new_subject_id();
    let (a, b) = (a.as_str(), b.as_str());
    assert!(a < b, "{a} should sort before {b}");
}

#[test]
fn is_sqlite_id_and_strip_prefix_round_trip() {
    let id = new_subject_id();
    assert!(is_sqlite_id(&id));
    assert!(strip_prefix(&id).is_some());

    let foreign = SubjectId::new("linear:ENG-1");
    assert!(!is_sqlite_id(&foreign));
    assert!(strip_prefix(&foreign).is_none());
}

#[test]
fn id_of_a_ulid_is_its_crockford_text() {
    assert_eq!(subject_id_of(0).as_str(), "sqlite:00000000000000000000000000");
    assert_eq!(subject_id_of(31).as_str(), "sqlite:0000000000000000000000000Z");
    assert_eq!(subject_id_of(32 * 18 + 10).as_str(), "sqlite:000000000000000000000000JA");
    assert_eq!(subject_id_of(u128::MAX).as_str(), "sqlite:7ZZZZZZZZZZZZZZZZZZZZZZZZZ");
    // The alphabet, digit by digit.
    let alphabet = "0123456789ABCDEFGHJKMNPQRSTVWXYZ";
    for (value, digit) in alphabet.chars().enumerate() {
        let id = subject_id_of(value as u128);
        assert_eq!(id.as_str().chars().last(), Some(digit));
    }
}

#[test]
fn ids_sort_like_their_ulids() {
    let values = [0, 1, 9, 10, 31, 32, 33, 1 << 64, (1 << 80) - 1, 1 << 80, u128::MAX];
    for pair in values.windows(2) {
        assert!(subject_id_of(pair[0]).as_str() < subject_id_of(pair[1]).as_str());
    }
}

#[test]
fn strip_prefix_gives_what_follows() {
    assert_eq!(strip_prefix(&SubjectId::new("sqlite:abc")), Some("abc"));
    assert_eq!(strip_prefix(&SubjectId::new("sqlite:")), Some(""));
    assert_eq!(strip_prefix(&SubjectId::new("sqlite")), None);
    assert_eq!(strip_prefix(&SubjectId::new("")), None);
}
