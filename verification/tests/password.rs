use cron_reminders::password::{check_password, hash_password, DEFAULT_COST, MAX_COST, MIN_COST};

#[test]
fn the_costs_are_those_of_bcrypt() {
    assert_eq!(MIN_COST, 4);
    assert_eq!(DEFAULT_COST, 12);
    assert_eq!(MAX_COST, 31);
    assert_eq!(DEFAULT_COST, bcrypt::DEFAULT_COST);
}

#[test]
fn a_hash_matches_its_password_and_no_other() {
    let hash = hash_password("pw1", 4).unwrap();
    assert_ne!(hash, "pw1");
    assert!(hash.starts_with("$2b$04$"));
    assert_eq!(hash.len(), 60);
    assert!(check_password("pw1", &hash));
    assert!(!check_password("pw2", &hash));
    assert!(!check_password("", &hash));
    assert!(!check_password("pw1 ", &hash));
}

#[test]
fn two_hashes_of_one_password_differ_and_both_match() {
    let first = hash_password("correct horse", 4).unwrap();
    let second = hash_password("correct horse", 4).unwrap();
    assert_ne!(first, second);
    assert!(check_password("correct horse", &first));
    assert!(check_password("correct horse", &second));
}

#[test]
fn a_cost_out_of_range_gives_no_hash() {
    assert!(hash_password("pw1", 3).is_none());
    assert!(hash_password("pw1", 32).is_none());
    assert!(hash_password("pw1", 0).is_none());
}

#[test]
fn a_string_that_is_no_hash_matches_nothing() {
    assert!(!check_password("pw1", "pw1"));
    assert!(!check_password("pw1", ""));
    assert!(!check_password("", ""));
    assert!(!check_password("pw1", "$2b$04$short"));
    assert!(!check_password("pw1", "$9z$04$EGdrhbKUv8Oc9vGiXX0HQOxSg445d458Muh7DAHskb6QbtCvdxcie"));
}

#[test]
fn a_hash_made_elsewhere_is_understood() {
    let hash = "$2b$04$EGdrhbKUv8Oc9vGiXX0HQOxSg445d458Muh7DAHskb6QbtCvdxcie";
    assert!(check_password("correctbatteryhorsestapler", hash));
    assert!(!check_password("wrong", hash));
}

#[test]
fn the_empty_password_has_a_hash() {
    let hash = hash_password("", 4).unwrap();
    assert!(check_password("", &hash));
    assert!(!check_password("x", &hash));
}
