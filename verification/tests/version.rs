use product_bridge::version::{increment_version, is_version_token, MalformedVersion};

fn next(current: &str) -> Result<String, MalformedVersion> {
    increment_version(Some(current.to_string()))
}

#[test]
fn no_current_version_gives_v1() {
    assert_eq!(increment_version(None), Ok("v1".to_string()));
}

#[test]
fn v1_is_followed_by_v2() {
    assert_eq!(next("v1"), Ok("v2".to_string()));
}

#[test]
fn v9_is_followed_by_v10() {
    assert_eq!(next("v9"), Ok("v10".to_string()));
}

#[test]
fn bogus_is_malformed() {
    assert_eq!(next("bogus"), Err(MalformedVersion));
}

#[test]
fn carries_run_through_the_nines() {
    assert_eq!(next("v199"), Ok("v200".to_string()));
    assert_eq!(next("v999"), Ok("v1000".to_string()));
    assert_eq!(next("v1099"), Ok("v1100".to_string()));
    assert_eq!(next("v0"), Ok("v1".to_string()));
}

#[test]
fn leading_zeros_are_not_kept() {
    assert_eq!(next("v007"), Ok("v8".to_string()));
    assert_eq!(next("v000"), Ok("v1".to_string()));
    assert_eq!(next("v0099"), Ok("v100".to_string()));
}

#[test]
fn numbers_beyond_the_machine_word_are_counted() {
    assert_eq!(next("v4294967295"), Ok("v4294967296".to_string()));
    assert_eq!(
        next("v18446744073709551615"),
        Ok("v18446744073709551616".to_string())
    );
    assert_eq!(
        next("v99999999999999999999999999999999"),
        Ok("v100000000000000000000000000000000".to_string())
    );
}

#[test]
fn texts_that_are_no_version_are_malformed() {
    for text in ["", "v", "1", "x1", "V1", "v1a", "v-1", "v+1", "v 1", "v1 ", "vv1", "v１"] {
        assert_eq!(next(text), Err(MalformedVersion), "{:?}", text);
        assert!(!is_version_token(text));
    }
}

#[test]
fn version_tokens_are_recognised() {
    for text in ["v0", "v1", "v42", "v000123"] {
        assert!(is_version_token(text));
    }
}

#[test]
fn every_small_number_is_followed_by_the_next() {
    let mut n: u32 = 0;
    while n < 2000 {
        assert_eq!(next(&format!("v{}", n)), Ok(format!("v{}", n + 1)));
        n += 1;
    }
}
