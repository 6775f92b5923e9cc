use passbolt::urls::{ACTION_URL, RESOURCE_URL, SECRET_URL};

#[test]
fn fills_single_placeholder() {
    assert_eq!(passbolt::util::format(RESOURCE_URL, &["42"]), "/resources/42.json");
    assert_eq!(passbolt::util::format(SECRET_URL, &["abc"]), "/secrets/resource/abc.json");
}

#[test]
fn fills_placeholders_in_order() {
    assert_eq!(
        passbolt::util::format(ACTION_URL, &["r1", "2", "100"]),
        "/actionlog/resource/r1.json?page=2&limit=100"
    );
}

#[test]
fn extra_values_and_missing_placeholders_are_ignored() {
    assert_eq!(passbolt::util::format("none", &["x"]), "none");
    assert_eq!(passbolt::util::format("{}-{}", &["a"]), "a-{}");
}

#[test]
fn value_holding_placeholder_is_filled_next() {
    assert_eq!(passbolt::util::format("{}!", &["{}", "b"]), "b!");
}
