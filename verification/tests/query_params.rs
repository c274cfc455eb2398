use rinha_backend::query::{parse_query_params_from_path, url_decode};

#[test]
fn url_decode_handles_timestamp_escapes() {
    assert_eq!(url_decode("2020-07-10T12%3A34%3A56.000Z"), "2020-07-10T12:34:56.000Z");
    assert_eq!(url_decode("a%2Db%2Ec%20d"), "a-b.c d");
}

#[test]
fn url_decode_turns_plus_and_encoded_plus_into_space() {
    assert_eq!(url_decode("a+b"), "a b");
    assert_eq!(url_decode("2020-07-10T12:00:00%2B03:00"), "2020-07-10T12:00:00 03:00");
}

#[test]
fn url_decode_leaves_plain_text() {
    assert_eq!(url_decode("2020-07-10T12:34:56.000Z"), "2020-07-10T12:34:56.000Z");
    assert_eq!(url_decode(""), "");
    assert_eq!(url_decode("%41%3a"), "%41%3a");
}

#[test]
fn no_query_gives_no_filters() {
    assert_eq!(parse_query_params_from_path("/payments-summary"), (None, None));
}

#[test]
fn both_filters_are_read_and_decoded() {
    let (from, to) = parse_query_params_from_path(
        "/payments-summary?from=2020-07-10T12%3A34%3A56.000Z&to=2020-07-10T12:35:56.000Z",
    );
    assert_eq!(from.as_deref(), Some("2020-07-10T12:34:56.000Z"));
    assert_eq!(to.as_deref(), Some("2020-07-10T12:35:56.000Z"));
}

#[test]
fn last_occurrence_wins_and_other_keys_are_ignored() {
    let (from, to) =
        parse_query_params_from_path("/x?from=a&other=1&from=b&flag&to=&=zz");
    assert_eq!(from.as_deref(), Some("b"));
    assert_eq!(to.as_deref(), Some(""));
}

#[test]
fn value_keeps_later_equals_signs() {
    let (from, to) = parse_query_params_from_path("/x?to=a=b?c");
    assert_eq!(from, None);
    assert_eq!(to.as_deref(), Some("a=b?c"));
}

#[test]
fn empty_query_gives_no_filters() {
    assert_eq!(parse_query_params_from_path("/payments-summary?"), (None, None));
    assert_eq!(parse_query_params_from_path("/payments-summary?from"), (None, None));
}
