use north_pole::quotes::{decode_page, encode_page, plan_list_page};

#[test]
fn page_tokens_are_sixteen_hex_digits() {
    assert_eq!(encode_page(0), "0000000000000000");
    assert_eq!(encode_page(1), "0000000000000001");
    assert_eq!(encode_page(-1), "FFFFFFFFFFFFFFFF");
    assert_eq!(encode_page(i64::MAX), "7FFFFFFFFFFFFFFF");
    assert_eq!(encode_page(i64::MIN), "8000000000000000");
}

#[test]
fn page_tokens_round_trip() {
    for page in [0i64, 1, 2, 16, -1, i64::MAX, i64::MIN] {
        assert_eq!(decode_page(&encode_page(page)), Some(page));
    }
}

#[test]
fn malformed_tokens_are_refused() {
    assert_eq!(decode_page(""), None);
    assert_eq!(decode_page("notahexnumber"), None);
    assert_eq!(decode_page("00000000000000001"), Some(1)); // leading zeros are fine
    assert_eq!(decode_page("F0000000000000000"), None); // overflow
    assert_eq!(decode_page("0000-00000000000"), None);
}

#[test]
fn listing_pages_step_by_three() {
    let p = plan_list_page(0, 10).unwrap();
    assert_eq!(p.offset, 0);
    assert_eq!(p.page_label, 1);
    assert_eq!(p.next_token.as_deref(), Some("0000000000000001"));

    let p = plan_list_page(1, 10).unwrap();
    assert_eq!(p.offset, 3);
    assert_eq!(p.page_label, 2);
    assert_eq!(p.next_token.as_deref(), Some("0000000000000002"));

    // The page holding the last rows issues no further token.
    let p = plan_list_page(3, 10).unwrap();
    assert_eq!(p.offset, 9);
    assert_eq!(p.next_token, None);

    let p = plan_list_page(0, 3).unwrap();
    assert_eq!(p.next_token, None);
}

#[test]
fn out_of_range_pages_are_refused() {
    assert!(plan_list_page(i64::MAX, 0).is_none());
    assert!(plan_list_page(i64::MIN, 0).is_none());
    assert!(plan_list_page(i64::MAX / 3, 0).is_none()); // its offset still fits, the token check does not
    assert!(plan_list_page(i64::MAX / 3 - 1, 0).is_some());
}
