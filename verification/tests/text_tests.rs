use north_pole::text::{str_eq, strip_gift_prefix};

#[test]
fn equality_is_character_for_character() {
    assert!(str_eq("cookie", "cookie"));
    assert!(!str_eq("cookie", "milk"));
    assert!(!str_eq("cookie", "cookies"));
    assert!(str_eq("", ""));
    assert!(str_eq("\u{1f36a}", "\u{1f36a}"));
}

#[test]
fn gift_prefix_is_stripped() {
    assert_eq!(strip_gift_prefix("gift=abc.def").as_deref(), Some("abc.def"));
    assert_eq!(strip_gift_prefix("gift=").as_deref(), Some(""));
    assert_eq!(strip_gift_prefix("gif=abc"), None);
    assert_eq!(strip_gift_prefix("present=abc"), None);
    assert_eq!(strip_gift_prefix(""), None);
}
