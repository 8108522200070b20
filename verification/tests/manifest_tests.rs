use north_pole::manifest::{
    evaluate_manifest, has_magic_keyword, Keywords, ManifestInfo, ManifestVerdict, OrderEntry,
    OrderValue,
};

fn order(item: Option<OrderValue>, quantity: Option<OrderValue>) -> OrderEntry {
    OrderEntry { item, quantity }
}

#[test]
fn keyword_must_be_local_and_exact() {
    assert!(has_magic_keyword(&Some(Keywords::Local(vec![
        "serde".to_string(),
        "Christmas 2024".to_string(),
    ]))));
    assert!(!has_magic_keyword(&Some(Keywords::Local(vec![
        "christmas 2024".to_string()
    ]))));
    assert!(!has_magic_keyword(&Some(Keywords::Inherited)));
    assert!(!has_magic_keyword(&None));
}

#[test]
fn missing_keyword_wins_over_everything() {
    let info = ManifestInfo {
        keywords: None,
        orders: Some(vec![order(
            Some(OrderValue::Text("Toy car".to_string())),
            Some(OrderValue::Number(2)),
        )]),
    };
    assert!(matches!(evaluate_manifest(&info), ManifestVerdict::NoKeyword));
}

#[test]
fn valid_orders_are_listed_newline_joined() {
    let info = ManifestInfo {
        keywords: Some(Keywords::Local(vec!["Christmas 2024".to_string()])),
        orders: Some(vec![
            order(
                Some(OrderValue::Text("Toy car".to_string())),
                Some(OrderValue::Number(2)),
            ),
            order(
                Some(OrderValue::Text("Lego brick".to_string())),
                Some(OrderValue::Text("ten".to_string())),
            ),
            order(None, Some(OrderValue::Number(4))),
            order(
                Some(OrderValue::Text("Doll".to_string())),
                Some(OrderValue::Number(-1)),
            ),
            order(
                Some(OrderValue::Text("Lego brick".to_string())),
                Some(OrderValue::Number(230)),
            ),
        ]),
    };
    match evaluate_manifest(&info) {
        ManifestVerdict::Orders(text) => {
            assert_eq!(text, "Toy car: 2\nLego brick: 230");
        }
        _ => panic!("expected an order listing"),
    }
}

#[test]
fn no_valid_orders_is_no_content() {
    let keywords = Some(Keywords::Local(vec!["Christmas 2024".to_string()]));
    let info = ManifestInfo {
        keywords,
        orders: Some(vec![order(
            Some(OrderValue::Text("Coal".to_string())),
            Some(OrderValue::Other),
        )]),
    };
    assert!(matches!(evaluate_manifest(&info), ManifestVerdict::NoOrders));

    let info = ManifestInfo {
        keywords: Some(Keywords::Local(vec!["Christmas 2024".to_string()])),
        orders: None,
    };
    assert!(matches!(evaluate_manifest(&info), ManifestVerdict::NoOrders));
}

#[test]
fn quantity_must_fit_thirty_two_bits() {
    let info = ManifestInfo {
        keywords: Some(Keywords::Local(vec!["Christmas 2024".to_string()])),
        orders: Some(vec![order(
            Some(OrderValue::Text("Stars".to_string())),
            Some(OrderValue::Number(u32::MAX as i64 + 1)),
        )]),
    };
    assert!(matches!(evaluate_manifest(&info), ManifestVerdict::NoOrders));
}
