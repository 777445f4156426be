use yxhoo_transit::places::{YxhooPlace, YxhooPlaceKind, YxhooSuggestResponse};

#[test]
fn test_place_kind_codes() {
    assert_eq!(YxhooPlaceKind::from_code("st"), YxhooPlaceKind::Station);
    assert_eq!(YxhooPlaceKind::from_code("bu"), YxhooPlaceKind::BusStation);
    assert_eq!(YxhooPlaceKind::from_code("la"), YxhooPlaceKind::Facility);
    assert_eq!(YxhooPlaceKind::from_code("zz"), YxhooPlaceKind::Other);
    assert_eq!(YxhooPlaceKind::from_code(""), YxhooPlaceKind::Other);
    assert_eq!(YxhooPlaceKind::from_code("station"), YxhooPlaceKind::Other);
}

#[test]
fn test_suggest_response_shape() {
    let place = YxhooPlace {
        suggest: "新宿".to_string(),
        yomi: "しんじゅく".to_string(),
        lat: "35.6896".to_string(),
        lon: "139.7006".to_string(),
        address: "東京都新宿区".to_string(),
        kind: YxhooPlaceKind::from_code("st"),
    };
    let response = YxhooSuggestResponse {
        query: "新宿".to_string(),
        total_results: 1,
        results: vec![place],
    };
    assert_eq!(response.results.len(), 1);
    assert_eq!(response.results[0].kind, YxhooPlaceKind::Station);
    assert_eq!(response.results[0].suggest, "新宿");
}
