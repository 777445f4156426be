use yxhoo_transit::datetime::DateTimeMinute;
use yxhoo_transit::extract::load_next_data;
use yxhoo_transit::json::Json;
use yxhoo_transit::parser::next_data_to_transit_dto;
use yxhoo_transit::TransitError;

fn s(v: &str) -> Json {
    Json::Str(v.to_string())
}

fn obj(fields: Vec<(&str, Json)>) -> Json {
    Json::Obj(fields.into_iter().map(|(k, v)| (k.to_string(), v)).collect())
}

fn arr(items: Vec<Json>) -> Json {
    Json::Arr(items)
}

fn dt(year: i32, month: u32, day: u32, hour: u32, minute: u32) -> DateTimeMinute {
    DateTimeMinute { year, month, day, hour, minute, offset_minutes: 540 }
}

fn edge(name: &str, time: Option<&str>, line: Option<&str>) -> Json {
    let mut fields = vec![("stationName", s(name))];
    if let Some(t) = time {
        fields.push(("timeInfo", arr(vec![obj(vec![("time", s(t))])])));
    }
    if let Some(l) = line {
        fields.push(("railName", s(l)));
    }
    obj(fields)
}

fn page_query(fields: Vec<(&str, &str)>) -> Json {
    obj(fields.into_iter().map(|(k, v)| (k, s(v))).collect())
}

fn root_with(features: Vec<Json>, pq: Json) -> Json {
    obj(vec![(
        "props",
        obj(vec![(
            "pageProps",
            obj(vec![
                (
                    "naviSearchParam",
                    obj(vec![
                        (
                            "displayInfo",
                            obj(vec![("fromName", s("起点")), ("toName", s("終点"))]),
                        ),
                        ("featureInfoList", arr(features)),
                    ]),
                ),
                ("pageQuery", pq),
            ]),
        )]),
    )])
}

fn full_query() -> Json {
    page_query(vec![
        ("y", "2025"),
        ("m", "12"),
        ("d", "18"),
        ("hh", "0"),
        ("m1", "0"),
        ("m2", "0"),
    ])
}

#[test]
fn test_edge_sequence_with_rollover() {
    let feature = obj(vec![(
        "edgeInfoList",
        arr(vec![
            edge("A", Some("08:50"), Some("一号線")),
            edge("B", Some("08:55"), Some("二号線")),
            edge("C", Some("08:40"), None),
        ]),
    )]);
    let result = next_data_to_transit_dto(&root_with(vec![feature], full_query())).unwrap();
    assert_eq!(result.search_date_time, Some(dt(2025, 12, 18, 0, 0)));
    assert_eq!(result.routes.len(), 1);
    let segments = &result.routes[0].segments;
    assert_eq!(segments.len(), 2);
    assert_eq!(segments[0].from, "A");
    assert_eq!(segments[0].to, "B");
    assert_eq!(segments[0].departure_time, Some(dt(2025, 12, 18, 8, 50)));
    assert_eq!(segments[0].arrival_time, Some(dt(2025, 12, 18, 8, 55)));
    assert_eq!(segments[1].departure_time, Some(dt(2025, 12, 18, 8, 55)));
    // 08:40 is earlier than the cursor's 08:55, so the date advances one day
    assert_eq!(segments[1].arrival_time, Some(dt(2025, 12, 19, 8, 40)));
}

#[test]
fn test_single_edge_produces_no_segments() {
    let feature = obj(vec![(
        "edgeInfoList",
        arr(vec![edge("A", Some("08:50"), None)]),
    )]);
    let result = next_data_to_transit_dto(&root_with(vec![feature], full_query())).unwrap();
    assert_eq!(result.routes.len(), 1);
    assert_eq!(result.routes[0].segments.len(), 0);
}

#[test]
fn test_missing_anchor_suppresses_all_timestamps() {
    // no "y" in the page query: the search timestamp has no anchor date
    let pq = page_query(vec![("m", "12"), ("d", "18"), ("hh", "0")]);
    let feature = obj(vec![
        (
            "summaryInfo",
            obj(vec![("departureTime", s("08:50")), ("arrivalTime", s("09:10"))]),
        ),
        (
            "edgeInfoList",
            arr(vec![
                edge("A", Some("08:50"), None),
                edge("B", Some("09:10"), None),
            ]),
        ),
    ]);
    let result = next_data_to_transit_dto(&root_with(vec![feature], pq)).unwrap();
    assert_eq!(result.search_date_time, None);
    let route = &result.routes[0];
    assert_eq!(route.summary.departure_time, None);
    assert_eq!(route.summary.arrival_time, None);
    assert_eq!(route.segments.len(), 1);
    assert_eq!(route.segments[0].departure_time, None);
    assert_eq!(route.segments[0].arrival_time, None);
}

#[test]
fn test_summary_fields() {
    let feature = obj(vec![(
        "summaryInfo",
        obj(vec![
            ("totalTime", s("1時間2分")),
            ("transferCount", s("2回")),
            ("totalPrice", s("1,234円")),
            ("distance", s("12.3km")),
            ("isFast", Json::Bool(true)),
            ("isCheap", Json::Bool(false)),
        ]),
    )]);
    let result = next_data_to_transit_dto(&root_with(vec![feature], full_query())).unwrap();
    let summary = &result.routes[0].summary;
    assert_eq!(summary.duration_minutes, Some(62));
    assert_eq!(summary.transfer_count, Some(2));
    assert_eq!(summary.total_price_yen, Some(1234));
    assert_eq!(summary.distance_mm, Some(12_300_000));
    assert_eq!(summary.is_fast, Some(true));
    assert_eq!(summary.is_easy, None);
    assert_eq!(summary.is_cheap, Some(false));
}

#[test]
fn test_segment_line_and_mode() {
    let walk = obj(vec![
        ("stationName", s("A")),
        ("railName", s("徒歩")),
        ("timeOnBoard", s("5分")),
    ]);
    let rail = obj(vec![
        ("stationName", s("B")),
        ("railNameExcludingDestination", s("山手線")),
        ("railName", s("山手線(外回り)")),
        ("destination", s("  品川行  ")),
        ("priceInfo", obj(vec![("price", s("170円"))])),
    ]);
    let feature = obj(vec![(
        "edgeInfoList",
        arr(vec![walk, rail, edge("C", None, None)]),
    )]);
    let result = next_data_to_transit_dto(&root_with(vec![feature], full_query())).unwrap();
    let segments = &result.routes[0].segments;
    assert_eq!(segments[0].mode, "walk");
    assert_eq!(segments[0].line.as_deref(), Some("徒歩"));
    assert_eq!(segments[0].duration_minutes, Some(5));
    // the excluding-destination variant is preferred, the destination trimmed
    assert_eq!(segments[1].mode, "rail");
    assert_eq!(segments[1].line.as_deref(), Some("山手線"));
    assert_eq!(segments[1].destination.as_deref(), Some("品川行"));
    assert_eq!(segments[1].fare_yen, Some(170));
}

#[test]
fn test_rank_and_order_preserved() {
    let f1 = obj(vec![("edgeInfoList", arr(vec![]))]);
    let f2 = obj(vec![]);
    let f3 = obj(vec![]);
    let result = next_data_to_transit_dto(&root_with(vec![f1, f2, f3], full_query())).unwrap();
    assert_eq!(result.routes.len(), 3);
    assert_eq!(result.routes[0].rank, 1);
    assert_eq!(result.routes[1].rank, 2);
    assert_eq!(result.routes[2].rank, 3);
}

#[test]
fn test_names_prefer_display_info() {
    let result = next_data_to_transit_dto(&root_with(vec![], full_query())).unwrap();
    assert_eq!(result.from, "起点");
    assert_eq!(result.to, "終点");
}

#[test]
fn test_names_fall_back_to_page_query() {
    let root = obj(vec![(
        "props",
        obj(vec![(
            "pageProps",
            obj(vec![
                (
                    "naviSearchParam",
                    obj(vec![("featureInfoList", arr(vec![]))]),
                ),
                (
                    "pageQuery",
                    obj(vec![("from", s("新宿")), ("to", s("渋谷"))]),
                ),
            ]),
        )]),
    )]);
    let result = next_data_to_transit_dto(&root).unwrap();
    assert_eq!(result.from, "新宿");
    assert_eq!(result.to, "渋谷");
    assert_eq!(result.search_date_time, None);
}

#[test]
fn test_missing_feature_list_is_fatal() {
    let root = obj(vec![(
        "props",
        obj(vec![("pageProps", obj(vec![("pageQuery", full_query())]))]),
    )]);
    assert!(matches!(
        next_data_to_transit_dto(&root),
        Err(TransitError::FeatureListMissing)
    ));
    assert!(matches!(
        next_data_to_transit_dto(&Json::Null),
        Err(TransitError::FeatureListMissing)
    ));
}

#[test]
fn test_load_next_data_raw_json() {
    let tree = load_next_data("  {\"props\": {\"pageProps\": {}}}").unwrap();
    assert!(tree.get("props").is_some());
}

#[test]
fn test_load_next_data_html() {
    let body = "<html><head></head><body>\
        <script id=\"__NEXT_DATA__\" type=\"application/json\">{\"answer\": \"42\"}</script>\
        </body></html>";
    let tree = load_next_data(body).unwrap();
    let answer = tree.get("answer").unwrap();
    assert_eq!(answer.as_str().map(|s| s.as_str()), Some("42"));
}

#[test]
fn test_load_next_data_html_not_found() {
    let body = "<html><body><script id=\"other\">{}</script></body></html>";
    assert!(matches!(load_next_data(body), Err(TransitError::NextDataNotFound)));
}

#[test]
fn test_load_next_data_invalid_json() {
    assert!(matches!(load_next_data("{not json"), Err(TransitError::InvalidJson)));
    let body = "<html><body><script id=\"__NEXT_DATA__\">oops</script></body></html>";
    assert!(matches!(load_next_data(body), Err(TransitError::InvalidJson)));
}

#[test]
fn test_full_pipeline_from_html() {
    let payload = "{\"props\": {\"pageProps\": {\
        \"naviSearchParam\": {\
            \"displayInfo\": {\"fromName\": \"A\", \"toName\": \"B\"},\
            \"featureInfoList\": [{\"edgeInfoList\": [\
                {\"stationName\": \"A\", \"timeInfo\": [{\"time\": \"08:50\"}]},\
                {\"stationName\": \"B\", \"timeInfo\": [{\"time\": \"08:55\"}]}\
            ]}]},\
        \"pageQuery\": {\"y\": \"2025\", \"m\": \"12\", \"d\": \"18\", \"hh\": \"9\", \"m1\": \"3\", \"m2\": \"0\"}\
    }}}";
    let body = format!(
        "<html><body><script id=\"__NEXT_DATA__\" type=\"application/json\">{}</script></body></html>",
        payload
    );
    let tree = load_next_data(&body).unwrap();
    let result = next_data_to_transit_dto(&tree).unwrap();
    assert_eq!(result.from, "A");
    assert_eq!(result.search_date_time, Some(dt(2025, 12, 18, 9, 30)));
    assert_eq!(result.routes.len(), 1);
    let segments = &result.routes[0].segments;
    assert_eq!(segments.len(), 1);
    assert_eq!(segments[0].departure_time, Some(dt(2025, 12, 18, 8, 50)));
    assert_eq!(segments[0].arrival_time, Some(dt(2025, 12, 18, 8, 55)));
}
