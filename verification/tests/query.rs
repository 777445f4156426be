use yxhoo_transit::args::{
    default_available_means, default_rank, AvailableMeans, DateKind, SeatPreference,
    SuggestPlaceArgs, TransitArgs, TransitCriteria, TransitOptions, TransitTicketPreference,
    WalkingSpeed,
};
use yxhoo_transit::datetime::DateTimeMinute;
use yxhoo_transit::query::{encode_suggest_query, encode_transit_query, minute_digits};

fn args_at(minute: u32) -> TransitArgs {
    TransitArgs {
        from: "新宿".to_string(),
        to: "渋谷".to_string(),
        date: DateTimeMinute {
            year: 2024,
            month: 7,
            day: 1,
            hour: 9,
            minute,
            offset_minutes: 540,
        },
        date_kind: DateKind::DepartureTime,
        criteria: None,
        rank: 1,
        options: None,
    }
}

fn pair(q: &[(String, String)], i: usize, k: &str, v: &str) {
    assert_eq!(q[i].0, k);
    assert_eq!(q[i].1, v);
}

#[test]
fn test_defaults_when_options_omitted() {
    let q = encode_transit_query(&args_at(47));
    assert_eq!(q.len(), 20);
    pair(&q, 0, "from", "新宿");
    pair(&q, 1, "to", "渋谷");
    pair(&q, 2, "y", "2024");
    pair(&q, 3, "m", "7");
    pair(&q, 4, "d", "1");
    pair(&q, 5, "hh", "9");
    // minute 47 splits into a tens field and a ones field
    pair(&q, 6, "m1", "4");
    pair(&q, 7, "m2", "7");
    pair(&q, 8, "type", "1");
    pair(&q, 9, "s", "0");
    pair(&q, 10, "no", "1");
    pair(&q, 11, "ticket", "normal");
    pair(&q, 12, "expkind", "1");
    pair(&q, 13, "ws", "3");
    for (i, key) in ["al", "shin", "ex", "hb", "lb", "sr"].iter().enumerate() {
        pair(&q, 14 + i, key, "1");
    }
}

#[test]
fn test_explicit_options_and_criteria() {
    let mut args = args_at(5);
    args.date_kind = DateKind::ArrivalTime;
    args.criteria = Some(TransitCriteria::FewestTransfers);
    args.rank = 3;
    args.options = Some(TransitOptions {
        ticket_preference: TransitTicketPreference::IC,
        seat_preference: SeatPreference::GreenCar,
        walking_speed: WalkingSpeed::Fast,
        available_means: vec![AvailableMeans::Shinkansen, AvailableMeans::Bus],
    });
    let q = encode_transit_query(&args);
    pair(&q, 6, "m1", "0");
    pair(&q, 7, "m2", "5");
    pair(&q, 8, "type", "4");
    pair(&q, 9, "s", "2");
    pair(&q, 10, "no", "3");
    pair(&q, 11, "ticket", "ic");
    pair(&q, 12, "expkind", "3");
    pair(&q, 13, "ws", "1");
    pair(&q, 14, "al", "0");
    pair(&q, 15, "shin", "1");
    pair(&q, 16, "ex", "0");
    pair(&q, 17, "hb", "0");
    pair(&q, 18, "lb", "1");
    pair(&q, 19, "sr", "0");
}

#[test]
fn test_minute_digits() {
    assert_eq!(minute_digits(47), (4, 7));
    assert_eq!(minute_digits(0), (0, 0));
    assert_eq!(minute_digits(59), (5, 9));
    assert_eq!(minute_digits(7), (0, 7));
}

#[test]
fn test_protocol_codes() {
    assert_eq!(DateKind::DepartureTime.as_u32(), 1);
    assert_eq!(DateKind::LastTrain.as_u32(), 2);
    assert_eq!(DateKind::FirstTrain.as_u32(), 3);
    assert_eq!(DateKind::ArrivalTime.as_u32(), 4);
    assert_eq!(DateKind::NotSpecified.as_u32(), 5);
    assert_eq!(TransitCriteria::EarliestArrival.as_u32(), 0);
    assert_eq!(TransitCriteria::LowestCost.as_u32(), 1);
    assert_eq!(TransitCriteria::FewestTransfers.as_u32(), 2);
    assert_eq!(SeatPreference::NonReserved.as_u32(), 1);
    assert_eq!(SeatPreference::Reserved.as_u32(), 2);
    assert_eq!(SeatPreference::GreenCar.as_u32(), 3);
    assert_eq!(WalkingSpeed::Fast.as_u32(), 1);
    assert_eq!(WalkingSpeed::Brisk.as_u32(), 2);
    assert_eq!(WalkingSpeed::Leisurely.as_u32(), 3);
    assert_eq!(WalkingSpeed::Slow.as_u32(), 4);
    assert_eq!(TransitTicketPreference::Normal.as_str(), "normal");
    assert_eq!(TransitTicketPreference::IC.as_str(), "ic");
    assert_eq!(AvailableMeans::Airlane.as_str(), "al");
    assert_eq!(AvailableMeans::Shinkansen.as_str(), "shin");
    assert_eq!(AvailableMeans::PaidExpress.as_str(), "ex");
    assert_eq!(AvailableMeans::HighwayBus.as_str(), "hb");
    assert_eq!(AvailableMeans::Bus.as_str(), "lb");
    assert_eq!(AvailableMeans::Ferry.as_str(), "sr");
}

#[test]
fn test_argument_defaults() {
    assert_eq!(default_rank(), 1);
    assert_eq!(
        default_available_means(),
        vec![
            AvailableMeans::Airlane,
            AvailableMeans::Shinkansen,
            AvailableMeans::PaidExpress,
            AvailableMeans::HighwayBus,
            AvailableMeans::Bus,
            AvailableMeans::Ferry,
        ]
    );
    let options = TransitOptions::default();
    assert_eq!(options.ticket_preference, TransitTicketPreference::Normal);
    assert_eq!(options.seat_preference, SeatPreference::NonReserved);
    assert_eq!(options.walking_speed, WalkingSpeed::Leisurely);
    assert_eq!(options.available_means.len(), 6);
    assert_eq!(DateKind::default(), DateKind::DepartureTime);
    assert_eq!(TransitCriteria::default(), TransitCriteria::EarliestArrival);
}

#[test]
fn test_suggest_query() {
    let args = SuggestPlaceArgs { query: "新宿".to_string() };
    let q = encode_suggest_query(&args);
    assert_eq!(q.len(), 1);
    assert_eq!(q[0].0, "value");
    assert_eq!(q[0].1, "新宿");
}
