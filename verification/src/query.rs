//! Pure encoding of search arguments into the provider's flat
//! query-parameter protocol.

use vstd::prelude::*;

use crate::args::{
    AvailableMeans, SuggestPlaceArgs, TransitArgs, TransitCriteria, SeatPreference,
    TransitTicketPreference, WalkingSpeed, spec_all_means,
};
use crate::text::{dec_str, u32_string};
use vstd::string::StringExecFns;

verus! {

/// The tens digit and the ones digit of a minute count, in that order.
pub fn minute_digits(min: u32) -> (r: (u32, u32))
    ensures
        r.0 == min / 10,
        r.1 == min % 10,
{
    (min / 10, min % 10)
}

/// The flag value for one transport mean: `"1"` if allowed, else `"0"`.
pub open spec fn spec_flag(means: Seq<AvailableMeans>, m: AvailableMeans) -> Seq<char> {
    if means.contains(m) {
        "1"@
    } else {
        "0"@
    }
}

/// The allowed-means set of the arguments: the explicit set when options are
/// given, else every transport mean.
pub open spec fn spec_means(a: TransitArgs) -> Seq<AvailableMeans> {
    match a.options {
        Some(o) => o.available_means@,
        None => spec_all_means(),
    }
}

/// The ordered key/value pairs of a route-search request: origin and
/// destination verbatim; the timestamp split into year, month, day, hour and
/// the two minute digits; the date-interpretation, criteria, rank, ticket,
/// seat and walking codes; and one `"1"`/`"0"` flag per transport mean.
pub open spec fn spec_transit_query(a: TransitArgs) -> Seq<(Seq<char>, Seq<char>)> {
    let ticket = match a.options {
        Some(o) => o.ticket_preference,
        None => TransitTicketPreference::Normal,
    };
    let seat = match a.options {
        Some(o) => o.seat_preference,
        None => SeatPreference::NonReserved,
    };
    let ws = match a.options {
        Some(o) => o.walking_speed,
        None => WalkingSpeed::Leisurely,
    };
    let criteria = match a.criteria {
        Some(c) => c,
        None => TransitCriteria::EarliestArrival,
    };
    let means = spec_means(a);
    seq![
        ("from"@, a.from@),
        ("to"@, a.to@),
        ("y"@, dec_str(a.date.year as int)),
        ("m"@, dec_str(a.date.month as int)),
        ("d"@, dec_str(a.date.day as int)),
        ("hh"@, dec_str(a.date.hour as int)),
        ("m1"@, dec_str(a.date.minute as int / 10)),
        ("m2"@, dec_str(a.date.minute as int % 10)),
        ("type"@, dec_str(a.date_kind.spec_code() as int)),
        ("s"@, dec_str(criteria.spec_code() as int)),
        ("no"@, dec_str(a.rank as int)),
        ("ticket"@, if ticket is IC { "ic"@ } else { "normal"@ }),
        ("expkind"@, dec_str(seat.spec_code() as int)),
        ("ws"@, dec_str(ws.spec_code() as int)),
        ("al"@, spec_flag(means, AvailableMeans::Airlane)),
        ("shin"@, spec_flag(means, AvailableMeans::Shinkansen)),
        ("ex"@, spec_flag(means, AvailableMeans::PaidExpress)),
        ("hb"@, spec_flag(means, AvailableMeans::HighwayBus)),
        ("lb"@, spec_flag(means, AvailableMeans::Bus)),
        ("sr"@, spec_flag(means, AvailableMeans::Ferry)),
    ]
}

/// Whether the allowed-means list contains `m`.
fn means_contains(v: &Vec<AvailableMeans>, m: &AvailableMeans) -> (r: bool)
    ensures
        r == v@.contains(*m),
{
    let mut i: usize = 0;
    while i < v.len()
        invariant
            i <= v@.len(),
            forall|j: int| 0 <= j < i ==> v@[j] != *m,
        decreases v@.len() - i,
    {
        if v[i] == *m {
            return true;
        }
        i = i + 1;
    }
    false
}

fn flag_string(allowed: bool) -> (r: String)
    ensures
        allowed ==> r@ == "1"@,
        !allowed ==> r@ == "0"@,
{
    if allowed {
        String::from_str("1")
    } else {
        String::from_str("0")
    }
}

fn push_kv(q: &mut Vec<(String, String)>, k: &'static str, val: String)
    ensures
        final(q)@.len() == old(q)@.len() + 1,
        forall|j: int| 0 <= j < old(q)@.len() ==> final(q)@[j] == old(q)@[j],
        final(q)@.last().0@ == k@,
        final(q)@.last().1@ == val@,
{
    q.push((String::from_str(k), val));
}

/// Encodes route-search arguments as the provider's ordered query pairs.
pub fn encode_transit_query(args: &TransitArgs) -> (r: Vec<(String, String)>)
    requires
        args.date.wf(),
    ensures
        r.deep_view() == spec_transit_query(*args),
{
    let mut q: Vec<(String, String)> = Vec::new();
    push_kv(&mut q, "from", args.from.clone());
    push_kv(&mut q, "to", args.to.clone());
    push_kv(&mut q, "y", u32_string(args.date.year as u32));
    push_kv(&mut q, "m", u32_string(args.date.month));
    push_kv(&mut q, "d", u32_string(args.date.day));
    push_kv(&mut q, "hh", u32_string(args.date.hour));
    let (m1, m2) = minute_digits(args.date.minute);
    push_kv(&mut q, "m1", u32_string(m1));
    push_kv(&mut q, "m2", u32_string(m2));
    push_kv(&mut q, "type", u32_string(args.date_kind.as_u32()));
    let criteria = match &args.criteria {
        Some(c) => *c,
        None => TransitCriteria::EarliestArrival,
    };
    push_kv(&mut q, "s", u32_string(criteria.as_u32()));
    push_kv(&mut q, "no", u32_string(args.rank));
    let (ticket, seat, ws) = match &args.options {
        Some(o) => (o.ticket_preference, o.seat_preference, o.walking_speed),
        None => (TransitTicketPreference::Normal, SeatPreference::NonReserved,
            WalkingSpeed::Leisurely),
    };
    push_kv(&mut q, "ticket", String::from_str(ticket.as_str()));
    push_kv(&mut q, "expkind", u32_string(seat.as_u32()));
    push_kv(&mut q, "ws", u32_string(ws.as_u32()));
    let default_means = crate::args::default_available_means();
    let means: &Vec<AvailableMeans> = match &args.options {
        Some(o) => &o.available_means,
        None => &default_means,
    };
    push_kv(&mut q, "al", flag_string(means_contains(means, &AvailableMeans::Airlane)));
    push_kv(&mut q, "shin", flag_string(means_contains(means, &AvailableMeans::Shinkansen)));
    push_kv(&mut q, "ex", flag_string(means_contains(means, &AvailableMeans::PaidExpress)));
    push_kv(&mut q, "hb", flag_string(means_contains(means, &AvailableMeans::HighwayBus)));
    push_kv(&mut q, "lb", flag_string(means_contains(means, &AvailableMeans::Bus)));
    push_kv(&mut q, "sr", flag_string(means_contains(means, &AvailableMeans::Ferry)));
    proof {
        assert(q.deep_view() =~~= spec_transit_query(*args));
    }
    q
}

/// Law: with options omitted, the encoded query carries the default ticket,
/// seat and walking codes, enables all six transport-mean flags, and splits
/// the minute into its tens digit and its ones digit.
pub proof fn lemma_defaults_when_options_omitted(a: TransitArgs)
    requires
        a.options is None,
    ensures
        spec_transit_query(a)[11] == ("ticket"@, "normal"@),
        spec_transit_query(a)[12] == ("expkind"@, dec_str(1)),
        spec_transit_query(a)[13] == ("ws"@, dec_str(3)),
        forall|i: int| 14 <= i < 20 ==> (#[trigger] spec_transit_query(a)[i]).1 == "1"@,
        spec_transit_query(a)[6].1 == dec_str(a.date.minute as int / 10),
        spec_transit_query(a)[7].1 == dec_str(a.date.minute as int % 10),
{
    let means = spec_means(a);
    assert(means == spec_all_means());
    assert(means.contains(AvailableMeans::Airlane)) by {
        assert(means[0] == AvailableMeans::Airlane);
    }
    assert(means.contains(AvailableMeans::Shinkansen)) by {
        assert(means[1] == AvailableMeans::Shinkansen);
    }
    assert(means.contains(AvailableMeans::PaidExpress)) by {
        assert(means[2] == AvailableMeans::PaidExpress);
    }
    assert(means.contains(AvailableMeans::HighwayBus)) by {
        assert(means[3] == AvailableMeans::HighwayBus);
    }
    assert(means.contains(AvailableMeans::Bus)) by {
        assert(means[4] == AvailableMeans::Bus);
    }
    assert(means.contains(AvailableMeans::Ferry)) by {
        assert(means[5] == AvailableMeans::Ferry);
    }
}

/// Encodes a place-suggestion request: the single free-text value parameter.
pub fn encode_suggest_query(args: &SuggestPlaceArgs) -> (r: Vec<(String, String)>)
    ensures
        r.deep_view().len() == 1,
        r.deep_view()[0].0 == "value"@,
        r.deep_view()[0].1 == args.query@,
{
    let mut q: Vec<(String, String)> = Vec::new();
    push_kv(&mut q, "value", args.query.clone());
    q
}

} // verus!
