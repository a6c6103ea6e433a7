//! The bus messages that a reading is published as: one JSON object per
//! present field, on one topic, with a delivery guarantee per field.
use vstd::prelude::*;

use crate::obis::Field;
use crate::reading::{MeterReading, ScaledValue};
use crate::reading::pow10;
use crate::text::{
    decimal_value, lemma_number_text_round_trip, lemma_scan_nat_text, nat_text, number_text,
    push_nat,
};
use crate::unit::Unit;

verus! {

/// The topic that readings are published on.
pub const MQTT_TOPIC_PREFIX: &'static str = "power-meter/1-HLY03-0207-2343";

/// Delivery guarantee of a bus message.
#[derive(Clone, Copy, Debug, PartialEq, Eq, Structural)]
pub enum Qos {
    AtMostOnce,
    AtLeastOnce,
}

/// One message for the bus.
#[derive(Clone, Debug)]
pub struct BusMessage {
    pub topic: String,
    pub qos: Qos,
    pub payload: String,
}

/// What a bus message holds, as text.
pub struct BusMessageView {
    pub topic: Seq<char>,
    pub qos: Qos,
    pub payload: Seq<char>,
}

impl View for BusMessage {
    type V = BusMessageView;

    open spec fn view(&self) -> BusMessageView {
        BusMessageView { topic: self.topic@, qos: self.qos, payload: self.payload@ }
    }
}

impl Field {
    /// The JSON key a field is published under.
    pub open spec fn spec_json_key(self) -> Seq<char> {
        match self {
            Field::TotalInbound => "total_inbound"@,
            Field::TotalOutbound => "total_outbound"@,
            Field::NetPower => "current_net_power"@,
            Field::LineOne => "line_one"@,
            Field::LineTwo => "line_two"@,
            Field::LineThree => "line_three"@,
        }
    }

    /// Energy totals and net power are delivered at least once; the phase
    /// powers at most once.
    pub open spec fn spec_qos(self) -> Qos {
        match self {
            Field::LineOne | Field::LineTwo | Field::LineThree => Qos::AtMostOnce,
            _ => Qos::AtLeastOnce,
        }
    }

    /// The JSON key a field is published under.
    pub fn json_key(&self) -> (r: &'static str)
        ensures
            r@ == self.spec_json_key(),
    {
        match self {
            Field::TotalInbound => "total_inbound",
            Field::TotalOutbound => "total_outbound",
            Field::NetPower => "current_net_power",
            Field::LineOne => "line_one",
            Field::LineTwo => "line_two",
            Field::LineThree => "line_three",
        }
    }

    /// The delivery guarantee of the field's messages.
    pub fn qos(&self) -> (r: Qos)
        ensures
            r == self.spec_qos(),
    {
        match self {
            Field::LineOne | Field::LineTwo | Field::LineThree => Qos::AtMostOnce,
            _ => Qos::AtLeastOnce,
        }
    }
}

/// The part of a payload before the value: `{ "timestamp": <t>, "<key>": `
pub open spec fn payload_head(t: u32, f: Field) -> Seq<char> {
    "{ \"timestamp\": "@ + nat_text(t as nat) + ", \""@ + f.spec_json_key() + "\": "@
}

/// The part of a payload after the value: `, "unit": "<unit>" }`
pub open spec fn payload_tail(u: Unit) -> Seq<char> {
    ", \"unit\": \""@ + u.spec_symbol() + "\" }"@
}

/// `{ "timestamp": <t>, "<key>": <value>, "unit": "<unit>" }`
pub open spec fn payload_text(t: u32, f: Field, v: ScaledValue, u: Unit) -> Seq<char> {
    payload_head(t, f) + number_text(v) + payload_tail(u)
}

/// The message for one field: present when the reading has a meter time and
/// the field has both a value and a unit.
pub open spec fn field_message(r: MeterReading, f: Field) -> Option<BusMessageView> {
    match (r.meter_time, r.value_of(f), r.unit_of(f)) {
        (Some(t), Some(v), Some(u)) => Some(
            BusMessageView {
                topic: MQTT_TOPIC_PREFIX@,
                qos: f.spec_qos(),
                payload: payload_text(t, f, v, u),
            },
        ),
        _ => None,
    }
}

/// An optional item as a sequence of zero or one items.
pub open spec fn opt_seq<T>(o: Option<T>) -> Seq<T> {
    match o {
        Some(x) => seq![x],
        None => Seq::empty(),
    }
}

/// The messages of a reading, in field order: inbound and outbound totals,
/// net power, then the three phases.
pub open spec fn messages_of(r: MeterReading) -> Seq<BusMessageView> {
    opt_seq(field_message(r, Field::TotalInbound)) + opt_seq(field_message(r, Field::TotalOutbound))
        + opt_seq(field_message(r, Field::NetPower)) + opt_seq(field_message(r, Field::LineOne))
        + opt_seq(field_message(r, Field::LineTwo)) + opt_seq(field_message(r, Field::LineThree))
}

/// The views of a list of messages.
pub open spec fn views(ms: Seq<BusMessage>) -> Seq<BusMessageView> {
    ms.map_values(|m: BusMessage| m@)
}

/// The JSON payload of one field's message.
pub fn payload(t: u32, f: Field, v: &ScaledValue, u: Unit) -> (r: String)
    ensures
        r@ == payload_text(t, f, *v, u),
{
    let mut s = String::from_str("{ \"timestamp\": ");
    push_nat(&mut s, t as u128);
    s.append(", \"");
    s.append(f.json_key());
    s.append("\": ");
    v.push_text(&mut s);
    s.append(", \"unit\": \"");
    s.append(u.symbol());
    s.append("\" }");
    assert(s@ =~= payload_text(t, f, *v, u));
    s
}

fn push_field_message(out: &mut Vec<BusMessage>, r: &MeterReading, f: Field)
    ensures
        views(final(out)@) == views(old(out)@) + opt_seq(field_message(*r, f)),
{
    let value = match f {
        Field::TotalInbound => &r.total_energy_inbound,
        Field::TotalOutbound => &r.total_energy_outbound,
        Field::NetPower => &r.current_net_power,
        Field::LineOne => &r.line_one,
        Field::LineTwo => &r.line_two,
        Field::LineThree => &r.line_three,
    };
    let unit = match f {
        Field::TotalInbound => r.total_energy_inbound_unit,
        Field::TotalOutbound => r.total_energy_outbound_unit,
        Field::NetPower => r.current_net_power_unit,
        Field::LineOne => r.line_one_unit,
        Field::LineTwo => r.line_two_unit,
        Field::LineThree => r.line_three_unit,
    };
    assert(*value == r.value_of(f) && unit == r.unit_of(f));
    match (r.meter_time, value, unit) {
        (Some(t), Some(v), Some(u)) => {
            let m = BusMessage {
                topic: String::from_str(MQTT_TOPIC_PREFIX),
                qos: f.qos(),
                payload: payload(t, f, v, u),
            };
            out.push(m);
            assert(views(final(out)@) =~= views(old(out)@) + opt_seq(field_message(*r, f)));
        },
        _ => {
            assert(views(final(out)@) =~= views(old(out)@) + opt_seq(field_message(*r, f)));
        },
    }
}

/// The messages a reading is published as: for each field with a value and
/// a unit, when the reading has a meter time, one JSON message.
pub fn bus_messages(reading: &MeterReading) -> (r: Vec<BusMessage>)
    ensures
        views(r@) == messages_of(*reading),
{
    let mut out: Vec<BusMessage> = Vec::new();
    assert(views(out@) =~= Seq::<BusMessageView>::empty());
    push_field_message(&mut out, reading, Field::TotalInbound);
    push_field_message(&mut out, reading, Field::TotalOutbound);
    push_field_message(&mut out, reading, Field::NetPower);
    push_field_message(&mut out, reading, Field::LineOne);
    push_field_message(&mut out, reading, Field::LineTwo);
    push_field_message(&mut out, reading, Field::LineThree);
    assert(views(out@) =~= messages_of(*reading));
    out
}

/// Round trip of a published field: its message's payload is the head
/// with the meter time and the key, the value's decimal text, and the tail
/// with the unit; the time and the value text read back as the meter time
/// and as exactly the value the reading holds.
pub proof fn lemma_payload_round_trip(r: MeterReading, f: Field)
    requires
        field_message(r, f) is Some,
    ensures
        ({
            let t = r.meter_time->Some_0;
            let v = r.value_of(f)->Some_0;
            &&& field_message(r, f)->Some_0.payload == payload_head(t, f) + number_text(v)
                + payload_tail(r.unit_of(f)->Some_0)
            &&& decimal_value(nat_text(t as nat)) == Some((t as int, 0nat))
            &&& decimal_value(number_text(v)) matches Some((n, k)) && n == v.numerator() && pow10(
                k,
            ) == v.denominator()
        }),
{
    let t = r.meter_time->Some_0;
    lemma_number_text_round_trip(r.value_of(f)->Some_0);
    lemma_scan_nat_text(t as nat);
    assert(nat_text(t as nat)[0] != '-');
}

} // verus!
