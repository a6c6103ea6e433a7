use power_meter::datagram::{Datagram, Message, RawEntry, RawValue, Time};
use power_meter::obis::{lookup, Field, ObisCode, ObisLengthError};
use power_meter::reading::{MeterReading, ScaledValue, StructureError};
use power_meter::unit::Unit;

fn entry(id: [u8; 6], value: RawValue, scaler: Option<i8>, unit: Option<u8>, time: Option<Time>) -> RawEntry {
    RawEntry { obj_name: id.to_vec(), value, scaler, unit, val_time: time }
}

fn datagram(entries: Vec<RawEntry>) -> Datagram {
    Datagram {
        messages: vec![Message::OpenResponse, Message::GetListResponse(entries), Message::CloseResponse],
    }
}

const INBOUND: [u8; 6] = [1, 0, 1, 8, 0, 255];
const OUTBOUND: [u8; 6] = [1, 0, 2, 8, 0, 255];
const NET: [u8; 6] = [1, 0, 16, 7, 0, 255];
const L1: [u8; 6] = [1, 0, 36, 7, 0, 255];
const L2: [u8; 6] = [1, 0, 56, 7, 0, 255];
const L3: [u8; 6] = [1, 0, 76, 7, 0, 255];

fn inbound_entry() -> RawEntry {
    entry(INBOUND, RawValue::U32(12345), Some(-2), Some(30), Some(Time::SecIndex(100)))
}

#[test]
fn inbound_entry_is_scaled_with_unit_and_time() {
    let r = MeterReading::parse(&datagram(vec![inbound_entry()])).unwrap();
    assert_eq!(r.total_energy_inbound, Some(ScaledValue { raw: 12345, scaler: -2 }));
    assert_eq!(r.total_energy_inbound.unwrap().to_text(), "123.45");
    let v = r.total_energy_inbound.unwrap();
    assert!((v.raw as f64 * 10f64.powi(v.scaler as i32) - 123.45).abs() < 1e-9);
    assert_eq!(r.total_energy_inbound_unit, Some(Unit::WattHour));
    assert_eq!(r.meter_time, Some(100));
    assert_eq!(r.total_energy_outbound, None);
    assert_eq!(r.current_net_power, None);
    assert_eq!(r.line_one, None);
}

#[test]
fn two_messages_is_a_structure_error() {
    let d = Datagram { messages: vec![Message::OpenResponse, Message::GetListResponse(vec![inbound_entry()])] };
    assert_eq!(MeterReading::parse(&d), Err(StructureError::MessageCount(2)));
}

#[test]
fn other_message_counts_are_structure_errors() {
    let empty = Datagram { messages: vec![] };
    assert_eq!(MeterReading::parse(&empty), Err(StructureError::MessageCount(0)));
    let four = Datagram {
        messages: vec![
            Message::OpenResponse,
            Message::GetListResponse(vec![inbound_entry()]),
            Message::CloseResponse,
            Message::CloseResponse,
        ],
    };
    assert_eq!(MeterReading::parse(&four), Err(StructureError::MessageCount(4)));
}

#[test]
fn second_message_must_be_a_value_list() {
    let d = Datagram {
        messages: vec![Message::GetListResponse(vec![inbound_entry()]), Message::OpenResponse, Message::CloseResponse],
    };
    assert_eq!(MeterReading::parse(&d), Err(StructureError::UnexpectedMessage));
}

#[test]
fn unknown_identifier_is_ignored() {
    let unknown = entry([1, 0, 96, 1, 0, 255], RawValue::U32(7), Some(0), Some(27), None);
    let with = MeterReading::parse(&datagram(vec![unknown.clone(), inbound_entry()])).unwrap();
    let without = MeterReading::parse(&datagram(vec![inbound_entry()])).unwrap();
    assert_eq!(with, without);
    let alone = MeterReading::parse(&datagram(vec![unknown])).unwrap();
    assert_eq!(alone, MeterReading::empty());
}

#[test]
fn malformed_identifier_is_skipped() {
    let short = RawEntry { obj_name: vec![1, 0, 1, 8, 0], value: RawValue::U8(1), scaler: None, unit: None, val_time: None };
    let r = MeterReading::parse(&datagram(vec![short, inbound_entry()])).unwrap();
    assert_eq!(r.total_energy_inbound, Some(ScaledValue { raw: 12345, scaler: -2 }));
}

#[test]
fn non_integer_value_leaves_field_absent() {
    let bytes = entry(NET, RawValue::Bytes(vec![1, 2]), Some(0), Some(27), None);
    let flag = entry(L1, RawValue::Bool(true), None, Some(27), None);
    let time = entry(L2, RawValue::TimeList(Time::SecIndex(5)), None, Some(27), None);
    let r = MeterReading::parse(&datagram(vec![bytes, inbound_entry(), flag, time])).unwrap();
    assert_eq!(r.current_net_power, None);
    assert_eq!(r.current_net_power_unit, None);
    assert_eq!(r.line_one, None);
    assert_eq!(r.line_two, None);
    assert_eq!(r.total_energy_inbound, Some(ScaledValue { raw: 12345, scaler: -2 }));
    assert_eq!(r.meter_time, Some(100));
}

#[test]
fn every_known_identifier_is_scaled() {
    let d = datagram(vec![
        entry(INBOUND, RawValue::U64(81896973), Some(-1), Some(30), Some(Time::SecIndex(7))),
        entry(OUTBOUND, RawValue::U32(42), Some(2), Some(30), Some(Time::SecIndex(8))),
        entry(NET, RawValue::I32(-613), None, Some(27), None),
        entry(L1, RawValue::I16(2350), Some(-1), Some(27), None),
        entry(L2, RawValue::U8(5), Some(-3), Some(27), None),
        entry(L3, RawValue::I64(i64::MIN), Some(0), Some(99), None),
    ]);
    let r = MeterReading::parse(&d).unwrap();
    assert_eq!(r.total_energy_inbound, Some(ScaledValue { raw: 81896973, scaler: -1 }));
    assert_eq!(r.total_energy_outbound, Some(ScaledValue { raw: 42, scaler: 2 }));
    assert_eq!(r.total_energy_outbound.unwrap().to_text(), "4200");
    assert_eq!(r.current_net_power, Some(ScaledValue { raw: -613, scaler: 0 }));
    assert_eq!(r.line_one.unwrap().to_text(), "235.0");
    assert_eq!(r.line_two.unwrap().to_text(), "0.005");
    assert_eq!(r.line_three, Some(ScaledValue { raw: i64::MIN as i128, scaler: 0 }));
    assert_eq!(r.line_three_unit, None);
    assert_eq!(r.line_one_unit, Some(Unit::Watt));
    assert_eq!(r.total_energy_inbound_unit, Some(Unit::WattHour));
    // the outbound total comes last among the energy totals, so its time is kept
    assert_eq!(r.meter_time, Some(8));
}

#[test]
fn energy_total_without_time_clears_meter_time() {
    let d = datagram(vec![inbound_entry(), entry(OUTBOUND, RawValue::U32(1), None, Some(30), None)]);
    let r = MeterReading::parse(&d).unwrap();
    assert_eq!(r.meter_time, None);
    assert_eq!(r.total_energy_inbound, Some(ScaledValue { raw: 12345, scaler: -2 }));
}

#[test]
fn duplicate_identifier_last_entry_wins() {
    let d = datagram(vec![inbound_entry(), entry(INBOUND, RawValue::U16(9), Some(1), Some(30), Some(Time::SecIndex(3)))]);
    let r = MeterReading::parse(&d).unwrap();
    assert_eq!(r.total_energy_inbound, Some(ScaledValue { raw: 9, scaler: 1 }));
    assert_eq!(r.meter_time, Some(3));
}

#[test]
fn empty_value_list_gives_empty_reading() {
    assert_eq!(MeterReading::parse(&datagram(vec![])).unwrap(), MeterReading::empty());
}

#[test]
fn unit_codes_resolve() {
    assert_eq!(Unit::from_u8(30), Some(Unit::WattHour));
    assert_eq!(Unit::from_u8(27), Some(Unit::Watt));
    assert_eq!(Unit::from_u8(33), Some(Unit::Ampere));
    assert_eq!(Unit::from_u8(35), Some(Unit::Volt));
    assert_eq!(Unit::from_u8(255), Some(Unit::Unitless));
    assert_eq!(Unit::from_u8(0), None);
    assert_eq!(Unit::from_u8(200), None);
    assert_eq!(Unit::WattHour.symbol(), "Wh");
    assert_eq!(Unit::Unitless.symbol(), "none");
}

#[test]
fn identifiers_parse_from_six_bytes() {
    assert_eq!(ObisCode::try_from_octet_str(&INBOUND), Ok(ObisCode::new(1, 0, 1, 8, 0, 255)));
    assert_eq!(ObisCode::try_from_octet_str(&[1, 2, 3]), Err(ObisLengthError { len: 3 }));
    assert_eq!(ObisCode::try_from_octet_str(&[0; 7]), Err(ObisLengthError { len: 7 }));
    assert_eq!(ObisCode::new(1, 0, 76, 7, 0, 255).to_bytes(), L3.to_vec());
}

#[test]
fn identifier_table_lookup() {
    assert_eq!(lookup(&ObisCode::new(1, 0, 1, 8, 0, 255)), Some(Field::TotalInbound));
    assert_eq!(lookup(&ObisCode::new(1, 0, 2, 8, 0, 255)), Some(Field::TotalOutbound));
    assert_eq!(lookup(&ObisCode::new(1, 0, 16, 7, 0, 255)), Some(Field::NetPower));
    assert_eq!(lookup(&ObisCode::new(1, 0, 36, 7, 0, 255)), Some(Field::LineOne));
    assert_eq!(lookup(&ObisCode::new(1, 0, 56, 7, 0, 255)), Some(Field::LineTwo));
    assert_eq!(lookup(&ObisCode::new(1, 0, 76, 7, 0, 255)), Some(Field::LineThree));
    assert_eq!(lookup(&ObisCode::new(1, 0, 1, 8, 1, 255)), None);
    assert_eq!(Field::NetPower.code(), ObisCode::new(1, 0, 16, 7, 0, 255));
    assert!(Field::TotalOutbound.is_energy_total());
    assert!(!Field::LineTwo.is_energy_total());
}
