use power_meter::cell::LatestReadingCell;
use power_meter::cli::StartCommand;
use power_meter::core_loop::{handle_event, handle_frame, ingest, record, CoreLoop, Ingested};
use power_meter::datagram::{Datagram, Message, RawEntry, RawValue, Time};
use power_meter::reading::{MeterReading, ScaledValue, StructureError};
use power_meter::sml::{datagram_from_file, FrameEvent};
use sml_rs::parser::common::{CloseResponse, ListEntry, Time as SmlTime, Value};
use sml_rs::parser::complete::{File, GetListResponse, Message as SmlMessage, MessageBody};
use power_meter::unit::Unit;

const SAMPLE_HEX: &str = "1b1b1b1b010101017609e4060000099987d96200620072650000010176010109000000000333342c0b0a01495452000348f58e72620165033336980163c6a3007609e4060000099987da6200620072650000070177010b0a01495452000348f58e070100620affff726201650333369874770701006032010101010101044954520177070100600100ff010101010b0a01495452000348f58e0177070100010800ff65001c010401621e52ff690000000004e1a20d0177070100100700ff0101621b5200550000026501010163dd64007609e4060000099987db62006200726500000201710163419a0000001b1b1b1b1a02eb0f";

fn sample_bytes() -> Vec<u8> {
    (0..SAMPLE_HEX.len() / 2).map(|i| u8::from_str_radix(&SAMPLE_HEX[2 * i..2 * i + 2], 16).unwrap()).collect()
}

fn inbound_datagram(count: usize) -> Datagram {
    let e = RawEntry {
        obj_name: vec![1, 0, 1, 8, 0, 255],
        value: RawValue::U32(12345),
        scaler: Some(-2),
        unit: Some(30),
        val_time: Some(Time::SecIndex(100)),
    };
    let mut messages = vec![Message::OpenResponse, Message::GetListResponse(vec![e]), Message::CloseResponse];
    messages.truncate(count);
    Datagram { messages }
}

#[test]
fn store_then_take_then_take() {
    let mut cell = LatestReadingCell::new();
    assert!(cell.take().is_none());
    let mut r = MeterReading::empty();
    r.meter_time = Some(5);
    cell.store(r);
    assert_eq!(cell.take(), Some(r));
    assert_eq!(cell.take(), None);
}

#[test]
fn later_store_replaces_earlier() {
    let mut cell = LatestReadingCell::new();
    let mut a = MeterReading::empty();
    a.meter_time = Some(1);
    let mut b = MeterReading::empty();
    b.meter_time = Some(2);
    cell.store(a);
    cell.store(b);
    assert_eq!(cell.take(), Some(b));
    assert_eq!(cell.take(), None);
}

#[test]
fn well_formed_datagram_is_stored_and_published() {
    let mut cell = LatestReadingCell::new();
    let outcome = ingest(&inbound_datagram(3));
    record(&outcome, &mut cell);
    match outcome {
        Ingested::Reading(r, ms) => {
            assert_eq!(r.total_energy_inbound, Some(ScaledValue { raw: 12345, scaler: -2 }));
            assert_eq!(ms.len(), 1);
            assert_eq!(ms[0].payload, "{ \"timestamp\": 100, \"total_inbound\": 123.45, \"unit\": \"Wh\" }");
            assert_eq!(cell.take(), Some(r));
        },
        other => panic!("unexpected {:?}", other),
    }
}

#[test]
fn two_message_datagram_leaves_cell_untouched() {
    let mut cell = LatestReadingCell::new();
    let mut held = MeterReading::empty();
    held.meter_time = Some(9);
    cell.store(held);
    let outcome = ingest(&inbound_datagram(2));
    record(&outcome, &mut cell);
    match outcome {
        Ingested::StructureError(e) => assert_eq!(e, StructureError::MessageCount(2)),
        other => panic!("unexpected {:?}", other),
    }
    assert_eq!(cell.take(), Some(held));

    let mut empty_cell = LatestReadingCell::new();
    record(&ingest(&inbound_datagram(2)), &mut empty_cell);
    assert_eq!(empty_cell.take(), None);
}

#[test]
fn undecodable_frame_is_a_parse_error() {
    assert!(matches!(handle_frame(&[0xde, 0xad, 0xbe, 0xef]), Ingested::ParseError));
}

#[test]
fn decoder_events_without_frames() {
    let mut cell = LatestReadingCell::new();
    let pending = handle_event(FrameEvent::Pending);
    assert!(matches!(pending, Ingested::Pending));
    record(&pending, &mut cell);
    let framing = handle_event(FrameEvent::FramingError);
    assert!(matches!(framing, Ingested::FramingError));
    record(&framing, &mut cell);
    assert_eq!(cell.take(), None);
}

fn feed(core: &mut CoreLoop, cell: &mut LatestReadingCell, bytes: &[u8]) -> Vec<(usize, MeterReading, Vec<power_meter::publish::BusMessage>)> {
    let mut readings = Vec::new();
    for (i, b) in bytes.iter().enumerate() {
        let outcome = core.push_byte(*b);
        record(&outcome, cell);
        match outcome {
            Ingested::Pending | Ingested::FramingError => {},
            Ingested::Reading(r, ms) => readings.push((i, r, ms)),
            other => panic!("unexpected {:?} at byte {}", other, i),
        }
    }
    readings
}

#[test]
fn sample_transmission_yields_a_reading() {
    let mut core = CoreLoop::new("/dev/ttyUSB0".to_string(), false);
    let mut cell = LatestReadingCell::new();
    let bytes = sample_bytes();
    let readings = feed(&mut core, &mut cell, &bytes);
    assert_eq!(readings.len(), 1);
    let (at, r, ms) = &readings[0];
    assert_eq!(*at, bytes.len() - 1);
    assert_eq!(r.total_energy_inbound, Some(ScaledValue { raw: 81895949, scaler: -1 }));
    assert_eq!(r.total_energy_inbound_unit, Some(Unit::WattHour));
    assert_eq!(r.current_net_power, Some(ScaledValue { raw: 613, scaler: 0 }));
    assert_eq!(r.current_net_power_unit, Some(Unit::Watt));
    assert_eq!(r.meter_time, None);
    assert_eq!(r.total_energy_outbound, None);
    assert!(ms.is_empty());
    assert_eq!(cell.take(), Some(*r));
    assert_eq!(core.port(), "/dev/ttyUSB0");
    assert!(!core.verbose());
}

#[test]
fn long_noise_without_start_sequence_does_not_stop_decoding() {
    let mut core = CoreLoop::new("p".to_string(), false);
    let mut cell = LatestReadingCell::new();
    let mut noise = vec![0u8; 70_000];
    // unfinished start sequences, each broken off by a byte that does not fit
    for (i, b) in noise.iter_mut().enumerate() {
        if i % 8 < 7 {
            *b = 0x1b;
        }
    }
    assert!(feed(&mut core, &mut cell, &noise).is_empty());
    assert!(feed(&mut core, &mut cell, &vec![0u8; 70_000]).is_empty());
    let readings = feed(&mut core, &mut cell, &sample_bytes());
    assert_eq!(readings.len(), 1);
    assert_eq!(readings[0].1.current_net_power, Some(ScaledValue { raw: 613, scaler: 0 }));
}

#[test]
fn corrupted_transmission_yields_no_reading() {
    let mut core = CoreLoop::new("p".to_string(), true);
    let mut cell = LatestReadingCell::new();
    let mut bytes = sample_bytes();
    bytes[100] ^= 0xff;
    for b in bytes {
        let outcome = core.push_byte(b);
        assert!(!matches!(outcome, Ingested::Reading(_, _)));
        record(&outcome, &mut cell);
    }
    assert_eq!(cell.take(), None);
}

#[test]
fn parsed_file_is_copied_into_the_datagram_model() {
    let name = [1u8, 0, 1, 8, 0, 255];
    let entry = ListEntry {
        obj_name: &name,
        status: None,
        val_time: Some(SmlTime::SecIndex(100)),
        unit: Some(30),
        scaler: Some(-2),
        value: Value::U32(12345),
        value_signature: None,
    };
    let bytes_entry = ListEntry {
        obj_name: &name[..3],
        status: None,
        val_time: None,
        unit: None,
        scaler: None,
        value: Value::Bytes(&name[3..]),
        value_signature: None,
    };
    let list = GetListResponse {
        client_id: None,
        server_id: &name,
        list_name: None,
        act_sensor_time: None,
        val_list: vec![entry, bytes_entry],
        list_signature: None,
        act_gateway_time: None,
    };
    let file = File {
        messages: vec![
            SmlMessage { transaction_id: &name, group_no: 0, abort_on_error: 0, message_body: MessageBody::GetListResponse(list) },
            SmlMessage { transaction_id: &name, group_no: 0, abort_on_error: 0, message_body: MessageBody::CloseResponse(CloseResponse { global_signature: None }) },
        ],
    };
    let d = datagram_from_file(&file);
    assert_eq!(
        d,
        Datagram {
            messages: vec![
                Message::GetListResponse(vec![
                    RawEntry {
                        obj_name: name.to_vec(),
                        value: RawValue::U32(12345),
                        scaler: Some(-2),
                        unit: Some(30),
                        val_time: Some(Time::SecIndex(100)),
                    },
                    RawEntry { obj_name: vec![1, 0, 1], value: RawValue::Bytes(vec![8, 0, 255]), scaler: None, unit: None, val_time: None },
                ]),
                Message::CloseResponse,
            ],
        }
    );
}

#[test]
fn start_settings_build_the_core_loop() {
    let settings = StartCommand { port: "/dev/ttyAMA0".to_string(), verbose: true };
    let core = settings.clone().core_loop();
    assert_eq!(core.port(), "/dev/ttyAMA0");
    assert!(core.verbose());
}
