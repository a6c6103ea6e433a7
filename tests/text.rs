use power_meter::reading::{MeterReading, ScaledValue};
use power_meter::text::map_unknown;
use power_meter::unit::Unit;

fn text(raw: i128, scaler: i8) -> String {
    ScaledValue { raw, scaler }.to_text()
}

#[test]
fn decimal_text_of_scaled_values() {
    assert_eq!(text(12345, -2), "123.45");
    assert_eq!(text(2350, -1), "235.0");
    assert_eq!(text(5, -3), "0.005");
    assert_eq!(text(-7, -1), "-0.7");
    assert_eq!(text(0, 0), "0");
    assert_eq!(text(0, 3), "0");
    assert_eq!(text(0, -2), "0.00");
    assert_eq!(text(42, 0), "42");
    assert_eq!(text(42, 2), "4200");
    assert_eq!(text(-613, 0), "-613");
    assert_eq!(text(1, -45), format!("0.{}1", "0".repeat(44)));
}

#[test]
fn decimal_text_of_extreme_values() {
    assert_eq!(text(i128::MIN, 0), "-170141183460469231731687303715884105728");
    assert_eq!(text(i128::MAX, -38), "1.70141183460469231731687303715884105727");
    assert_eq!(text(u64::MAX as i128, 0), "18446744073709551615");
}

#[test]
fn decimal_text_parses_back_as_float() {
    for (raw, scaler) in [(12345i128, -2i8), (2350, -1), (5, -3), (-7, -1), (81896973, -1), (42, 2)] {
        let parsed: f64 = text(raw, scaler).parse().unwrap();
        let expected = raw as f64 * 10f64.powi(scaler as i32);
        assert!((parsed - expected).abs() <= 1e-9 * expected.abs().max(1.0));
    }
}

#[test]
fn map_unknown_passes_text_or_says_unknown() {
    assert_eq!(map_unknown(Some("12".to_string())), "12");
    assert_eq!(map_unknown(None), "Unknown");
}

fn sample_reading() -> MeterReading {
    let mut r = MeterReading::empty();
    r.meter_time = Some(100);
    r.total_energy_inbound = Some(ScaledValue { raw: 12345, scaler: -2 });
    r.total_energy_inbound_unit = Some(Unit::WattHour);
    r.current_net_power = Some(ScaledValue { raw: 613, scaler: 0 });
    r.current_net_power_unit = Some(Unit::Watt);
    r.line_one = Some(ScaledValue { raw: 2350, scaler: -1 });
    r
}

#[test]
fn compact_display() {
    assert_eq!(
        sample_reading().display_compact(),
        "100s, 123.45 Wh, Unknown Unknown, 613 W, 235.0 Unknown, Unknown Unknown, Unknown Unknown"
    );
    assert_eq!(
        MeterReading::empty().display_compact(),
        "Unknowns, Unknown Unknown, Unknown Unknown, Unknown Unknown, Unknown Unknown, Unknown Unknown, Unknown Unknown"
    );
}

#[test]
fn full_description() {
    assert_eq!(
        sample_reading().describe(),
        "Meter Time: 100\n\
         Total Energy Inbound: 123.45 Wh\n\
         Total Energy Outbound: Unknown Unknown\n\
         Current Power: 613 W\n\
         Line One: 235.0 Unknown\n\
         Line Two: Unknown Unknown\n\
         Line Three: Unknown Unknown\n"
    );
}
