use station_bridge::code::{Code, ParamValue};
use station_bridge::sensor::{autos_of, Sensor, Sensors};
use station_bridge::station::{Handler, Rule};

fn bits(v: f32) -> u32 {
    v.to_bits()
}

fn announce(id: u8, name: &str, unit: &str, value: f32) -> Code {
    Code::new(b'S', id)
        .with(b'N', ParamValue::str(name))
        .with(b'U', ParamValue::str(unit))
        .with(b'V', ParamValue::Float(bits(value)))
}

fn reading(id: u8, value: f32) -> Code {
    Code::new(b'S', id).with(b'V', ParamValue::Float(bits(value)))
}

fn catalogue_of_six() -> Sensors {
    let mut sensors = Sensors::new();
    for id in 0..6u8 {
        let name = format!("sensor {}", id);
        assert!(sensors.put(&announce(id, &name, "u", 1.0), 0, None));
    }
    sensors
}

fn autos(sensors: &Sensors) -> Vec<(u8, bool)> {
    sensors.iter().iter().map(|s| (s.id, s.auto)).collect()
}

#[test]
fn new_catalogue_is_empty() {
    let sensors = Sensors::new();
    assert!(sensors.iter().is_empty());
    assert_eq!(sensors.get("temperature"), None);
    assert_eq!(sensors.by_id(0), None);
    assert_eq!(sensors.by_id(255), None);
}

#[test]
fn first_record_creates_the_sensor() {
    let mut sensors = Sensors::new();
    let accepted = sensors.put(&announce(1, "temperature", "C", 20.5), 42, None);
    assert!(accepted);
    let expected = Sensor {
        name: "temperature".to_string(),
        unit: "C".to_string(),
        id: 1,
        value: bits(20.5),
        last_update: 42,
        auto: false,
    };
    assert_eq!(sensors.iter(), vec![&expected]);
    assert_eq!(sensors.get("temperature"), Some(&expected));
    assert_eq!(sensors.by_id(1), Some(&expected));
    assert_eq!(sensors.get("humidity"), None);
}

#[test]
fn later_record_updates_value_and_time_only() {
    let mut sensors = Sensors::new();
    assert!(sensors.put(&announce(1, "temperature", "C", 20.5), 10, None));
    let renamed = announce(1, "pressure", "hPa", 21.25);
    assert!(sensors.put(&renamed, 20, None));
    let s = sensors.by_id(1).unwrap();
    assert_eq!(s.name, "temperature");
    assert_eq!(s.unit, "C");
    assert_eq!(s.value, bits(21.25));
    assert_eq!(s.last_update, 20);
    assert_eq!(sensors.get("pressure"), None);
    assert!(sensors.put(&reading(1, -3.5), 30, None));
    let s = sensors.get("temperature").unwrap();
    assert_eq!(s.value, bits(-3.5));
    assert_eq!(s.last_update, 30);
    assert_eq!(sensors.iter().len(), 1);
}

#[test]
fn update_keeps_the_auto_flag() {
    let mut sensors = catalogue_of_six();
    let code = Code::new(b'M', 102).with(b'V', ParamValue::Int(0b100));
    assert!(sensors.ingest_autos(&code));
    assert!(sensors.put(&reading(2, 9.0), 5, None));
    let s = sensors.by_id(2).unwrap();
    assert!(s.auto);
    assert_eq!(s.value, bits(9.0));
}

#[test]
fn value_may_be_spelled_as_text() {
    let mut sensors = Sensors::new();
    let code = Code::new(b'S', 4)
        .with(b'V', ParamValue::str("21.5"))
        .with(b'N', ParamValue::str("humidity"))
        .with(b'U', ParamValue::str("%"));
    assert_eq!(Sensors::value_text(&code), Some(&b"21.5".to_vec()));
    let spelled = std::str::from_utf8(Sensors::value_text(&code).unwrap())
        .ok()
        .and_then(|s| s.parse::<f32>().ok())
        .map(f32::to_bits);
    assert_eq!(spelled, Some(bits(21.5)));
    assert!(sensors.put(&code, 1, spelled));
    assert_eq!(sensors.get("humidity").unwrap().value, bits(21.5));
}

#[test]
fn text_that_spells_no_number_is_refused() {
    let mut sensors = Sensors::new();
    let code = Code::new(b'S', 4)
        .with(b'V', ParamValue::str("warm"))
        .with(b'N', ParamValue::str("humidity"))
        .with(b'U', ParamValue::str("%"));
    assert!(!sensors.put(&code, 1, None));
    assert!(sensors.iter().is_empty());
}

#[test]
fn spelled_number_is_not_used_for_a_float_value() {
    let mut sensors = Sensors::new();
    assert!(sensors.put(&announce(1, "temperature", "C", 20.5), 1, Some(bits(99.0))));
    assert_eq!(sensors.by_id(1).unwrap().value, bits(20.5));
}

#[test]
fn value_text_is_absent_for_other_values() {
    assert_eq!(Sensors::value_text(&reading(1, 1.0)), None);
    assert_eq!(Sensors::value_text(&Code::new(b'S', 1)), None);
    assert_eq!(Sensors::value_text(&Code::new(b'S', 1).with(b'V', ParamValue::Int(3))), None);
}

#[test]
fn records_that_are_no_sensor_records_are_refused() {
    let mut sensors = Sensors::new();
    let other = Code::new(b'M', 1)
        .with(b'N', ParamValue::str("temperature"))
        .with(b'U', ParamValue::str("C"))
        .with(b'V', ParamValue::Float(bits(20.5)));
    assert!(!sensors.put(&other, 1, None));
    assert!(sensors.iter().is_empty());
}

#[test]
fn record_without_value_is_refused() {
    let mut sensors = Sensors::new();
    let code = Code::new(b'S', 1)
        .with(b'N', ParamValue::str("temperature"))
        .with(b'U', ParamValue::str("C"));
    assert!(!sensors.put(&code, 1, None));
    assert!(sensors.iter().is_empty());
}

#[test]
fn integer_value_is_refused() {
    let mut sensors = Sensors::new();
    let code = Code::new(b'S', 1)
        .with(b'N', ParamValue::str("temperature"))
        .with(b'U', ParamValue::str("C"))
        .with(b'V', ParamValue::Int(20));
    assert!(!sensors.put(&code, 1, Some(bits(20.0))));
    assert!(sensors.iter().is_empty());
}

#[test]
fn unknown_sensor_needs_name_and_unit() {
    let mut sensors = Sensors::new();
    assert!(!sensors.put(&reading(1, 20.5), 1, None));
    let no_unit = Code::new(b'S', 1)
        .with(b'N', ParamValue::str("temperature"))
        .with(b'V', ParamValue::Float(bits(20.5)));
    assert!(!sensors.put(&no_unit, 1, None));
    let no_name = Code::new(b'S', 1)
        .with(b'U', ParamValue::str("C"))
        .with(b'V', ParamValue::Float(bits(20.5)));
    assert!(!sensors.put(&no_name, 1, None));
    let number_as_name = Code::new(b'S', 1)
        .with(b'N', ParamValue::Int(5))
        .with(b'U', ParamValue::str("C"))
        .with(b'V', ParamValue::Float(bits(20.5)));
    assert!(!sensors.put(&number_as_name, 1, None));
    assert!(sensors.iter().is_empty());
    assert_eq!(sensors.get("temperature"), None);
}

#[test]
fn first_parameter_with_a_letter_counts() {
    let mut sensors = Sensors::new();
    let code = Code::new(b'S', 9)
        .with(b'V', ParamValue::Float(bits(1.0)))
        .with(b'V', ParamValue::Float(bits(2.0)))
        .with(b'N', ParamValue::str("uv"))
        .with(b'N', ParamValue::str("rain day"))
        .with(b'U', ParamValue::str("idx"));
    assert!(sensors.put(&code, 3, None));
    let s = sensors.get("uv").unwrap();
    assert_eq!(s.value, bits(1.0));
    assert_eq!(sensors.get("rain day"), None);
}

#[test]
fn invalid_utf8_in_a_name_is_replaced() {
    let mut sensors = Sensors::new();
    let code = Code::new(b'S', 7)
        .with(b'N', ParamValue::Bytes(vec![b'a', 0xff, b'b']))
        .with(b'U', ParamValue::Bytes(vec![0xc2, 0xb0, b'C']))
        .with(b'V', ParamValue::Float(bits(1.0)));
    assert!(sensors.put(&code, 3, None));
    let s = sensors.by_id(7).unwrap();
    assert_eq!(s.name, "a\u{fffd}b");
    assert_eq!(s.unit, "°C");
    assert_eq!(sensors.get("a\u{fffd}b").map(|s| s.id), Some(7));
}

#[test]
fn a_name_leads_to_the_sensor_created_last_with_it() {
    let mut sensors = Sensors::new();
    assert!(sensors.put(&announce(3, "wind speed", "m/s", 1.0), 1, None));
    assert!(sensors.put(&announce(2, "wind speed", "kn", 2.0), 2, None));
    assert_eq!(sensors.get("wind speed").map(|s| s.id), Some(2));
    assert_eq!(sensors.iter().len(), 2);
    assert_eq!(sensors.by_id(3).unwrap().unit, "m/s");
}

#[test]
fn sensors_are_listed_by_ascending_key() {
    let mut sensors = Sensors::new();
    for id in [200u8, 3, 255, 0, 64, 17] {
        let name = format!("s{}", id);
        assert!(sensors.put(&announce(id, &name, "u", id as f32), 0, None));
    }
    let ids: Vec<u8> = sensors.iter().iter().map(|s| s.id).collect();
    assert_eq!(ids, vec![0, 3, 17, 64, 200, 255]);
    for id in [200u8, 3, 255, 0, 64, 17] {
        assert_eq!(sensors.get(&format!("s{}", id)).map(|s| s.id), Some(id));
    }
}

#[test]
fn autos_bit_manipulation() {
    let mut sensors = catalogue_of_six();
    let code = Code::new(b'M', 102)
        .with(b'V', ParamValue::Int(0b0000_1111))
        .with(b'E', ParamValue::Int(5))
        .with(b'D', ParamValue::Int(1));
    assert!(sensors.ingest_autos(&code));
    assert_eq!(
        autos(&sensors),
        vec![(0, true), (1, false), (2, true), (3, true), (4, false), (5, true)]
    );
}

#[test]
fn autos_follow_overwrite_set_clear_formula() {
    for (x, a, b) in [(0i32, 0i32, 0i32), (0b101010, 0, 5), (-1, 3, 3), (7, 63, 2), (i32::MIN, 31, 31)] {
        let mut sensors = catalogue_of_six();
        assert!(sensors.put(&announce(63, "top", "u", 0.0), 0, None));
        assert!(sensors.put(&announce(31, "sign", "u", 0.0), 0, None));
        let code = Code::new(b'M', 102)
            .with(b'V', ParamValue::Int(x))
            .with(b'E', ParamValue::Int(a))
            .with(b'D', ParamValue::Int(b));
        assert!(sensors.ingest_autos(&code));
        let set = ((x as u32 as u64) | (1u64 << a)) & !(1u64 << b);
        assert_eq!(autos_of(&code), set);
        for s in sensors.iter() {
            assert_eq!(s.auto, (set >> s.id) & 1 == 1, "x={} a={} b={} id={}", x, a, b, s.id);
        }
    }
}

#[test]
fn autos_parameters_apply_in_order() {
    let set_then_overwrite = Code::new(b'M', 102)
        .with(b'E', ParamValue::Int(5))
        .with(b'V', ParamValue::Int(0b11));
    assert_eq!(autos_of(&set_then_overwrite), 0b11);
    let clear_then_set = Code::new(b'M', 102)
        .with(b'D', ParamValue::Int(2))
        .with(b'E', ParamValue::Int(2));
    assert_eq!(autos_of(&clear_then_set), 0b100);
    assert_eq!(autos_of(&Code::new(b'M', 102)), 0);
}

#[test]
fn autos_ignore_what_they_cannot_read() {
    let code = Code::new(b'M', 102)
        .with(b'V', ParamValue::Int(0b1))
        .with(b'E', ParamValue::Int(64))
        .with(b'E', ParamValue::Int(-1))
        .with(b'D', ParamValue::Int(64))
        .with(b'E', ParamValue::Float(1))
        .with(b'V', ParamValue::str("7"))
        .with(b'X', ParamValue::Int(3));
    assert_eq!(autos_of(&code), 0b1);
}

#[test]
fn negative_overwrite_is_its_bit_pattern() {
    let code = Code::new(b'M', 102).with(b'V', ParamValue::Int(-2));
    assert_eq!(autos_of(&code), 0xffff_fffe);
}

#[test]
fn sensors_beyond_the_set_are_not_auto() {
    let mut sensors = Sensors::new();
    assert!(sensors.put(&announce(64, "far", "u", 0.0), 0, None));
    assert!(sensors.put(&announce(0, "near", "u", 0.0), 0, None));
    let code = Code::new(b'M', 102).with(b'V', ParamValue::Int(-1)).with(b'E', ParamValue::Int(63));
    assert!(sensors.ingest_autos(&code));
    assert!(sensors.by_id(0).unwrap().auto);
    assert!(!sensors.by_id(64).unwrap().auto);
}

#[test]
fn autos_record_replaces_earlier_flags() {
    let mut sensors = catalogue_of_six();
    assert!(sensors.ingest_autos(&Code::new(b'M', 102).with(b'V', ParamValue::Int(0b111111))));
    assert!(sensors.ingest_autos(&Code::new(b'M', 102).with(b'E', ParamValue::Int(2))));
    assert_eq!(
        autos(&sensors),
        vec![(0, false), (1, false), (2, true), (3, false), (4, false), (5, false)]
    );
}

#[test]
fn other_records_are_no_autos_records() {
    let mut sensors = catalogue_of_six();
    assert!(sensors.ingest_autos(&Code::new(b'M', 102).with(b'V', ParamValue::Int(0b1))));
    assert!(!sensors.ingest_autos(&Code::new(b'M', 101).with(b'V', ParamValue::Int(0b10))));
    assert!(!sensors.ingest_autos(&Code::new(b'S', 102).with(b'V', ParamValue::Int(0b10))));
    assert_eq!(autos(&sensors)[0], (0, true));
    assert_eq!(autos(&sensors)[1], (1, false));
}

#[test]
fn autos_keep_names_units_and_values() {
    let mut sensors = Sensors::new();
    assert!(sensors.put(&announce(1, "temperature", "C", 20.5), 7, None));
    assert!(sensors.ingest_autos(&Code::new(b'M', 102).with(b'E', ParamValue::Int(1))));
    let expected = Sensor {
        name: "temperature".to_string(),
        unit: "C".to_string(),
        id: 1,
        value: bits(20.5),
        last_update: 7,
        auto: true,
    };
    assert_eq!(sensors.get("temperature"), Some(&expected));
}

#[test]
fn catalogue_registrations_name_their_rules() {
    assert_eq!(Sensors::sensor_callback(), (Rule::letter(b'S'), Handler::Sensor));
    assert_eq!(Sensors::autos_callback(), (Rule::new(b'M', 102), Handler::Autos));
}
