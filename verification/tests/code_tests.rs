use station_bridge::code::{Code, Param, ParamValue, LETTER_N, LETTER_S, LETTER_U, LETTER_V};

fn temperature_record() -> Code {
    Code::new(LETTER_S, 1)
        .with(LETTER_N, ParamValue::str("temperature"))
        .with(LETTER_U, ParamValue::str("C"))
        .with(LETTER_V, ParamValue::Float(20.5f32.to_bits()))
}

#[test]
fn letters_are_ascii() {
    assert_eq!(LETTER_S, b'S');
    assert_eq!(LETTER_N, b'N');
    assert_eq!(LETTER_U, b'U');
    assert_eq!(LETTER_V, b'V');
}

#[test]
fn with_appends_in_order() {
    let code = temperature_record();
    assert_eq!(code.letter, b'S');
    assert_eq!(code.number, 1);
    assert_eq!(code.params.len(), 3);
    assert_eq!(code.params[0].letter, b'N');
    assert_eq!(code.params[1].letter, b'U');
    assert_eq!(code.params[2].letter, b'V');
    assert_eq!(code.key(), (b'S', 1));
}

#[test]
fn find_returns_first_parameter_with_letter() {
    let code = Code::new(b'M', 102)
        .with(b'E', ParamValue::Int(1))
        .with(b'D', ParamValue::Int(2))
        .with(b'E', ParamValue::Int(3));
    assert_eq!(code.find(b'E'), Some(&Param { letter: b'E', value: ParamValue::Int(1) }));
    assert_eq!(code.find(b'D'), Some(&Param { letter: b'D', value: ParamValue::Int(2) }));
    assert_eq!(code.find(b'V'), None);
    assert_eq!(code.first(), Some(&Param { letter: b'E', value: ParamValue::Int(1) }));
    assert_eq!(Code::new(b'M', 1).first(), None);
}

#[test]
fn str_value_holds_utf8_bytes() {
    assert_eq!(ParamValue::str("V"), ParamValue::Bytes(vec![b'V']));
    assert_eq!(ParamValue::str("°C"), ParamValue::Bytes(vec![0xC2, 0xB0, b'C']));
}

#[test]
fn value_conversions_are_exact() {
    assert_eq!(ParamValue::Int(7).as_int(), Some(7));
    assert_eq!(ParamValue::Int(7).as_u8(), Some(7));
    assert_eq!(ParamValue::Int(255).as_u8(), Some(255));
    assert_eq!(ParamValue::Int(256).as_u8(), None);
    assert_eq!(ParamValue::Int(-1).as_u8(), None);
    assert_eq!(ParamValue::Int(7).as_float_bits(), None);
    assert_eq!(ParamValue::Int(7).as_bytes(), None);
    let bits = 20.5f32.to_bits();
    assert_eq!(ParamValue::Float(bits).as_float_bits(), Some(bits));
    assert_eq!(ParamValue::Float(bits).as_int(), None);
    assert_eq!(ParamValue::Float(bits).as_u8(), None);
    assert_eq!(ParamValue::Bytes(vec![1, 2]).as_bytes(), Some(&vec![1u8, 2u8]));
    assert_eq!(ParamValue::Bytes(vec![1, 2]).as_int(), None);
}

#[test]
fn float_bits_are_kept_exactly() {
    let nan = f32::from_bits(0x7fc0_1234);
    let value = ParamValue::Float(nan.to_bits());
    assert_eq!(value.as_float_bits(), Some(0x7fc0_1234));
    assert_eq!(value.clone(), value);
}

#[test]
fn clone_keeps_the_record() {
    let code = temperature_record();
    let copy = code.clone();
    assert_eq!(copy, code);
}
