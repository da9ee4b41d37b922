use threshold_effect::effects::threshold::ThresholdEffect;
use threshold_effect::marshal::value_getter;
use threshold_effect::marshal::value_setter;
use threshold_effect::marshal::VALUE_SIZE;
use threshold_effect::EffectError;

#[test]
fn value_size_matches_float32() {
    assert_eq!(VALUE_SIZE, 4);
}

#[test]
fn setter_rejects_wrong_size_and_keeps_value() {
    let mut stage = ThresholdEffect::new();
    stage.set_threshold(7.5f32.to_bits()).unwrap();
    assert_eq!(
        value_setter(&mut stage, &[1, 2, 3]),
        Err(EffectError::InvalidArgument)
    );
    assert_eq!(
        value_setter(&mut stage, &[1, 2, 3, 4, 5]),
        Err(EffectError::InvalidArgument)
    );
    assert_eq!(value_setter(&mut stage, &[]), Err(EffectError::InvalidArgument));
    assert_eq!(stage.get_threshold(), 7.5f32.to_bits());
}

#[test]
fn getter_rejects_small_buffer_and_writes_nothing() {
    let mut stage = ThresholdEffect::new();
    stage.set_threshold(1.5f32.to_bits()).unwrap();
    let mut buf = vec![9u8, 9, 9];
    assert_eq!(
        value_getter(&stage, &mut buf),
        Err(EffectError::InvalidArgument)
    );
    assert_eq!(buf, vec![9, 9, 9]);
    let mut empty: Vec<u8> = Vec::new();
    assert_eq!(
        value_getter(&stage, &mut empty),
        Err(EffectError::InvalidArgument)
    );
    assert!(empty.is_empty());
}

#[test]
fn setter_stores_exact_bytes() {
    let mut stage = ThresholdEffect::new();
    let x = 123.456f32;
    value_setter(&mut stage, &x.to_bits().to_le_bytes()).unwrap();
    assert_eq!(stage.get_threshold(), x.to_bits());
}

#[test]
fn getter_fills_front_and_reports_actual_size() {
    let mut stage = ThresholdEffect::new();
    let x = -42.0f32;
    stage.set_threshold(x.to_bits()).unwrap();
    let mut buf = vec![0u8, 0, 0, 0, 0xAA, 0xBB];
    assert_eq!(value_getter(&stage, &mut buf), Ok(4));
    assert_eq!(&buf[..4], &x.to_bits().to_le_bytes());
    assert_eq!(&buf[4..], &[0xAA, 0xBB]);
}

#[test]
fn marshal_round_trip_through_bytes() {
    let mut stage = ThresholdEffect::new();
    for x in [0.0f32, 0.01, -1.25, 1000.0, 1234.5] {
        let sent = x.to_bits().to_le_bytes();
        value_setter(&mut stage, &sent).unwrap();
        let mut got = vec![0u8; 4];
        assert_eq!(value_getter(&stage, &mut got), Ok(4));
        assert_eq!(got, sent.to_vec());
    }
}
