use threshold_effect::effects::threshold::ThresholdEffect;
use threshold_effect::effects::threshold::THRESHOLD_EFFECT_CLSID;
use threshold_effect::effects::threshold::THRESHOLD_EFFECT_SHADER;
use threshold_effect::rect::Rect;
use threshold_effect::EffectError;

#[test]
fn new_stage_defaults() {
    let stage = ThresholdEffect::new();
    assert_eq!(stage.get_threshold(), 0);
    assert_eq!(f32::from_bits(stage.get_threshold()), 0.0f32);
    assert_eq!(stage.get_input_count(), 1);
}

#[test]
fn identity_constants() {
    assert_eq!(THRESHOLD_EFFECT_CLSID, 0xFB3AF5AA_6F03_4754_A676_BACB2D082069u128);
    assert_eq!(THRESHOLD_EFFECT_SHADER, 0x397DBC73_8831_4C02_9ECD_56036DAEA108u128);
}

#[test]
fn initialize_reports_shader_to_load() {
    let mut stage = ThresholdEffect::new();
    assert_eq!(stage.initialize(), THRESHOLD_EFFECT_SHADER);
}

#[test]
fn set_draw_info_requires_handle() {
    let mut stage = ThresholdEffect::new();
    let _ = stage.initialize();
    assert_eq!(stage.set_draw_info(None), Err(EffectError::InvalidArgument));
    assert_eq!(stage.set_draw_info(Some(11)), Ok(THRESHOLD_EFFECT_SHADER));
}

#[test]
fn prepare_before_draw_info_fails() {
    let mut stage = ThresholdEffect::new();
    let _ = stage.initialize();
    stage.set_threshold(0.75f32.to_bits()).unwrap();
    assert_eq!(
        stage.prepare_for_render(0),
        Err(EffectError::PreconditionViolation)
    );
}

#[test]
fn prepare_serializes_current_threshold() {
    let mut stage = ThresholdEffect::new();
    let _ = stage.initialize();
    stage.set_draw_info(Some(1)).unwrap();
    stage.set_threshold(0.25f32.to_bits()).unwrap();
    assert_eq!(
        stage.prepare_for_render(0),
        Ok(0.25f32.to_bits().to_le_bytes().to_vec())
    );
    stage.set_threshold(999.5f32.to_bits()).unwrap();
    assert_eq!(
        stage.prepare_for_render(0),
        Ok(999.5f32.to_bits().to_le_bytes().to_vec())
    );
}

#[test]
fn set_graph_is_a_no_op() {
    let stage = ThresholdEffect::new();
    assert_eq!(stage.set_graph(), Ok(()));
}

#[test]
fn threshold_round_trip_various_floats() {
    let mut stage = ThresholdEffect::new();
    let _ = stage.initialize();
    for x in [
        0.0f32,
        -0.0,
        0.01,
        1.0,
        -5.5,
        1000.0,
        2000.0,
        f32::MIN_POSITIVE,
        f32::MAX,
    ] {
        stage.set_threshold(x.to_bits()).unwrap();
        assert_eq!(stage.get_threshold(), x.to_bits());
        assert_eq!(f32::from_bits(stage.get_threshold()), x);
    }
    let nan = f32::NAN;
    stage.set_threshold(nan.to_bits()).unwrap();
    assert_eq!(stage.get_threshold(), nan.to_bits());
}

#[test]
fn region_round_trip() {
    let stage = ThresholdEffect::new();
    let r = Rect {
        left: -3,
        top: 4,
        right: 100,
        bottom: 204,
    };
    let (out, opaque) = stage.map_input_rects_to_output_rect(&vec![r]).unwrap();
    assert_eq!(out, r);
    assert_eq!(opaque, out);
    let mut inputs = vec![Rect {
        left: 0,
        top: 0,
        right: 0,
        bottom: 0,
    }];
    stage
        .map_output_rect_to_input_rects(&out, &mut inputs)
        .unwrap();
    assert_eq!(inputs, vec![r]);
}

#[test]
fn region_count_validation() {
    let stage = ThresholdEffect::new();
    let r = Rect {
        left: 0,
        top: 0,
        right: 8,
        bottom: 8,
    };
    assert_eq!(
        stage.map_input_rects_to_output_rect(&vec![]),
        Err(EffectError::InvalidArgument)
    );
    assert_eq!(
        stage.map_input_rects_to_output_rect(&vec![r, r]),
        Err(EffectError::InvalidArgument)
    );
    let mut none: Vec<Rect> = Vec::new();
    assert_eq!(
        stage.map_output_rect_to_input_rects(&r, &mut none),
        Err(EffectError::InvalidArgument)
    );
    assert!(none.is_empty());
    let mut two = vec![r, r];
    assert_eq!(
        stage.map_output_rect_to_input_rects(&r, &mut two),
        Err(EffectError::InvalidArgument)
    );
    assert_eq!(two, vec![r, r]);
}

#[test]
fn invalid_rect_maps_identically() {
    let stage = ThresholdEffect::new();
    let r = Rect {
        left: 5,
        top: 6,
        right: 7,
        bottom: 8,
    };
    assert_eq!(stage.map_invalid_rect(0, &r), Ok(r));
}
