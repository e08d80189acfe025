use raytrace::param::{param_bits, param_code};

#[test]
fn codes_order_like_floats() {
    let values = [f32::NEG_INFINITY, -1.0e30, -2.5, -1.0, -1.0e-40, 0.0, 1.0e-40, 0.001, 0.5, 1.0, 3.0e38, f32::INFINITY];
    for w in values.windows(2) {
        assert!(param_code(w[0].to_bits()) < param_code(w[1].to_bits()));
    }
}

#[test]
fn zeros_share_a_code() {
    assert_eq!(param_code(0.0f32.to_bits()), 0);
    assert_eq!(param_code((-0.0f32).to_bits()), 0);
    assert_eq!(param_bits(0), 0);
}

#[test]
fn code_round_trip() {
    for v in [-7.25f32, -0.001, 0.001, 0.5, 100.0, f32::INFINITY, f32::NEG_INFINITY] {
        assert_eq!(f32::from_bits(param_bits(param_code(v.to_bits()))), v);
    }
    assert_eq!(param_code(1.0f32.to_bits()), 0x3f80_0000);
    assert_eq!(param_code((-1.0f32).to_bits()), -0x3f80_0000);
}
