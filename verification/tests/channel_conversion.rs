use nextcore_gpu::channel::{channel_to_u8, color_to_rgba8};

fn reference(f: f32) -> u8 {
    (f * 255.0) as u8
}

#[test]
fn channel_matches_float_cast_on_edge_values() {
    let values = [
        0.0f32, -0.0, 1.0, 0.5, 0.25, 1.0 / 255.0, 0.999, 0.998, 1.5, 2.0, 255.0, 1e10,
        -1.0, -0.001, f32::MIN_POSITIVE, 1e-40, f32::INFINITY, f32::NEG_INFINITY, f32::NAN,
        0.003921569, 0.0039215684, 0.99607843, 0.5019608,
    ];
    for v in values {
        assert_eq!(channel_to_u8(v.to_bits()), reference(v), "{v:?}");
    }
}

#[test]
fn channel_matches_float_cast_across_unit_interval() {
    for i in 0..=100_000u32 {
        let v = i as f32 / 100_000.0;
        assert_eq!(channel_to_u8(v.to_bits()), reference(v), "{v:?}");
    }
    let mut bits: u32 = 0x3b00_0000;
    while bits < 0x3f90_0000 {
        let v = f32::from_bits(bits);
        assert_eq!(channel_to_u8(bits), reference(v), "{bits:#x}");
        bits += 97;
    }
}

#[test]
fn color_converts_each_channel() {
    let c = [1.0f32, 0.0, 0.5, 1.0].map(f32::to_bits);
    assert_eq!(color_to_rgba8(c), [255, 0, 127, 255]);
}
