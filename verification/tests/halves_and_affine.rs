use mlxcel_xla::affine::{
    bf16_to_f32, dequantize_affine, dequantize_affine_bf16_fused, dequantize_affine_f32,
    dequantize_affine_stacked, dequantize_gemma3n_affine_diagnostic, f16_to_f32, f32_le_to_f32,
    pack_f16, slice_rows,
};
use mlxcel_xla::halves::{f32_to_f16_bits, half_to_f32, round_bf16_f32};

fn mul_add(q: u32, scale: u32, bias: u32) -> u32 {
    (q as f32 * f32::from_bits(scale) + f32::from_bits(bias)).to_bits()
}

fn singles(values: &[u32]) -> Vec<f32> {
    values.iter().map(|bits| f32::from_bits(*bits)).collect()
}

#[test]
fn f32_to_f16_round_trips_every_finite_half() {
    for h in 0u16..=u16::MAX {
        if (h >> 10) & 0x1f == 0x1f {
            continue;
        }
        assert_eq!(
            f32_to_f16_bits(half_to_f32(h)),
            h,
            "round-trip failed for f16 bits {h:#06x}"
        );
    }
}

#[test]
fn f32_to_f16_rounds_ties_to_even_and_saturates() {
    let widen = |h: u16| f32::from_bits(half_to_f32(h));
    assert_eq!(f32_to_f16_bits(((widen(0x3c00) + widen(0x3c01)) / 2.0).to_bits()), 0x3c00);
    assert_eq!(f32_to_f16_bits(((widen(0x3c01) + widen(0x3c02)) / 2.0).to_bits()), 0x3c02);
    assert_eq!(f32_to_f16_bits(65504.0f32.to_bits()), 0x7bff);
    assert_eq!(f32_to_f16_bits(70000.0f32.to_bits()), 0x7c00);
    assert_eq!(f32_to_f16_bits((-70000.0f32).to_bits()), 0xfc00);
    assert_eq!(f32_to_f16_bits(0.0f32.to_bits()), 0x0000);
    assert_eq!(f32_to_f16_bits((-0.0f32).to_bits()), 0x8000);
}

#[test]
fn slice_rows_extracts_the_row_band() {
    let buf: Vec<u32> = (0..8).map(|x| (x as f32).to_bits()).collect();
    assert_eq!(singles(&slice_rows(&buf, 4, 1, 3).unwrap()), vec![2.0, 3.0, 4.0, 5.0]);
    assert!(slice_rows(&buf, 4, 2, 5).is_err());
    assert!(slice_rows(&buf, 3, 0, 1).is_err());
}

#[test]
fn half_to_f32_matches_reference_values() {
    let cases: [(u16, f32); 7] = [
        (0x0000, 0.0),
        (0x8000, -0.0),
        (0x3c00, 1.0),
        (0x3800, 0.5),
        (0xc000, -2.0),
        (0x7bff, 65504.0),
        (0x0001, 2f32.powi(-24)),
    ];
    for (bits, want) in cases {
        let got = half_to_f32(bits);
        assert_eq!(got, want.to_bits(), "f16 {bits:#06x} -> {got} != {want}");
    }
}

#[test]
fn half_to_f32_handles_inf_and_nan() {
    let widen = |h: u16| f32::from_bits(half_to_f32(h));
    assert!(widen(0x7c00).is_infinite() && widen(0x7c00) > 0.0);
    assert!(widen(0xfc00).is_infinite() && widen(0xfc00) < 0.0);
    assert!(widen(0x7e00).is_nan());
}

#[test]
fn f16_byte_buffer_widens_both_lanes() {
    let bytes = [0x00, 0x3c, 0x00, 0xc0];
    assert_eq!(singles(&f16_to_f32(&bytes)), vec![1.0, -2.0]);
}

#[test]
fn bf16_byte_buffer_widens() {
    let bytes = [0x80, 0x3f];
    assert_eq!(singles(&bf16_to_f32(&bytes)), vec![1.0]);
}

#[test]
fn f32_passthrough_reinterprets() {
    let bytes = 1.5f32.to_le_bytes();
    assert_eq!(singles(&f32_le_to_f32(&bytes)), vec![1.5]);
}

#[test]
fn dequantize_affine_recovers_hand_example() {
    let packed = [0x21u8, 0x43, 0x65, 0x87];
    let scales = [0x00u8, 0x40, 0x00, 0x38];
    let biases = [0x00u8, 0x49, 0x00, 0xBC];
    let w = dequantize_affine(&packed, &scales, &biases, 1, 1, 4, 4, false, mul_add).unwrap();
    assert_eq!(singles(&w), vec![12.0, 14.0, 16.0, 18.0, 1.5, 2.0, 2.5, 3.0]);
}

#[test]
fn dequantize_affine_accepts_bf16_scales() {
    let packed = [0x21u8, 0x43, 0x65, 0x87];
    let scales = [0x00u8, 0x40, 0x00, 0x3F];
    let biases = [0x20u8, 0x41, 0x80, 0xBF];
    let w = dequantize_affine(&packed, &scales, &biases, 1, 1, 4, 4, true, mul_add).unwrap();
    assert_eq!(singles(&w), vec![12.0, 14.0, 16.0, 18.0, 1.5, 2.0, 2.5, 3.0]);
}

#[test]
fn gemma3n_bf16_affine_fuses_multiply_and_bias_before_rounding() {
    let packed = 9u32.to_le_bytes();
    let scale = 0xbbfb_u16.to_le_bytes();
    let bias = 0x3d7b_u16.to_le_bytes();
    let fused =
        dequantize_affine_bf16_fused(&packed, &scale, &bias, 1, 1, 4, 8, mul_add).unwrap();
    assert_eq!(f32::from_bits(fused[0]), -0.007_659_912);
    let ordinary =
        dequantize_affine(&packed, &scale, &bias, 1, 1, 4, 8, true, mul_add).unwrap();
    assert_eq!(fused, ordinary);
    let diagnostic =
        dequantize_gemma3n_affine_diagnostic(&packed, &scale, &bias, 1, 1, 4, 8, mul_add).unwrap();
    assert_eq!(fused, diagnostic);
}

#[test]
fn gemma3n_bf16_affine_lut_matches_scalar_reference_across_groups() {
    let packed = [0x21u8, 0x43, 0x65, 0x87];
    let scale_values = [f32::from_bits(0xbbfb_0000), f32::from_bits(0x3b7c_0000)];
    let bias_values = [f32::from_bits(0x3d7b_0000), f32::from_bits(0xbd00_0000)];
    let bf16_bytes = |values: &[f32]| {
        values
            .iter()
            .flat_map(|value| (((*value).to_bits() >> 16) as u16).to_le_bytes())
            .collect::<Vec<_>>()
    };
    let scales = bf16_bytes(&scale_values);
    let biases = bf16_bytes(&bias_values);
    let got =
        dequantize_affine_bf16_fused(&packed, &scales, &biases, 1, 1, 4, 4, mul_add).unwrap();
    let expected = (1..=8)
        .enumerate()
        .map(|(input, quantized)| {
            let group = input / 4;
            round_bf16_f32(
                (quantized as f32 * scale_values[group] + bias_values[group]).to_bits(),
            )
        })
        .collect::<Vec<_>>();
    assert_eq!(got, expected);
}

#[test]
fn dequantize_affine_8bit_recovers_hand_example() {
    let packed = [0x0Au8, 0x14, 0x1E, 0x28];
    let scales = [0x00u8, 0x40, 0x00, 0x38];
    let biases = [0x00u8, 0x49, 0x00, 0xBC];
    let w = dequantize_affine(&packed, &scales, &biases, 1, 1, 8, 2, false, mul_add).unwrap();
    assert_eq!(singles(&w), vec![30.0, 50.0, 14.0, 19.0]);
}

#[test]
fn dequantize_affine_accepts_molmo2_f32_metadata() {
    let packed = [0x0Au8, 0x14, 0x1E, 0x28];
    let scales = [2.0f32, 0.5].into_iter().flat_map(f32::to_le_bytes).collect::<Vec<_>>();
    let biases = [10.0f32, -1.0].into_iter().flat_map(f32::to_le_bytes).collect::<Vec<_>>();
    let w = dequantize_affine_f32(&packed, &scales, &biases, 1, 1, 8, 2, mul_add).unwrap();
    assert_eq!(singles(&w), vec![30.0, 50.0, 14.0, 19.0]);
}

#[test]
fn dequantize_affine_rejects_size_mismatch() {
    let packed = [0u8; 4];
    let sb = [0u8; 4];
    assert!(dequantize_affine(&packed, &sb, &sb, 2, 1, 4, 4, false, mul_add).is_err());
}

#[test]
fn dequantize_affine_stacked_concatenates_expert_slabs() {
    let packed1 = [0x21u8, 0x43, 0x65, 0x87];
    let scales1 = [0x00u8, 0x40, 0x00, 0x38];
    let biases1 = [0x00u8, 0x49, 0x00, 0xBC];
    let one =
        dequantize_affine(&packed1, &scales1, &biases1, 1, 1, 4, 4, false, mul_add).unwrap();

    let packed: Vec<u8> = packed1.iter().chain(&packed1).copied().collect();
    let scales: Vec<u8> = scales1.iter().chain(&scales1).copied().collect();
    let biases: Vec<u8> = biases1.iter().chain(&biases1).copied().collect();
    let stacked =
        dequantize_affine_stacked(&packed, &scales, &biases, 2, 1, 1, 4, 4, false, mul_add)
            .unwrap();

    let mut expected = one.clone();
    expected.extend_from_slice(&one);
    assert_eq!(stacked, expected);
    assert_eq!(stacked.len(), 2 * 8, "two experts x eight recovered values");
}

#[test]
fn dequantize_affine_stacked_rejects_size_mismatch() {
    let packed = [0u8; 4];
    let sb = [0u8; 4];
    assert!(
        dequantize_affine_stacked(&packed, &sb, &sb, 2, 1, 1, 4, 4, false, mul_add).is_err()
    );
}

#[test]
fn affine_errors_name_the_sizes() {
    let message = |packed: usize, sb: usize, bits: usize, group: usize| {
        let packed = vec![0u8; packed];
        let sb = vec![0u8; sb];
        dequantize_affine(&packed, &sb, &sb, 1, 1, bits, group, false, mul_add).unwrap_err()
    };
    assert_eq!(message(4, 2, 3, 8), "unsupported quantization bits 3 (expected 4 or 8)");
    assert_eq!(message(4, 2, 4, 3), "quantization group_size 3 does not divide in dimension 8");
    assert_eq!(message(4, 2, 4, 0), "quantization group_size 0 does not divide in dimension 8");
    assert_eq!(message(8, 2, 4, 8), "packed weight is 8 bytes, expected 4 ([1, 1] u32)");
    assert_eq!(message(4, 4, 4, 8), "scales/biases have 2/2 elements, expected 1 ([1, 1])");
}

#[test]
fn packing_undoes_widening() {
    let bytes = [0x00, 0x3c, 0x01, 0x00, 0xff, 0x7b];
    assert_eq!(pack_f16(&f16_to_f32(&bytes)), vec![0x3c00, 0x0001, 0x7bff]);
}

#[test]
fn adjacent_bands_join() {
    let buf: Vec<u32> = (0..12).collect();
    let mut joined = slice_rows(&buf, 4, 0, 1).unwrap();
    joined.extend(slice_rows(&buf, 4, 1, 4).unwrap());
    assert_eq!(joined, buf);
}

#[test]
fn bf16_rounding_is_to_nearest_even_and_stable() {
    assert_eq!(round_bf16_f32(0x3f80_8000), 0x3f80_0000);
    assert_eq!(round_bf16_f32(0x3f81_8000), 0x3f82_0000);
    assert_eq!(round_bf16_f32(0x3f80_8001), 0x3f81_0000);
    assert_eq!(round_bf16_f32(round_bf16_f32(0x3f80_8001)), 0x3f81_0000);
}
