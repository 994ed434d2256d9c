//! The minifloat format, the deterministic generator and softmax.

use demle::operations::{apply_activation, softmax, ActivationType};
use demle::tensor::generate_random_tensor;
use demle::FP8;

#[test]
fn test_fp8_conversion() {
    let values = [0.0, 1.0, -1.0, 2.0, 0.5, -0.5];

    for &val in &values {
        let fp8 = FP8::from_f32(f32::to_bits(val));
        let converted = f32::from_bits(fp8.to_f32());

        // Allow some precision loss
        assert!(
            (converted - val).abs() < 0.1,
            "Failed for {}: got {}",
            val,
            converted
        );
    }
}

#[test]
fn test_fp8_arithmetic() {
    let a = FP8::from_f32(f32::to_bits(2.0));
    let b = FP8::from_f32(f32::to_bits(3.0));

    let sum = f32::from_bits(a.add(b).to_f32());
    assert!((sum - 5.0).abs() < 0.1);

    let product = f32::from_bits(a.mul(b).to_f32());
    assert!((product - 6.0).abs() < 0.1);
}

#[test]
fn fp8_zero_patterns() {
    // encoding zero gives the all-zero pattern, which decodes to zero
    assert_eq!(FP8::from_f32(f32::to_bits(0.0)).to_bits(), 0);
    assert_eq!(FP8::from_f32(f32::to_bits(-0.0)).to_bits(), 0);
    assert_eq!(f32::from_bits(FP8::from_bits(0).to_f32()), 0.0);
    // any zero-exponent pattern decodes to zero
    assert_eq!(f32::from_bits(FP8::from_bits(0x05).to_f32()), 0.0);
    assert_eq!(f32::from_bits(FP8::from_bits(0x83).to_f32()), 0.0);
}

#[test]
fn fp8_round_trip_is_one_step() {
    // over [-4, 4] in small increments the round trip loses less than
    // one mantissa step of the value's binade
    let mut x = -4.0f32;
    while x <= 4.0 {
        let back = f32::from_bits(FP8::from_f32(f32::to_bits(x)).to_f32());
        let step = if x.abs() < 0.015625 {
            0.015625
        } else {
            f32::powi(2.0, x.abs().log2().floor() as i32) / 8.0
        };
        assert!(
            (back - x).abs() <= step + 1e-6,
            "round trip of {} gave {}",
            x,
            back
        );
        x += 0.013;
    }
}

#[test]
fn fp8_subtraction_and_division() {
    let a = FP8::from_f32(f32::to_bits(3.0));
    let b = FP8::from_f32(f32::to_bits(1.5));
    assert_eq!(f32::from_bits(a.sub(b).to_f32()), 1.5);
    assert_eq!(f32::from_bits(a.div(b).to_f32()), 2.0);
}

#[test]
fn fp8_one_is_exact() {
    assert_eq!(FP8::one().to_bits(), 0x38);
    assert_eq!(f32::from_bits(FP8::one().to_f32()), 1.0);
}

#[test]
fn test_generate_random_tensor() {
    let shape = [2, 3, 4];
    let seed = 42;

    let tensor = generate_random_tensor(&shape, seed).unwrap();
    assert_eq!(tensor.len(), 24);

    // Same seed should generate same tensor
    let tensor2 = generate_random_tensor(&shape, seed).unwrap();
    assert_eq!(tensor, tensor2);
}

#[test]
fn generator_seeds_and_spread() {
    // different seeds give different tensors, and a real seeded stream
    // gives a spread of values, not a constant
    let a = generate_random_tensor(&[1000], 7).unwrap();
    let b = generate_random_tensor(&[1000], 8).unwrap();
    assert_ne!(a, b);
    let first = a[0].to_bits();
    assert!(a.iter().any(|v| v.to_bits() != first));
    // roughly half the samples should be negative
    let negatives = a
        .iter()
        .filter(|v| f32::from_bits(v.to_f32()) < 0.0)
        .count();
    assert!(negatives > 300 && negatives < 700);
}

#[test]
fn generator_rejects_overflowing_shape() {
    let r = generate_random_tensor(&[usize::MAX, usize::MAX], 1);
    assert!(r.is_err());
}

#[test]
fn test_softmax() {
    let input = vec![
        FP8::from_f32(f32::to_bits(1.0)),
        FP8::from_f32(f32::to_bits(2.0)),
        FP8::from_f32(f32::to_bits(3.0)),
    ];

    let output = softmax(&input);

    // Softmax should sum to 1 (weights are at 30 fraction bits)
    let sum: f32 = output.iter().map(|&w| w as f32 / 1073741824.0).sum();
    assert!((sum - 1.0).abs() < 0.01);

    // Larger inputs should have larger softmax values
    assert!(output[2] > output[1]);
    assert!(output[1] > output[0]);
}

#[test]
fn softmax_uniform_and_empty() {
    let input = vec![FP8::from_f32(f32::to_bits(2.5)); 4];
    let output = softmax(&input);
    assert_eq!(output.len(), 4);
    // all-equal logits share the mass equally
    assert!(output.iter().all(|&w| w == output[0]));
    let sum: f32 = output.iter().map(|&w| w as f32 / 1073741824.0).sum();
    assert!((sum - 1.0).abs() < 0.01);
    let empty: Vec<FP8> = Vec::new();
    assert!(softmax(&empty).is_empty());

    // near-overflow logits still normalize
    let big = vec![
        FP8::from_f32(f32::to_bits(448.0)),
        FP8::from_f32(f32::to_bits(448.0)),
    ];
    let out = softmax(&big);
    let sum: f32 = out.iter().map(|&w| w as f32 / 1073741824.0).sum();
    assert!((sum - 1.0).abs() < 0.01);
}

#[test]
fn test_activations() {
    let input = vec![
        FP8::from_f32(f32::to_bits(-1.0)),
        FP8::from_f32(f32::to_bits(0.0)),
        FP8::from_f32(f32::to_bits(1.0)),
        FP8::from_f32(f32::to_bits(2.0)),
    ];

    let relu_output = apply_activation(&input, ActivationType::ReLU);
    assert_eq!(f32::from_bits(relu_output[0].to_f32()), 0.0); // ReLU(-1) = 0
    assert!(f32::from_bits(relu_output[3].to_f32()) > 0.0); // ReLU(2) > 0

    let gelu_output = apply_activation(&input, ActivationType::GELU);
    assert!(gelu_output.len() == input.len());

    let swish_output = apply_activation(&input, ActivationType::Swish);
    assert!(swish_output.len() == input.len());
}

#[test]
fn activation_values_are_quantized_curves() {
    let input = vec![
        FP8::from_f32(f32::to_bits(2.0)),
        FP8::from_f32(f32::to_bits(-2.0)),
    ];
    // gelu(2) is about 1.95, swish(2) about 1.76; both negative inputs
    // land near zero
    let g = apply_activation(&input, ActivationType::GELU);
    let gv = f32::from_bits(g[0].to_f32());
    assert!((gv - 1.95).abs() < 0.25, "gelu(2) quantized to {}", gv);
    assert!(f32::from_bits(g[1].to_f32()).abs() < 0.1);
    let s = apply_activation(&input, ActivationType::Swish);
    let sv = f32::from_bits(s[0].to_f32());
    assert!((sv - 1.76).abs() < 0.25, "swish(2) quantized to {}", sv);
}

#[test]
fn softmax_extreme_logits_lose_all_weight() {
    // a logit far below the row maximum gets exponential zero, and the
    // maximal entry takes the whole mass
    let input = vec![
        FP8::from_f32(f32::to_bits(-400.0)),
        FP8::from_f32(f32::to_bits(0.0)),
    ];
    let out = softmax(&input);
    assert_eq!(out[0], 0);
    assert_eq!(out[1], 1 << 30);
}

#[test]
fn softmax_is_monotone_in_logits() {
    let input = vec![
        FP8::from_f32(f32::to_bits(-2.0)),
        FP8::from_f32(f32::to_bits(-0.5)),
        FP8::from_f32(f32::to_bits(-0.5)),
        FP8::from_f32(f32::to_bits(0.25)),
        FP8::from_f32(f32::to_bits(1.0)),
    ];
    let out = softmax(&input);
    assert!(out[0] <= out[1]);
    assert_eq!(out[1], out[2]);
    assert!(out[2] <= out[3]);
    assert!(out[3] <= out[4]);
    assert!(out[0] < out[4]);
}
