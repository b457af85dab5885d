use quantize_strategy::pipeline::{permute_tensor, plan_tensor, select_strategy, TensorPlan};
use quantize_strategy::strategies::{AnyStrategy, StrategyError, StrategyType};
use quantize_strategy::utils::tensor_ops::width_of;
use quantize_strategy::utils::{
    chars_of, contains, ends_with, is_target_weight, tensor_to_bits, ElementType,
};
use quantize_strategy::QuantizationConfig;

fn skip() -> Vec<String> {
    vec!["embed_tokens".to_string(), "norm".to_string()]
}

#[test]
fn weights_are_targets() {
    assert!(is_target_weight("model.layers.0.mlp.up_proj.weight", &skip()));
    assert!(is_target_weight(".weight", &skip()));
    assert!(is_target_weight("lm_head.weight", &[]));
}

#[test]
fn other_names_are_no_targets() {
    assert!(!is_target_weight("model.layers.0.mlp.up_proj.bias", &skip()));
    assert!(!is_target_weight("weight", &skip()));
    assert!(!is_target_weight("a.weight.b", &skip()));
    assert!(!is_target_weight("", &skip()));
    assert!(!is_target_weight("a.Weight", &skip()));
}

#[test]
fn skip_patterns_are_searched_anywhere() {
    assert!(!is_target_weight("model.embed_tokens.weight", &skip()));
    assert!(!is_target_weight("model.layers.0.input_layernorm.weight", &skip()));
    assert!(!is_target_weight("model.norm.weight", &skip()));
    assert!(!is_target_weight("x.weight", &["x.weight".to_string()]));
    assert!(is_target_weight("x.weight", &["x.weights".to_string()]));
    assert!(!is_target_weight("x.weight", &["weight".to_string()]));
}

#[test]
fn empty_skip_pattern_skips_everything() {
    assert!(!is_target_weight("x.weight", &["".to_string()]));
}

#[test]
fn names_are_compared_by_characters() {
    assert!(is_target_weight("couche_é.weight", &["e.".to_string()]));
    assert!(!is_target_weight("couche_é.weight", &["é.".to_string()]));
}

#[test]
fn text_search_on_characters() {
    let s = chars_of("abcabd");
    assert_eq!(s, vec!['a', 'b', 'c', 'a', 'b', 'd']);
    assert!(contains(&s, &chars_of("abd")));
    assert!(contains(&s, &chars_of("")));
    assert!(contains(&s, &chars_of("abcabd")));
    assert!(!contains(&s, &chars_of("abda")));
    assert!(!contains(&s, &chars_of("abcabda")));
    assert!(ends_with(&s, &chars_of("bd")));
    assert!(ends_with(&s, &chars_of("")));
    assert!(!ends_with(&s, &chars_of("ab")));
    assert!(!ends_with(&s, &chars_of("xabcabd")));
}

#[test]
fn matrices_with_whole_blocks_are_quantized() {
    let name = "model.layers.0.mlp.up_proj.weight";
    let plan = plan_tensor(name, &[64, 256], ElementType::F32, &skip(), 32);
    assert_eq!(plan, TensorPlan::Quantize { rows: 64, k: 256, blocks_per_row: 8 });
    let plan = plan_tensor(name, &[4, 512], ElementType::BF16, &skip(), 256);
    assert_eq!(plan, TensorPlan::Quantize { rows: 4, k: 512, blocks_per_row: 2 });
    let plan = plan_tensor("a.weight", &[3, 0], ElementType::F16, &skip(), 256);
    assert_eq!(plan, TensorPlan::Quantize { rows: 3, k: 0, blocks_per_row: 0 });
}

#[test]
fn other_tensors_are_skipped() {
    let single = ElementType::F32;
    assert_eq!(plan_tensor("a.weight", &[64], single, &skip(), 32), TensorPlan::NotTarget);
    assert_eq!(plan_tensor("a.weight", &[2, 64, 64], single, &skip(), 32), TensorPlan::NotTarget);
    assert_eq!(plan_tensor("a.bias", &[64, 64], single, &skip(), 32), TensorPlan::NotTarget);
    assert_eq!(plan_tensor("m.norm.weight", &[64, 64], single, &skip(), 32), TensorPlan::NotTarget);
    assert_eq!(plan_tensor("a.bias", &[64, 65], single, &skip(), 32), TensorPlan::NotTarget);
    assert_eq!(
        plan_tensor("a.weight", &[64, 65], single, &skip(), 32),
        TensorPlan::Unaligned { rows: 64, k: 65 }
    );
    assert_eq!(
        plan_tensor("a.weight", &[64, 255], single, &skip(), 256),
        TensorPlan::Unaligned { rows: 64, k: 255 }
    );
}

#[test]
fn tensors_of_other_element_types_are_skipped() {
    let other = ElementType::Other;
    assert_eq!(
        plan_tensor("a.weight", &[64, 64], other, &skip(), 32),
        TensorPlan::UnsupportedElement { rows: 64, k: 64 }
    );
    assert_eq!(
        plan_tensor("a.weight", &[64, 65], other, &skip(), 32),
        TensorPlan::Unaligned { rows: 64, k: 65 }
    );
    assert_eq!(plan_tensor("a.bias", &[64, 64], other, &skip(), 32), TensorPlan::NotTarget);
}

#[test]
fn element_widths() {
    assert_eq!(width_of(ElementType::F32), Some(4));
    assert_eq!(width_of(ElementType::F16), Some(2));
    assert_eq!(width_of(ElementType::BF16), Some(2));
    assert_eq!(width_of(ElementType::Other), None);
}

#[test]
fn elements_are_little_endian_words() {
    let bytes = [0x00u8, 0x00, 0x80, 0x3F, 0x00, 0x00, 0x00, 0xC0, 0xDB, 0x0F, 0x49, 0x40];
    let bits = tensor_to_bits(&bytes, ElementType::F32).unwrap();
    assert_eq!(bits, vec![0x3F80_0000, 0xC000_0000, 0x4049_0FDB]);
    let values: Vec<f32> = bits.into_iter().map(f32::from_bits).collect();
    assert_eq!(values, vec![1.0, -2.0, std::f32::consts::PI]);
    let halves = tensor_to_bits(&bytes[..6], ElementType::F16).unwrap();
    assert_eq!(halves, vec![0x0000, 0x3F80, 0x0000]);
    assert_eq!(tensor_to_bits(&bytes[..6], ElementType::BF16).unwrap(), halves);
}

#[test]
fn bytes_that_make_up_no_element_are_left_out() {
    let bytes = [1u8, 2, 3, 4, 5, 6, 7];
    assert_eq!(tensor_to_bits(&bytes, ElementType::F32), Some(vec![0x0403_0201]));
    assert_eq!(tensor_to_bits(&bytes, ElementType::F16), Some(vec![0x0201, 0x0403, 0x0605]));
    assert_eq!(tensor_to_bits(&bytes[..3], ElementType::F32), Some(vec![]));
    assert_eq!(tensor_to_bits(&[], ElementType::BF16), Some(vec![]));
}

#[test]
fn other_element_types_are_not_decoded() {
    assert_eq!(tensor_to_bits(&[1, 2, 3, 4], ElementType::Other), None);
    assert_eq!(tensor_to_bits(&[], ElementType::Other), None);
}

#[test]
fn default_configuration() {
    let config = QuantizationConfig::default();
    assert!(matches!(config.strategy_type, StrategyType::L2Norm));
    assert!(!config.use_permutation);
    assert_eq!(config.skip_patterns, skip());
    assert_eq!(config.output_dir, "./quantized");
    assert!(!config.attention_aware);
}

#[test]
fn run_without_permutation_has_no_strategy() {
    let config = QuantizationConfig { strategy_type: StrategyType::QRPivot, ..Default::default() };
    let mut strategy = select_strategy(&config).ok().unwrap();
    assert!(strategy.is_none());
    let data = vec![1.0f32, 2.0, 3.0, 4.0];
    let r = permute_tensor(&mut strategy, &data, &[1, 2], 2, 2, "a.weight");
    assert_eq!(r, Ok((data.clone(), None)));
    let r = permute_tensor(&mut strategy, &data, &[1, 2], 2, 3, "a.weight");
    assert_eq!(r, Err(StrategyError::ShapeMismatch));
}

#[test]
fn run_with_permutation_uses_the_selected_strategy() {
    let config = QuantizationConfig { use_permutation: true, ..Default::default() };
    let mut strategy = select_strategy(&config).ok().unwrap();
    assert!(matches!(strategy, Some(AnyStrategy::L2Norm(_))));
    let data = vec![1.0f32, 2.0, 3.0, 4.0];
    let r = permute_tensor(&mut strategy, &data, &[1, 2], 2, 2, "a.weight");
    assert_eq!(r, Ok((vec![2.0, 1.0, 4.0, 3.0], Some(vec![1, 0]))));

    let config = QuantizationConfig {
        use_permutation: true,
        strategy_type: StrategyType::AttentionAware,
        ..Default::default()
    };
    let mut strategy = select_strategy(&config).ok().unwrap();
    assert!(matches!(strategy, Some(AnyStrategy::AttentionAware(_))));
    let name = "model.layers.0.self_attn.o_proj.weight";
    let r = permute_tensor(&mut strategy, &data, &[1, 2], 2, 2, name);
    assert_eq!(r, Ok((data.clone(), None)));
}

#[test]
fn run_with_an_unimplemented_strategy_fails() {
    let config = QuantizationConfig {
        use_permutation: true,
        strategy_type: StrategyType::QRPivot,
        ..Default::default()
    };
    assert!(matches!(select_strategy(&config), Err(StrategyError::Unimplemented)));
    let config = QuantizationConfig {
        use_permutation: true,
        strategy_type: StrategyType::Learnable { learning_rate: 1, iterations: 2 },
        ..Default::default()
    };
    assert!(matches!(select_strategy(&config), Err(StrategyError::Unimplemented)));
}
