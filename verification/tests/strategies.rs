use quantize_strategy::strategies::attention_aware::{
    classify_captures, parse_layer_number, parse_role, AttentionRole, LayerPermCache,
};
use quantize_strategy::strategies::{
    create_strategy, is_implemented, order_by_energy, AnyStrategy, AttentionAwareStrategy,
    L2NormStrategy, LearnableStrategy, QuantizationStrategy, StrategyError, StrategyType,
};

fn sorted(perm: &[usize]) -> Vec<usize> {
    let mut s = perm.to_vec();
    s.sort();
    s
}

#[test]
fn energy_order_permutes_the_data() {
    let data = vec![1u32, 2, 3, 4, 5, 6];
    let (out, perm) = order_by_energy(&data, &[10, 30, 20], 2, 3).unwrap();
    assert_eq!(perm, Some(vec![1, 2, 0]));
    assert_eq!(out, vec![2, 3, 1, 5, 6, 4]);
}

#[test]
fn energy_order_rejects_bad_input() {
    let data = vec![1u32, 2, 3, 4, 5, 6];
    assert_eq!(order_by_energy(&data, &[10, 30, 20], 3, 3), Err(StrategyError::ShapeMismatch));
    assert_eq!(order_by_energy(&data, &[10, 30], 2, 3), Err(StrategyError::EnergyCountMismatch));
    assert_eq!(order_by_energy(&data, &[10, 30], 3, 3), Err(StrategyError::ShapeMismatch));
}

#[test]
fn l2_norm_orders_by_energy_whatever_the_name() {
    let mut s = L2NormStrategy::new();
    let data = vec![1.0f32, 2.0, 3.0, 4.0];
    let a = s.apply_permutation(&data, &[1, 2], 2, 2, "model.layers.0.self_attn.o_proj.weight");
    let b = s.apply_permutation(&data, &[1, 2], 2, 2, "lm_head.weight");
    assert_eq!(a, Ok((vec![2.0, 1.0, 4.0, 3.0], Some(vec![1, 0]))));
    assert_eq!(a, b);
    assert_eq!(s.name(), "L2Norm");
}

#[test]
fn l2_norm_identity_and_reversal() {
    let mut s = L2NormStrategy::new();
    let data: Vec<u32> = (0..8).collect();
    let (out, perm) = s.apply_permutation(&data, &[9, 7, 5, 3], 2, 4, "w").unwrap();
    assert_eq!(perm, Some(vec![0, 1, 2, 3]));
    assert_eq!(out, data);
    let (out, perm) = s.apply_permutation(&data, &[3, 5, 7, 9], 2, 4, "w").unwrap();
    assert_eq!(perm, Some(vec![3, 2, 1, 0]));
    assert_eq!(out, vec![3, 2, 1, 0, 7, 6, 5, 4]);
}

#[test]
fn learnable_is_the_energy_order() {
    let mut s = LearnableStrategy::new(0x3F84_7AE1_47AE_147B, 1000);
    let data = vec![1u32, 2, 3, 4, 5, 6];
    let r = s.apply_permutation(&data, &[10, 30, 20], 2, 3, "any.weight");
    assert_eq!(r, order_by_energy(&data, &[10, 30, 20], 2, 3));
    assert_eq!(s.name(), "Learnable");
}

#[test]
fn attention_names_are_read() {
    let parse = AttentionAwareStrategy::parse_attention_proj;
    assert_eq!(parse("model.layers.3.self_attn.q_proj.weight"), Some((3, AttentionRole::Query)));
    assert_eq!(parse("model.layers.17.self_attn.k_proj.weight"), Some((17, AttentionRole::Key)));
    assert_eq!(parse("model.layers.0.self_attn.v_proj.weight"), Some((0, AttentionRole::Value)));
    assert_eq!(parse("model.layers.007.self_attn.o_proj.weight"), Some((7, AttentionRole::Output)));
    assert_eq!(
        parse("model.layers.4294967295.self_attn.q_proj.weight"),
        Some((u32::MAX, AttentionRole::Query))
    );
}

#[test]
fn other_names_are_no_attention_projection() {
    let parse = AttentionAwareStrategy::parse_attention_proj;
    assert_eq!(parse("model.layers.3.mlp.up_proj.weight"), None);
    assert_eq!(parse("model.layers.3.self_attn.q_proj.bias"), None);
    assert_eq!(parse("xmodel.layers.3.self_attn.q_proj.weight"), None);
    assert_eq!(parse("model.layers.3.self_attn.q_proj.weight "), None);
    assert_eq!(parse("model.layers..self_attn.q_proj.weight"), None);
    assert_eq!(parse("model.layers.-3.self_attn.q_proj.weight"), None);
    assert_eq!(parse("model.layers.3.self_attn.x_proj.weight"), None);
    assert_eq!(parse("modelXlayers.3.self_attn.q_proj.weight"), None);
    assert_eq!(parse(""), None);
}

#[test]
fn layer_numbers_beyond_32_bits_are_refused() {
    let parse = AttentionAwareStrategy::parse_attention_proj;
    assert_eq!(parse("model.layers.4294967296.self_attn.q_proj.weight"), None);
    assert_eq!(parse("model.layers.99999999999999999999.self_attn.v_proj.weight"), None);
}

#[test]
fn digits_of_other_scripts_are_no_layer_number() {
    let parse = AttentionAwareStrategy::parse_attention_proj;
    assert_eq!(parse("model.layers.\u{0663}.self_attn.q_proj.weight"), None);
}

#[test]
fn layer_number_is_plain_decimal() {
    assert_eq!(parse_layer_number("0"), Some(0));
    assert_eq!(parse_layer_number("12"), Some(12));
    assert_eq!(parse_layer_number("000012"), Some(12));
    assert_eq!(parse_layer_number("4294967295"), Some(4294967295));
    assert_eq!(parse_layer_number("4294967296"), None);
    assert_eq!(parse_layer_number("42949672950"), None);
    assert_eq!(parse_layer_number(""), None);
    assert_eq!(parse_layer_number("+5"), None);
    assert_eq!(parse_layer_number("1a"), None);
    assert_eq!(parse_layer_number(" 1"), None);
}

#[test]
fn role_is_one_letter() {
    assert_eq!(parse_role("q"), Some(AttentionRole::Query));
    assert_eq!(parse_role("k"), Some(AttentionRole::Key));
    assert_eq!(parse_role("v"), Some(AttentionRole::Value));
    assert_eq!(parse_role("o"), Some(AttentionRole::Output));
    assert_eq!(parse_role("x"), None);
    assert_eq!(parse_role("qq"), None);
    assert_eq!(parse_role(""), None);
}

#[test]
fn captures_are_classified() {
    let groups = |n: &str, r: &str| {
        Some(vec![Some(format!("whole")), Some(n.to_string()), Some(r.to_string())])
    };
    assert_eq!(classify_captures(&groups("5", "k")), Some((5, AttentionRole::Key)));
    assert_eq!(classify_captures(&groups("5", "z")), None);
    assert_eq!(classify_captures(&groups("", "k")), None);
    assert_eq!(classify_captures(&None), None);
    assert_eq!(classify_captures(&Some(vec![Some("5".to_string()), Some("k".to_string())])), None);
    assert_eq!(
        classify_captures(&Some(vec![Some("w".to_string()), None, Some("k".to_string())])),
        None
    );
}

#[test]
fn cache_computes_once_per_layer() {
    let mut cache = LayerPermCache::new();
    assert_eq!(cache.lookup(3), None);
    let first = cache.get_or_compute(3, &[1, 9, 5]);
    assert_eq!(first, vec![1, 2, 0]);
    let second = cache.get_or_compute(3, &[9, 5, 1]);
    assert_eq!(second, first);
    assert_eq!(cache.lookup(3), Some(vec![1, 2, 0]));
    assert_eq!(cache.get_or_compute(4, &[9, 5, 1]), vec![0, 1, 2]);
    assert_eq!(cache.lookup(3), Some(vec![1, 2, 0]));
}

#[test]
fn query_key_and_value_share_one_permutation() {
    let mut s = AttentionAwareStrategy::new();
    let q: Vec<f32> = vec![1.0, 2.0, 3.0, 4.0, 5.0, 6.0];
    let k: Vec<f32> = vec![9.0, 8.0, 7.0, 6.0, 5.0, 4.0];
    let v: Vec<f32> = vec![0.5, 0.0, 0.25, 1.0, 2.0, 3.0];
    let q_name = "model.layers.5.self_attn.q_proj.weight";
    let k_name = "model.layers.5.self_attn.k_proj.weight";
    let v_name = "model.layers.5.self_attn.v_proj.weight";
    let (q_out, q_perm) = s.apply_permutation(&q, &[10, 30, 20], 2, 3, q_name).unwrap();
    let (k_out, k_perm) = s.apply_permutation(&k, &[90, 80, 70], 2, 3, k_name).unwrap();
    let (v_out, v_perm) = s.apply_permutation(&v, &[1, 2, 3], 2, 3, v_name).unwrap();
    assert_eq!(q_perm, Some(vec![1, 2, 0]));
    assert_eq!(k_perm, q_perm);
    assert_eq!(v_perm, q_perm);
    assert_eq!(q_out, vec![2.0, 3.0, 1.0, 5.0, 6.0, 4.0]);
    assert_eq!(k_out, vec![8.0, 7.0, 9.0, 5.0, 4.0, 6.0]);
    assert_eq!(v_out, vec![0.0, 0.25, 0.5, 2.0, 3.0, 1.0]);
    assert_eq!(s.shared_permutation(5), Some(vec![1, 2, 0]));
    assert_eq!(s.name(), "AttentionAware");
}

#[test]
fn output_projection_is_left_alone() {
    let mut s = AttentionAwareStrategy::new();
    let o: Vec<f32> = vec![1.0, 2.0, 3.0, 4.0, 5.0, 6.0];
    let r = s.apply_permutation(&o, &[10, 30, 20], 2, 3, "model.layers.5.self_attn.o_proj.weight");
    assert_eq!(r, Ok((o.clone(), None)));
    assert_eq!(s.shared_permutation(5), None);
    let r = s.apply_permutation(&o, &[], 2, 3, "model.layers.5.self_attn.o_proj.weight");
    assert_eq!(r, Ok((o, None)));
}

#[test]
fn layers_do_not_share_with_each_other() {
    let mut s = AttentionAwareStrategy::new();
    let data: Vec<u32> = vec![1, 2, 3, 4];
    let first = "model.layers.1.self_attn.q_proj.weight";
    let second = "model.layers.2.self_attn.q_proj.weight";
    let (_, a) = s.apply_permutation(&data, &[1, 2], 2, 2, first).unwrap();
    let (_, b) = s.apply_permutation(&data, &[2, 1], 2, 2, second).unwrap();
    assert_eq!(a, Some(vec![1, 0]));
    assert_eq!(b, Some(vec![0, 1]));
}

#[test]
fn other_tensors_are_ordered_by_energy() {
    let mut s = AttentionAwareStrategy::new();
    let data: Vec<u32> = vec![1, 2, 3, 4, 5, 6];
    let r = s.apply_permutation(&data, &[10, 30, 20], 2, 3, "model.layers.5.mlp.down_proj.weight");
    assert_eq!(r, order_by_energy(&data, &[10, 30, 20], 2, 3));
    assert_eq!(s.shared_permutation(5), None);
}

#[test]
fn request_order_does_not_matter_once_cached() {
    let key_name = "model.layers.3.self_attn.k_proj.weight";
    let query_name = "model.layers.3.self_attn.q_proj.weight";
    let value_name = "model.layers.3.self_attn.v_proj.weight";
    let data: Vec<u32> = (0..8).collect();
    let value_energy = [5u32, 50, 1, 20];
    let key_energy = [4u32, 3, 2, 1];
    let query_energy = [1u32, 2, 3, 4];

    let mut first = AttentionAwareStrategy::new();
    first.apply_permutation(&data, &value_energy, 2, 4, value_name).unwrap();
    let (_, k1) = first.apply_permutation(&data, &key_energy, 2, 4, key_name).unwrap();
    let (_, q1) = first.apply_permutation(&data, &query_energy, 2, 4, query_name).unwrap();

    let mut second = AttentionAwareStrategy::new();
    second.apply_permutation(&data, &value_energy, 2, 4, value_name).unwrap();
    let (_, q2) = second.apply_permutation(&data, &query_energy, 2, 4, query_name).unwrap();
    let (_, k2) = second.apply_permutation(&data, &key_energy, 2, 4, key_name).unwrap();

    assert_eq!(k1, Some(vec![1, 3, 0, 2]));
    assert_eq!(q1, k1);
    assert_eq!(q2, k1);
    assert_eq!(k2, k1);
}

#[test]
fn key_then_query_agree_from_an_empty_cache() {
    let data: Vec<u32> = (0..8).collect();
    let mut s = AttentionAwareStrategy::new();
    let key_name = "model.layers.3.self_attn.k_proj.weight";
    let query_name = "model.layers.3.self_attn.q_proj.weight";
    let (_, k) = s.apply_permutation(&data, &[4, 3, 2, 1], 2, 4, key_name).unwrap();
    let (_, q) = s.apply_permutation(&data, &[1, 2, 3, 4], 2, 4, query_name).unwrap();
    assert_eq!(k, Some(vec![0, 1, 2, 3]));
    assert_eq!(q, k);
}

#[test]
fn shared_permutation_of_another_width_is_refused() {
    let mut s = AttentionAwareStrategy::new();
    let narrow: Vec<u32> = vec![1, 2, 3, 4];
    let wide: Vec<u32> = vec![1, 2, 3, 4, 5, 6];
    s.apply_permutation(&narrow, &[1, 2], 2, 2, "model.layers.1.self_attn.q_proj.weight").unwrap();
    let r = s.apply_permutation(&wide, &[1, 2, 3], 2, 3, "model.layers.1.self_attn.k_proj.weight");
    assert_eq!(r, Err(StrategyError::SharedLengthMismatch));
    assert_eq!(s.shared_permutation(1), Some(vec![1, 0]));
}

#[test]
fn attention_rejects_bad_input_and_keeps_its_cache() {
    let mut s = AttentionAwareStrategy::new();
    let data: Vec<u32> = vec![1, 2, 3, 4];
    let name = "model.layers.1.self_attn.q_proj.weight";
    assert_eq!(s.apply_permutation(&data, &[1, 2], 3, 2, name), Err(StrategyError::ShapeMismatch));
    let short = s.apply_permutation(&data, &[1], 2, 2, name);
    assert_eq!(short, Err(StrategyError::EnergyCountMismatch));
    assert_eq!(s.shared_permutation(1), None);
    let o = "model.layers.1.self_attn.o_proj.weight";
    assert_eq!(s.apply_permutation(&data, &[1, 2], 3, 2, o), Err(StrategyError::ShapeMismatch));
}

#[test]
fn energies_are_read_only_where_needed() {
    let mut s = AttentionAwareStrategy::new();
    assert!(s.reads_energies(None));
    assert!(s.reads_energies(Some((2, AttentionRole::Key))));
    assert!(!s.reads_energies(Some((2, AttentionRole::Output))));
    let data: Vec<u32> = vec![1, 2, 3, 4];
    s.apply_to_target(Some((2, AttentionRole::Value)), &data, &[1, 2], 2, 2).unwrap();
    assert!(!s.reads_energies(Some((2, AttentionRole::Key))));
    assert!(s.reads_energies(Some((3, AttentionRole::Key))));
    let r = s.apply_to_target(Some((2, AttentionRole::Key)), &data, &[], 2, 2);
    assert_eq!(r, Ok((vec![2, 1, 4, 3], Some(vec![1, 0]))));
}

#[test]
fn registry_constructs_two_strategies() {
    assert!(is_implemented(&StrategyType::L2Norm));
    assert!(is_implemented(&StrategyType::AttentionAware));
    assert!(matches!(create_strategy(&StrategyType::L2Norm), AnyStrategy::L2Norm(_)));
    let mut s = create_strategy(&StrategyType::AttentionAware);
    assert!(matches!(s, AnyStrategy::AttentionAware(_)));
    assert_eq!(s.name(), "AttentionAware");
    let data: Vec<u32> = vec![1, 2, 3, 4];
    let r = s.apply_permutation(&data, &[1, 2], 2, 2, "model.layers.1.self_attn.o_proj.weight");
    assert_eq!(r, Ok((data.clone(), None)));
    let mut l = create_strategy(&StrategyType::L2Norm);
    assert_eq!(l.name(), "L2Norm");
    let r = l.apply_permutation(&data, &[1, 2], 2, 2, "model.layers.1.self_attn.o_proj.weight");
    assert_eq!(r, Ok((vec![2, 1, 4, 3], Some(vec![1, 0]))));
}

#[test]
fn registry_constructs_no_other_strategy() {
    assert!(!is_implemented(&StrategyType::QRPivot));
    assert!(!is_implemented(&StrategyType::Learnable { learning_rate: 0, iterations: 10 }));
}

#[test]
fn every_strategy_returns_a_bijection() {
    let rows = 3;
    let k = 40;
    let data: Vec<u32> = (0..(rows * k) as u32).collect();
    let energies: Vec<u32> = (0..k as u32).map(|i| (i * 37 + 5) % 11).collect();
    let identity: Vec<usize> = (0..k).collect();
    let mut l2 = L2NormStrategy::new();
    let mut attention = AttentionAwareStrategy::new();
    let mut learnable = LearnableStrategy::new(0, 0);
    let name = "model.layers.9.self_attn.v_proj.weight";
    let results = vec![
        l2.apply_permutation(&data, &energies, rows, k, name),
        attention.apply_permutation(&data, &energies, rows, k, name),
        learnable.apply_permutation(&data, &energies, rows, k, name),
    ];
    for r in results {
        let (out, perm) = r.unwrap();
        let perm = perm.unwrap();
        assert_eq!(sorted(&perm), identity);
        assert_eq!(out.len(), rows * k);
        for row in 0..rows {
            for c in 0..k {
                assert_eq!(out[row * k + c], data[row * k + perm[c]]);
            }
        }
    }
}
