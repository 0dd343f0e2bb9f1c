use mlxcel_xla::molmo2::{
    add_projected_features, find_non_finite, Molmo2InputError, Molmo2SafePooling,
};

fn plus(a: u32, b: u32) -> u32 {
    (f32::from_bits(a) + f32::from_bits(b)).to_bits()
}

fn bits(values: &[f32]) -> Vec<u32> {
    values.iter().map(|value| value.to_bits()).collect()
}

#[test]
fn negative_pooling_sentinels_are_preserved_but_cannot_leak_patch_zero() {
    let pooling = Molmo2SafePooling::prepare(&[4, -1, 2, -7, -1, -1, -1, -1], 2, 4, 5)
        .expect("valid signed pooling");
    assert_eq!(pooling.signed_indices, vec![4, -1, 2, -7, -1, -1, -1, -1]);
    assert_eq!(pooling.gather_indices, vec![4, 0, 2, 0, 0, 0, 0, 0]);
    assert_eq!(pooling.valid_mask, vec![1, 0, 1, 0, 0, 0, 0, 0]);
    assert_eq!(pooling.valid_counts, vec![2, 0]);
    assert_eq!(pooling.mean_denominators(true), vec![2, 1]);
    assert_eq!(pooling.mean_denominators(false), vec![4, 4]);

    let patches = [100.0, 1.0, 2.0, 3.0, 4.0];
    let masked_sums = (0..pooling.groups)
        .map(|group| {
            (0..pooling.group_size)
                .map(|offset| {
                    let flat = group * pooling.group_size + offset;
                    patches[pooling.gather_indices[flat] as usize]
                        * f32::from(pooling.valid_mask[flat])
                })
                .sum::<f32>()
        })
        .collect::<Vec<_>>();
    assert_eq!(masked_sums, vec![6.0, 0.0]);
}

#[test]
fn pooling_rejects_shape_and_positive_out_of_range_indices() {
    assert!(matches!(
        Molmo2SafePooling::prepare(&[0, 1, 2], 1, 4, 3),
        Err(Molmo2InputError::PoolingShape { .. })
    ));
    assert!(matches!(
        Molmo2SafePooling::prepare(&[0, 1, 3, -1], 1, 4, 3),
        Err(Molmo2InputError::PoolingIndex { group: 0, offset: 2, value: 3, .. })
    ));
}

#[test]
fn active_rows_are_rejected_before_native_invoke_when_cardinality_drifts() {
    let partial = Molmo2SafePooling::prepare(&[0, -1, -1, -1, 1, -1, -1, -1], 2, 4, 2)
        .expect("partially filled groups are valid");
    assert_eq!(partial.active_groups_for_prompt(2, 2).unwrap(), vec![0, 1]);

    let all_invalid = Molmo2SafePooling::prepare(&[0, -1, -1, -1, -1, -1, -1, -1], 2, 4, 2)
        .expect("negative sentinels remain valid inputs");
    assert!(matches!(
        all_invalid.active_groups_for_prompt(2, 2),
        Err(Molmo2InputError::ActiveTokenCount {
            active_groups: 1,
            grid_groups: 2,
            prompt_positions: 2,
            all_invalid_groups,
        }) if all_invalid_groups == vec![1]
    ));

    assert!(matches!(
        partial.active_groups_for_prompt(2, 1),
        Err(Molmo2InputError::ActiveTokenCount {
            active_groups: 2,
            grid_groups: 2,
            prompt_positions: 1,
            all_invalid_groups,
        }) if all_invalid_groups.is_empty()
    ));
}

#[test]
fn image_patch_features_are_added_in_scanned_position_order() {
    let tokens = [9, 151_938, 8, 151_938];
    let mut embeddings = bits(&[1.0, 1.0, 10.0, 20.0, 2.0, 2.0, 30.0, 40.0]);
    let positions = add_projected_features(
        &tokens,
        151_938,
        &mut embeddings,
        2,
        &bits(&[0.5, 1.5, 2.5, 3.5]),
        plus,
    )
    .expect("matching image positions");
    assert_eq!(positions, vec![1, 3]);
    assert_eq!(embeddings, bits(&[1.0, 1.0, 10.5, 21.5, 2.0, 2.0, 32.5, 43.5]));
    assert_ne!(embeddings[2..4], bits(&[0.5, 1.5])[..]);
}

#[test]
fn additive_merge_rejects_count_mismatch_and_non_finite_values() {
    let tokens = [151_938, 7];
    let mut embeddings = bits(&[0.0; 4]);
    assert!(matches!(
        add_projected_features(&tokens, 151_938, &mut embeddings, 0, &[], plus),
        Err(Molmo2InputError::ZeroHiddenSize)
    ));
    assert!(matches!(
        add_projected_features(&tokens, 151_938, &mut embeddings, 2, &[], plus),
        Err(Molmo2InputError::ProjectedTokenCount { positions: 1, projected_tokens: 0 })
    ));
    assert!(matches!(
        add_projected_features(
            &tokens,
            151_938,
            &mut embeddings,
            2,
            &bits(&[f32::NAN, 0.0]),
            plus
        ),
        Err(Molmo2InputError::NonFinite { tensor: "projected features", index: 0 })
    ));

    let mut overflowing = bits(&[f32::MAX, 7.0, 0.0, 0.0]);
    let snapshot = overflowing.clone();
    assert!(matches!(
        add_projected_features(
            &tokens,
            151_938,
            &mut overflowing,
            2,
            &bits(&[f32::MAX, 1.0]),
            plus
        ),
        Err(Molmo2InputError::NonFinite { tensor: "merged embeddings", index: 0 })
    ));
    assert_eq!(overflowing, snapshot, "overflow rejection must be atomic");
}

#[test]
fn the_remaining_input_errors_have_their_inputs() {
    let error = Molmo2SafePooling::prepare(&[], 0, 0, 1).unwrap_err();
    assert_eq!(error.message(), "Molmo2 pooling groups must contain at least one patch index");
    let error = Molmo2SafePooling::prepare(&[], usize::MAX, 2, 1).unwrap_err();
    assert_eq!(error.message(), "Molmo2 tensor shape overflowed");
    let error = Molmo2SafePooling::prepare(&[0, 5], 1, 2, 3).unwrap_err();
    assert_eq!(
        error.message(),
        "Molmo2 pooling group 0 offset 1 nonnegative index 5 is outside [0,3)"
    );

    let mut embeddings = bits(&[0.0; 3]);
    let error = add_projected_features(&[1, 2], 1, &mut embeddings, 2, &[], plus).unwrap_err();
    assert_eq!(error.message(), "Molmo2 text embeddings have 3 values, expected 2 * 2");
    let mut embeddings = bits(&[0.0; 4]);
    let error = add_projected_features(&[1, 2], 1, &mut embeddings, 2, &[0], plus).unwrap_err();
    assert!(matches!(error, Molmo2InputError::ProjectedShape { values: 1, .. }));
}

#[test]
fn the_first_non_finite_value_is_found() {
    assert_eq!(find_non_finite(&bits(&[1.0, f32::NEG_INFINITY, f32::NAN])), Some(1));
    assert_eq!(find_non_finite(&bits(&[1.0, f32::MAX])), None);
}
