use recolor::{nearest, plan, InterpolationMode, Match, RecolorError, Weight};

#[test]
fn nearest_picks_smallest_distance() {
    assert_eq!(nearest(&vec![7, 2, 9], None), Some(Match::Nearest { index: 1 }));
}

#[test]
fn nearest_tie_goes_to_earlier_entry() {
    assert_eq!(nearest(&vec![4, 1, 1, 1], None), Some(Match::Nearest { index: 1 }));
}

#[test]
fn nearest_on_empty_palette_is_none() {
    assert_eq!(nearest(&vec![], None), None);
    assert_eq!(nearest(&vec![], Some(InterpolationMode::Mix)), None);
    assert_eq!(nearest(&vec![], Some(InterpolationMode::Interpolate)), None);
}

#[test]
fn single_entry_is_enough_without_interpolation() {
    assert_eq!(nearest(&vec![42], None), Some(Match::Nearest { index: 0 }));
}

#[test]
fn single_entry_is_too_few_for_mix_and_interpolate() {
    for key in [0u32, 1, 1000, u32::MAX] {
        assert_eq!(nearest(&vec![key], Some(InterpolationMode::Mix)), None);
        assert_eq!(nearest(&vec![key], Some(InterpolationMode::Interpolate)), None);
    }
}

#[test]
fn mix_weights_by_distance() {
    assert_eq!(
        nearest(&vec![9, 3, 5], Some(InterpolationMode::Mix)),
        Some(Match::Blend { first: 1, second: 2, weight: Weight::Distance })
    );
}

#[test]
fn mix_on_equidistant_pair_is_even_like_interpolate() {
    let keys = vec![8, 3, 3];
    let mix = nearest(&keys, Some(InterpolationMode::Mix));
    let even = nearest(&keys, Some(InterpolationMode::Interpolate));
    assert_eq!(mix, Some(Match::Blend { first: 1, second: 2, weight: Weight::Half }));
    assert_eq!(mix, even);
}

#[test]
fn mix_with_both_distances_zero_keeps_first() {
    assert_eq!(
        nearest(&vec![0, 6, 0], Some(InterpolationMode::Mix)),
        Some(Match::Blend { first: 0, second: 2, weight: Weight::First })
    );
}

#[test]
fn interpolate_is_always_even() {
    assert_eq!(
        nearest(&vec![1, 50, 2], Some(InterpolationMode::Interpolate)),
        Some(Match::Blend { first: 0, second: 2, weight: Weight::Half })
    );
}

#[test]
fn second_nearest_when_first_is_last() {
    assert_eq!(
        nearest(&vec![5, 5, 1], Some(InterpolationMode::Mix)),
        Some(Match::Blend { first: 2, second: 0, weight: Weight::Distance })
    );
}

#[test]
fn nearest_is_deterministic() {
    let keys = vec![12, 4, 7, 4, 30];
    for mode in [None, Some(InterpolationMode::Mix), Some(InterpolationMode::Interpolate)] {
        let first = nearest(&keys, mode);
        for _ in 0..10 {
            assert_eq!(nearest(&keys, mode), first);
        }
    }
}

#[test]
fn plan_resolves_every_pixel() {
    let pixels = vec![vec![3, 1], vec![2, 2], vec![0, 5]];
    assert_eq!(
        plan(&pixels, None),
        Ok(vec![
            Match::Nearest { index: 1 },
            Match::Nearest { index: 0 },
            Match::Nearest { index: 0 },
        ])
    );
}

#[test]
fn plan_of_empty_image_is_empty() {
    assert_eq!(plan(&vec![], Some(InterpolationMode::Mix)), Ok(vec![]));
}

#[test]
fn plan_fails_whole_run_on_small_palette() {
    let pixels = vec![vec![3], vec![1], vec![0]];
    assert_eq!(
        plan(&pixels, Some(InterpolationMode::Mix)),
        Err(RecolorError::InsufficientPalette { pixel: 0 })
    );
}

#[test]
fn plan_reports_lowest_failing_pixel() {
    let pixels = vec![vec![3, 4], vec![1, 1], vec![0], vec![2]];
    assert_eq!(
        plan(&pixels, Some(InterpolationMode::Interpolate)),
        Err(RecolorError::InsufficientPalette { pixel: 2 })
    );
}

#[test]
fn plan_is_order_independent() {
    let pixels = vec![vec![3, 1, 2], vec![2, 2, 0], vec![5, 0, 5], vec![1, 1, 1]];
    let mode = Some(InterpolationMode::Mix);
    let forward = plan(&pixels, mode).unwrap();
    let reversed: Vec<Vec<u32>> = pixels.iter().rev().cloned().collect();
    let backward = plan(&reversed, mode).unwrap();
    let mut undone = backward.clone();
    undone.reverse();
    assert_eq!(forward, undone);
    let shuffle = [2usize, 0, 3, 1];
    let shuffled: Vec<Vec<u32>> = shuffle.iter().map(|&i| pixels[i].clone()).collect();
    let out = plan(&shuffled, mode).unwrap();
    for (k, &i) in shuffle.iter().enumerate() {
        assert_eq!(out[k], forward[i]);
    }
}
