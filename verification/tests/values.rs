use ndhistogram::axis::Uniform;
use ndhistogram::error::AxisError;
use ndhistogram::error::BinaryOperationError;
use ndhistogram::error::Error;
use ndhistogram::histogram::Fill;
use ndhistogram::histogram::FillWith;
use ndhistogram::histogram::FillWithWeighted;
use ndhistogram::value::Mean;
use ndhistogram::value::Sum;
use ndhistogram::value::Weighted;
use ndhistogram::value::WeightedMean;
use ndhistogram::value::WeightedSum;
use ndhistogram::AxesTuple;
use ndhistogram::Histogram;
use ndhistogram::VecHistogram;

#[test]
fn test_sum_fill() {
    let mut sum = Sum::new();
    sum.fill();
    sum.fill();
    assert_eq!(sum.get(), 2);
    assert_eq!(sum.sum(), 2);
    assert_eq!(sum.variance(), 2);
}

#[test]
fn test_sum_fill_with() {
    let mut sum = Sum::new();
    sum.fill_with(5);
    sum.fill_with(-2);
    assert_eq!(sum.get(), 3);
}

#[test]
fn test_weighted_sum_tracks_squares() {
    let mut ws = WeightedSum::new();
    ws.fill_with(3);
    ws.fill_with(4);
    assert_eq!(ws.get(), 7);
    assert_eq!(ws.sum(), 7);
    assert_eq!(ws.variance(), 9 + 16);
    ws.fill();
    assert_eq!(ws.sum(), 8);
    assert_eq!(ws.variance(), 26);
}

#[test]
fn test_mean_accumulates_sums_and_count() {
    let mean = Mean::new(vec![1, 2, 3]);
    assert_eq!(mean.sum(), 6);
    assert_eq!(mean.sum_of_squares(), 1 + 4 + 9);
    assert_eq!(mean.num_samples(), 3);
    let mut more = mean;
    more.fill_with(4);
    assert_eq!(more.sum(), 10);
    assert_eq!(more.num_samples(), 4);
}

#[test]
fn test_weighted_mean_accumulates_sums_and_count() {
    let wm = WeightedMean::new(vec![(2, 1), (2, 2), (4, 3)]);
    // sum of datum * weight: 2*1 + 2*2 + 4*3
    assert_eq!(wm.sum(), 18);
    // sum of datum^2 * weight: 4*1 + 4*2 + 16*3
    assert_eq!(wm.sum_of_weighted_squares(), 60);
    assert_eq!(wm.sum_of_weights(), 6);
    assert_eq!(wm.sum_of_squared_weights(), 1 + 4 + 9);
    assert_eq!(wm.num_samples(), 3);
    let mut more = wm;
    more.fill_with_weighted(1, 1);
    assert_eq!(more.sum(), 19);
    assert_eq!(more.num_samples(), 4);
}

#[test]
fn test_weighted_pairs_value_and_weight() {
    let w = Weighted::new(7, 2);
    assert_eq!(w.value, 7);
    assert_eq!(w.weight, 2);
}

#[test]
fn test_accumulators_as_bin_values() {
    let axes: AxesTuple<(Uniform,)> =
        AxesTuple::from((Uniform::with_step_size(4, 0, 1).unwrap(),));
    let mut hist = VecHistogram::<_, WeightedSum>::new(axes.clone());
    hist.fill_with(&1, 3);
    hist.fill_with(&1, 4);
    let ws = hist.value(&1).unwrap();
    assert_eq!(ws.sum(), 7);
    assert_eq!(ws.variance(), 25);

    let mut mh = VecHistogram::<_, Mean>::new(axes.clone());
    mh.fill_with(&1, 1);
    mh.fill_with(&1, 3);
    let mean = mh.value(&1).unwrap();
    assert_eq!(mean.sum(), 4);
    assert_eq!(mean.num_samples(), 2);

    let mut wmh = VecHistogram::<_, WeightedMean>::new(axes);
    wmh.fill_with_weighted(&1, 2, 1);
    wmh.fill_with_weighted(&1, 2, 2);
    wmh.fill_with_weighted(&1, 4, 3);
    let wm = wmh.value(&1).unwrap();
    assert_eq!(wm.sum(), 18);
    assert_eq!(wm.sum_of_weights(), 6);
}

#[test]
fn test_error_messages_exist() {
    assert!(!BinaryOperationError.message().is_empty());
    assert!(!AxisError::InvalidNumberOfBins.message().is_empty());
    assert!(!Error::AxisError(AxisError::InvalidAxisRange).message().is_empty());
    assert!(!Error::BinaryOperationError(BinaryOperationError).message().is_empty());
    assert!(!AxisError::InvalidStepSize.message().is_empty());
    assert!(!AxisError::InvalidNumberOfBinEdges.message().is_empty());
    assert!(!AxisError::FailedToSortBinEdges.message().is_empty());
}
