use ndhistogram::axis::Axis;
use ndhistogram::axis::Uniform;

#[test]
fn test_builds() {
    assert!(true);
}

#[test]
fn test_histogram1d_fill() {
    let axis = Uniform::with_step_size(10, 0, 1).unwrap();
    let axes: ndhistogram::AxesTuple<(Uniform,)> = ndhistogram::AxesTuple::from((axis,));
    let mut hist = ndhistogram::VecHistogram::<_, i64>::new(axes);
    hist.fill_with(&1, 1);
    assert_eq!(axis.num_bins(), 12);
}
