use ndhistogram::axis::Axis;
use ndhistogram::axis::Category;
use ndhistogram::axis::Uniform;
use ndhistogram::axis::UniformCyclic;
use ndhistogram::error::BinaryOperationError;
use ndhistogram::AxesTuple;
use ndhistogram::HashHistogram;
use ndhistogram::Histogram;
use ndhistogram::VecHistogram;

fn uniform_axes(num: usize, low: i64, step: i64) -> AxesTuple<(Uniform,)> {
    AxesTuple::from((Uniform::with_step_size(num, low, step).unwrap(),))
}

#[test]
fn test_uniform_histogram_scenario() {
    // Two bins of width 2 covering [0, 4), plus underflow and overflow.
    let mut hist = VecHistogram::<_, i64>::new(uniform_axes(2, 0, 2));
    hist.fill_with(&-2, 1);
    hist.fill_with(&0, 20);
    hist.fill_with(&1, 300);
    hist.fill_with(&2, 4000);
    hist.fill_with(&3, 50000);
    hist.fill_with(&4, 600000);
    hist.fill_with(&5, 7000000);
    let actual: Vec<i64> = hist.values().clone();
    assert_eq!(actual, vec![1, 320, 54000, 7600000]);
}

#[test]
fn test_cyclic_histogram_scenario() {
    let axes: AxesTuple<(UniformCyclic,)> =
        AxesTuple::from((UniformCyclic::with_step_size(4, 0, 90).unwrap(),));
    let mut hist = VecHistogram::<_, i64>::new(axes);
    hist.fill(&45);
    hist.fill(&(45 + 360));
    hist.fill(&(45 - 360));
    assert_eq!(hist.value(&45), Some(&3));
    assert_eq!(hist.value(&(45 + 360)), Some(&3));
}

#[test]
fn test_category_overflow_collects_unseen_values() {
    let axes: AxesTuple<(Category<&str>,)> = AxesTuple::from((Category::new(vec!["A", "B"]),));
    let mut hist = VecHistogram::<_, i64>::new(axes);
    hist.fill(&"A");
    assert_eq!(hist.value(&"A"), Some(&1));
    // an unseen value resolves to the overflow bucket's accumulated value
    assert_eq!(hist.value(&"C"), Some(&0));
    hist.fill(&"D");
    assert_eq!(hist.value(&"C"), Some(&1));
}

#[test]
fn test_mass_conservation_with_flow_bins() {
    // Flow bins absorb out-of-range weight instead of discarding it, so
    // the total of all bin values equals the total of the fill weights.
    let mut hist = VecHistogram::<_, i64>::new(uniform_axes(4, 0, 1));
    let fills: Vec<(i64, i64)> = vec![(-10, 5), (0, 7), (2, 11), (3, 2), (99, 23)];
    let mut total = 0;
    for (x, w) in fills {
        hist.fill_with(&x, w);
        total += w;
    }
    let sum: i64 = hist.values().iter().sum();
    assert_eq!(sum, total);
}

#[test]
fn test_dense_and_sparse_engines_agree() {
    let mut dense = VecHistogram::<_, i64>::new(uniform_axes(4, 0, 1));
    let mut sparse = HashHistogram::<_, i64>::new(uniform_axes(4, 0, 1));
    let fills: Vec<(i64, i64)> = vec![(-3, 2), (0, 5), (0, 1), (3, 7), (10, 4)];
    for (x, w) in fills {
        dense.fill_with(&x, w);
        sparse.fill_with(&x, w);
    }
    for x in -5..10 {
        let dense_value = *dense.value(&x).unwrap();
        let sparse_value = sparse.value(&x).copied().unwrap_or(0);
        assert_eq!(dense_value, sparse_value);
    }
    // an unfilled bin is logically at the default in both engines
    assert_eq!(dense.value(&1), Some(&0));
    assert_eq!(sparse.value(&1), None);
}

#[test]
fn test_sparse_histogram_stores_only_touched_bins() {
    let mut hist = HashHistogram::<_, i64>::new(uniform_axes(1000000, 0, 1));
    hist.fill(&17);
    hist.fill(&17);
    hist.fill(&999);
    assert_eq!(hist.value(&17), Some(&2));
    assert_eq!(hist.value(&999), Some(&1));
    assert_eq!(hist.value(&500), None);
    assert_eq!(hist.iter().len(), 2);
}

#[test]
fn test_histogram_self_subtraction_is_default() {
    let mut hist = VecHistogram::<_, i64>::new(uniform_axes(4, 0, 1));
    hist.fill_with(&0, 3);
    hist.fill_with(&2, 9);
    hist.fill_with(&-1, 4);
    let copy = hist.clone();
    let diff = hist.sub(&copy).unwrap();
    assert_eq!(diff.values().clone(), vec![0, 0, 0, 0, 0, 0]);

    let mut sparse = HashHistogram::<_, i64>::new(uniform_axes(4, 0, 1));
    sparse.fill_with(&0, 3);
    sparse.fill_with(&2, 9);
    let sparse_copy = sparse.clone();
    let sparse_diff = sparse
        .combine(&sparse_copy, ndhistogram::histogram::BinaryOp::Sub)
        .unwrap();
    for item in sparse_diff.iter() {
        assert_eq!(item.value, 0);
    }
}

#[test]
fn test_histogram_addition_matching_axes() {
    let mut h1 = VecHistogram::<_, i64>::new(uniform_axes(10, -5, 1));
    let mut h2 = VecHistogram::<_, i64>::new(uniform_axes(10, -5, 1));
    h1.fill_with(&0, 2);
    h2.fill(&0);
    let combined = h1.add(&h2).unwrap();
    assert_eq!(combined.value(&0), Some(&3));
}

#[test]
fn test_histogram_addition_mismatched_axes_fails() {
    let h1 = VecHistogram::<_, i64>::new(uniform_axes(10, -5, 1));
    let h2 = VecHistogram::<_, i64>::new(uniform_axes(11, -5, 1));
    match h1.add(&h2) {
        Err(e) => assert_eq!(e, BinaryOperationError),
        Ok(_) => panic!("adding histograms with mismatched axes must fail"),
    }

    let s1 = HashHistogram::<_, i64>::new(uniform_axes(10, -5, 1));
    let s2 = HashHistogram::<_, i64>::new(uniform_axes(11, -5, 1));
    assert!(s1
        .combine(&s2, ndhistogram::histogram::BinaryOp::Add)
        .is_err());
}

#[test]
fn test_sparse_addition_unions_touched_bins() {
    let mut s1 = HashHistogram::<_, i64>::new(uniform_axes(10, 0, 1));
    let mut s2 = HashHistogram::<_, i64>::new(uniform_axes(10, 0, 1));
    s1.fill_with(&1, 5);
    s1.fill_with(&3, 7);
    s2.fill_with(&3, 11);
    s2.fill_with(&8, 13);
    let sum = s1
        .combine(&s2, ndhistogram::histogram::BinaryOp::Add)
        .unwrap();
    assert_eq!(sum.value(&1), Some(&5));
    assert_eq!(sum.value(&3), Some(&18));
    assert_eq!(sum.value(&8), Some(&13));
    assert_eq!(sum.value(&5), None);
}

#[test]
fn test_dense_in_place_addition() {
    let mut h1 = VecHistogram::<_, i64>::new(uniform_axes(4, 0, 1));
    let mut h2 = VecHistogram::<_, i64>::new(uniform_axes(4, 0, 1));
    h1.fill_with(&0, 2);
    h2.fill_with(&0, 3);
    h2.fill_with(&2, 7);
    h1.combine_assign(&h2, ndhistogram::histogram::BinaryOp::Add);
    assert_eq!(h1.value(&0), Some(&5));
    assert_eq!(h1.value(&2), Some(&7));
}

#[test]
fn test_two_dimensional_histogram_fill_and_read() {
    let x = Uniform::with_step_size(2, 0, 1).unwrap();
    let y = Uniform::with_step_size(3, 0, 1).unwrap();
    let axes: AxesTuple<(Uniform, Uniform)> = AxesTuple::from((x, y));
    assert_eq!(axes.num_bins(), 4 * 5);
    let mut hist = VecHistogram::<_, i64>::new(axes);
    hist.fill(&(0, 0));
    hist.fill(&(0, 0));
    hist.fill(&(1, 2));
    assert_eq!(hist.value(&(0, 0)), Some(&2));
    assert_eq!(hist.value(&(1, 2)), Some(&1));
    assert_eq!(hist.value(&(1, 1)), Some(&0));
}

#[test]
fn test_mixed_radix_round_trip_2d() {
    let x = Uniform::with_step_size(2, 0, 1).unwrap();
    let y = Uniform::with_step_size(3, 0, 1).unwrap();
    let axes: AxesTuple<(Uniform, Uniform)> = AxesTuple::from((x.clone(), y.clone()));
    for xi in 0..x.num_bins() {
        for yi in 0..y.num_bins() {
            let linear = xi + x.num_bins() * yi;
            let bin = axes.bin(linear).unwrap();
            assert_eq!(Some(bin.0), x.bin(xi));
            assert_eq!(Some(bin.1), y.bin(yi));
        }
    }
}

#[test]
fn test_mixed_radix_round_trip_3d() {
    let x = Uniform::with_step_size(2, 0, 1).unwrap();
    let y = Uniform::with_step_size(3, 0, 1).unwrap();
    let z = Uniform::with_step_size(4, 0, 1).unwrap();
    let axes: AxesTuple<(Uniform, Uniform, Uniform)> =
        AxesTuple::from((x.clone(), y.clone(), z.clone()));
    for xi in 0..x.num_bins() {
        for yi in 0..y.num_bins() {
            for zi in 0..z.num_bins() {
                let linear = xi + x.num_bins() * (yi + y.num_bins() * zi);
                let bin = axes.bin(linear).unwrap();
                assert_eq!(Some(bin.0), x.bin(xi));
                assert_eq!(Some(bin.1), y.bin(yi));
                assert_eq!(Some(bin.2), z.bin(zi));
            }
        }
    }
}

#[test]
fn test_sparse_values_and_mutable_access() {
    let mut hist = HashHistogram::<_, i64>::new(uniform_axes(10, 0, 1));
    hist.fill_with(&2, 5);
    hist.fill_with(&7, 9);
    assert_eq!(hist.values(), vec![5, 9]);
    *(hist.value_at_index_mut(3)) = 6;
    assert_eq!(hist.value(&2), Some(&6));
    assert_eq!(hist.values(), vec![6, 9]);
}

#[test]
fn test_sparse_in_place_addition() {
    let mut s1 = HashHistogram::<_, i64>::new(uniform_axes(10, 0, 1));
    let mut s2 = HashHistogram::<_, i64>::new(uniform_axes(10, 0, 1));
    s1.fill_with(&1, 5);
    s1.fill_with(&3, 7);
    s2.fill_with(&3, 11);
    s2.fill_with(&8, 13);
    s1.combine_assign(&s2, ndhistogram::histogram::BinaryOp::Add);
    assert_eq!(s1.value(&1), Some(&5));
    assert_eq!(s1.value(&3), Some(&18));
    assert_eq!(s1.value(&8), Some(&13));
    assert_eq!(s1.value(&5), None);
}
