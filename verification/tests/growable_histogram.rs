use ndhistogram::axis::binrange::SingleValuedBinRange;
use ndhistogram::axis::Category;
use ndhistogram::AxesTuple;
use ndhistogram::Histogram;
use ndhistogram::Item;
use ndhistogram::VecHistogram;

#[test]
fn test_histogram_category_grows() {
    let axes: AxesTuple<(Category<&str>,)> =
        AxesTuple::from((Category::growable(vec!["A", "B"]),));
    let mut hist = VecHistogram::<_, i32>::new(axes);
    // A growable axis has no overflow bin: an unseen value has no bin
    // until it is first filled.
    assert_eq!(hist.value(&"C"), None);
    hist.fill(&"C");
    assert_eq!(hist.value(&"C"), Some(&1));
    // check every bin value
    let actual: Vec<_> = hist.iter();
    let expected = vec![
        Item::new(0, SingleValuedBinRange::new("A"), 0),
        Item::new(1, SingleValuedBinRange::new("B"), 0),
        Item::new(2, SingleValuedBinRange::new("C"), 1),
    ];
    assert_eq!(expected, actual);
}

#[test]
fn test_growable_category_num_bins_never_decreases() {
    let mut ax = Category::growable(vec!["A"]);
    let mut previous = 1;
    for value in ["B", "A", "C", "B", "D"] {
        let index = ax.grow_lookup(&value);
        assert!(index.is_some());
        let n = ndhistogram::axis::Axis::num_bins(&ax);
        assert!(n >= previous);
        previous = n;
    }
    assert_eq!(previous, 4);
}
