use ndhistogram::axis::Axis;
use ndhistogram::axis::BinInterval;
use ndhistogram::axis::Cyclic;
use ndhistogram::axis::Uniform;
use ndhistogram::axis::UniformCyclic;
use ndhistogram::axis::UniformNoFlow;
use ndhistogram::axis::Variable;
use ndhistogram::axis::VariableCyclic;
use ndhistogram::axis::VariableNoFlow;
use ndhistogram::error::AxisError;

#[test]
fn test_uniform_with_step_size_layout() {
    let ax = Uniform::with_step_size(10, -5, 1).unwrap();
    assert_eq!(ax.low(), -5);
    assert_eq!(ax.high(), 5);
    assert_eq!(ax.num_bins(), 12);
    assert_eq!(ax.bin(0), Some(BinInterval::underflow(-5)));
    assert_eq!(ax.bin(1), Some(BinInterval::new(-5, -4)));
    assert_eq!(ax.bin(10), Some(BinInterval::new(4, 5)));
    assert_eq!(ax.bin(11), Some(BinInterval::overflow(5)));
    assert_eq!(ax.bin(12), None);
}

#[test]
fn test_uniform_index_monotonic_and_flow() {
    let ax = Uniform::with_step_size(10, -5, 1).unwrap();
    assert_eq!(ax.index(&-6), Some(0));
    assert_eq!(ax.index(&-5), Some(1));
    assert_eq!(ax.index(&0), Some(6));
    assert_eq!(ax.index(&4), Some(11 - 1));
    assert_eq!(ax.index(&5), Some(11));
    assert_eq!(ax.index(&100), Some(11));
    let mut previous = 0;
    for x in -20..20 {
        let index = ax.index(&x).unwrap();
        assert!(index >= previous);
        previous = index;
        // the bin of an in-range coordinate contains the coordinate
        if x >= -5 && x < 5 {
            let bin = ax.bin(index).unwrap();
            assert!(bin.start().unwrap() <= x);
            assert!(x < bin.end().unwrap());
        }
    }
}

#[test]
fn test_uniform_constructor_errors() {
    assert_eq!(
        Uniform::with_step_size(0, 0, 1),
        Err(AxisError::InvalidNumberOfBins)
    );
    assert_eq!(
        Uniform::with_step_size(10, 0, 0),
        Err(AxisError::InvalidStepSize)
    );
    assert_eq!(
        Uniform::with_step_size(10, 0, -3),
        Err(AxisError::InvalidStepSize)
    );
    assert_eq!(
        UniformNoFlow::with_step_size(0, 0, 1),
        Err(AxisError::InvalidNumberOfBins)
    );
    assert_eq!(
        UniformCyclic::with_step_size(10, 0, 0),
        Err(AxisError::InvalidStepSize)
    );
}

#[test]
fn test_uniform_noflow_rejects_out_of_range() {
    let ax = UniformNoFlow::with_step_size(10, -5, 1).unwrap();
    assert_eq!(ax.num_bins(), 10);
    assert_eq!(ax.index(&-6), None);
    assert_eq!(ax.index(&5), None);
    assert_eq!(ax.index(&-5), Some(0));
    assert_eq!(ax.index(&4), Some(9));
    assert_eq!(ax.bin(0), Some(BinInterval::new(-5, -4)));
    assert_eq!(ax.bin(10), None);
}

#[test]
fn test_uniform_cyclic_wraps_period() {
    // a circle of 4 bins, 90 degrees each
    let ax = UniformCyclic::with_step_size(4, 0, 90).unwrap();
    assert_eq!(ax.num_bins(), 4);
    assert_eq!(ax.index(&45), Some(0));
    assert_eq!(ax.index(&(45 + 360)), Some(0));
    assert_eq!(ax.index(&(45 - 360)), Some(0));
    assert_eq!(ax.index(&-315), Some(0));
    assert_eq!(ax.index(&350), Some(3));
    assert_eq!(ax.index(&-10), Some(3));
    // the short name is the same axis
    let c: Cyclic = ax;
    assert_eq!(c.index(&45), Some(0));
}

#[test]
fn test_variable_index_and_bins() {
    let ax = Variable::new(vec![0, 1, 4, 8]).unwrap();
    assert_eq!(ax.num_bins(), 5);
    assert_eq!(ax.index(&-1), Some(0));
    assert_eq!(ax.index(&0), Some(1));
    assert_eq!(ax.index(&3), Some(2));
    assert_eq!(ax.index(&8), Some(4));
    assert_eq!(ax.bin(0), Some(BinInterval::underflow(0)));
    assert_eq!(ax.bin(1), Some(BinInterval::new(0, 1)));
    assert_eq!(ax.bin(2), Some(BinInterval::new(1, 4)));
    assert_eq!(ax.bin(3), Some(BinInterval::new(4, 8)));
    assert_eq!(ax.bin(4), Some(BinInterval::overflow(8)));
    assert_eq!(ax.bin(5), None);
}

#[test]
fn test_variable_sorts_edges() {
    let ax = Variable::new(vec![8, 0, 4, 1]).unwrap();
    assert_eq!(ax.low(), 0);
    assert_eq!(ax.high(), 8);
    assert_eq!(ax.bin(2), Some(BinInterval::new(1, 4)));
}

#[test]
fn test_variable_constructor_errors() {
    assert_eq!(
        Variable::new(vec![1]),
        Err(AxisError::InvalidNumberOfBinEdges)
    );
    assert_eq!(
        VariableNoFlow::new(vec![]),
        Err(AxisError::InvalidNumberOfBinEdges)
    );
    assert_eq!(
        VariableCyclic::new(vec![3, 3, 3]),
        Err(AxisError::InvalidAxisRange)
    );
}

#[test]
fn test_variable_noflow_rejects_out_of_range() {
    let ax = VariableNoFlow::new(vec![0, 1, 4, 8]).unwrap();
    assert_eq!(ax.num_bins(), 3);
    assert_eq!(ax.index(&-1), None);
    assert_eq!(ax.index(&8), None);
    assert_eq!(ax.index(&0), Some(0));
    assert_eq!(ax.index(&5), Some(2));
    assert_eq!(ax.bin(0), Some(BinInterval::new(0, 1)));
    assert_eq!(ax.bin(3), None);
}

#[test]
fn test_variable_cyclic_wraps_period() {
    let ax = VariableCyclic::new(vec![0, 1, 4, 8]).unwrap();
    assert_eq!(ax.num_bins(), 3);
    assert_eq!(ax.index(&2), Some(1));
    assert_eq!(ax.index(&(2 + 8)), Some(1));
    assert_eq!(ax.index(&(2 - 8)), Some(1));
    assert_eq!(ax.index(&-1), Some(2));
}
