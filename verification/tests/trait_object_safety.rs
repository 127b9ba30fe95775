use ndhistogram::Fill;
use ndhistogram::FillWith;

#[test]
fn test_trait_object_fill() {
    let datum = Box::new(0i64);
    let _vec: Vec<Box<dyn Fill>> = vec![datum];
}

#[test]
fn test_trait_object_fill_with() {
    let datum = Box::new(0i64);
    let _vec: Vec<Box<dyn FillWith<i64>>> = vec![datum];
}
