use fixed_tensor::data::tensor::checked_product;
use fixed_tensor::Tensor;

#[test]
fn tensor_product_of_dims() {
    let t = Tensor::new(vec![2, 3, 4], 0u32).unwrap();
    assert_eq!(t.len(), 24);
    assert_eq!(t.dims(), &[2, 3, 4]);
    assert_eq!(t.data().len(), 24);
    assert!(t.data().as_slice().iter().all(|x| *x == 0));
}

#[test]
fn tensor_overflowing_dims_fail() {
    assert!(Tensor::new(vec![2, 3, 4, usize::MAX], 0u8).is_none());
    assert!(Tensor::new(vec![usize::MAX, 2, 0], 0u8).is_none());
}

#[test]
fn tensor_zero_dimension_rejected() {
    assert!(Tensor::new(vec![0, 5], 1i32).is_none());
    assert!(Tensor::new(vec![5, 0], 1i32).is_none());
}

#[test]
fn tensor_no_dims_holds_one_element() {
    let t = Tensor::new(Vec::new(), 'a').unwrap();
    assert_eq!(t.len(), 1);
    assert_eq!(t.dims(), &[] as &[usize]);
}

#[test]
fn tensor_too_many_bytes_fails() {
    assert!(Tensor::new(vec![1usize << 30, 1usize << 30], 0u64).is_none());
}

#[test]
fn tensor_keeps_dim_order() {
    let t = Tensor::new(vec![4, 1, 3], String::from("e")).unwrap();
    assert_eq!(t.dims(), &[4, 1, 3]);
    assert_eq!(t.len(), 12);
    assert_eq!(t.data()[11], "e");
}

#[test]
fn checked_product_values() {
    assert_eq!(checked_product(&[2, 3, 4]), Some(24));
    assert_eq!(checked_product(&[]), Some(1));
    assert_eq!(checked_product(&[0, 5]), Some(0));
    assert_eq!(checked_product(&[usize::MAX, 1]), Some(usize::MAX));
    assert_eq!(checked_product(&[usize::MAX, 2]), None);
    assert_eq!(checked_product(&[usize::MAX, 2, 0]), None);
    assert_eq!(checked_product(&[1usize << 32, 1usize << 32]), None);
}
