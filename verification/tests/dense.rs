use fwht::fwht_contiguous;
use fwht::FwhtError;
use ndarray::Array1;
use ndarray::Axis;
use ndarray::Slice;
use std::ops::Add;
use std::ops::Sub;

fn transform_in_place<T>(array: &mut Array1<T>) -> Result<(), FwhtError>
where
    T: Add<Output = T> + Sub<Output = T> + Copy,
{
    fwht_contiguous(array.as_slice_mut())
}

fn transformed<T>(array: &Array1<T>) -> Result<Array1<T>, FwhtError>
where
    T: Add<Output = T> + Sub<Output = T> + Copy,
{
    let mut result = array.clone();
    transform_in_place(&mut result)?;
    Ok(result)
}

#[test]
fn test_ndarray_fwht_mut() {
    let mut data = Array1::from(vec![1.0, 1.0, 1.0, 0.0]);
    transform_in_place(&mut data).unwrap();
    let expected = Array1::from(vec![3.0, 1.0, 1.0, -1.0]);
    assert_eq!(data, expected);
}

#[test]
fn test_ndarray_fwht_copy() {
    let data = Array1::from(vec![1.0, 1.0, 1.0, 0.0]);
    let result = transformed(&data).unwrap();
    let expected = Array1::from(vec![3.0, 1.0, 1.0, -1.0]);
    assert_eq!(result, expected);

    let original_expected = Array1::from(vec![1.0, 1.0, 1.0, 0.0]);
    assert_eq!(data, original_expected);
}

#[test]
fn test_ndarray_fwht_size_8() {
    let mut data = Array1::from(vec![1.0, 1.0, 1.0, 1.0, 0.0, 0.0, 0.0, 0.0]);
    transform_in_place(&mut data).unwrap();
    let expected = Array1::from(vec![4.0, 0.0, 0.0, 0.0, 4.0, 0.0, 0.0, 0.0]);
    assert_eq!(data, expected);
}

#[test]
fn test_ndarray_fwht_integers() {
    let data = Array1::from(vec![1i32, 2i32, 3i32, 4i32]);
    let result = transformed(&data).unwrap();
    let expected = Array1::from(vec![10i32, -2i32, -4i32, 0i32]);
    assert_eq!(result, expected);
}

#[test]
fn test_ndarray_fwht_f32() {
    let data = Array1::from(vec![1.0f32, 1.0, 1.0, 0.0]);
    let result = transformed(&data).unwrap();
    let expected = Array1::from(vec![3.0f32, 1.0, 1.0, -1.0]);
    assert_eq!(result, expected);
}

#[test]
fn test_ndarray_fwht_empty() {
    let mut data = Array1::from(vec![] as Vec<f64>);
    transform_in_place(&mut data).unwrap();
    assert_eq!(data.len(), 0);

    let result = transformed(&data).unwrap();
    assert_eq!(result.len(), 0);
}

#[test]
fn test_ndarray_fwht_single_element() {
    let data = Array1::from(vec![42.0]);
    let result = transformed(&data).unwrap();
    let expected = Array1::from(vec![42.0]);
    assert_eq!(result, expected);
}

#[test]
fn test_ndarray_fwht_size_2() {
    let data = Array1::from(vec![3.0, 5.0]);
    let result = transformed(&data).unwrap();
    let expected = Array1::from(vec![8.0, -2.0]);
    assert_eq!(result, expected);
}

#[test]
fn test_ndarray_fwht_non_power_of_two() {
    let mut data = Array1::from(vec![1.0, 2.0, 3.0]);
    let result = transform_in_place(&mut data);
    assert!(result.is_err());
}

#[test]
fn test_ndarray_fwht_involution() {
    let original = Array1::from(vec![1.0, 2.0, 3.0, 4.0]);
    let mut data = original.clone();

    transform_in_place(&mut data).unwrap();
    transform_in_place(&mut data).unwrap();
    let n = data.len() as f64;
    for x in data.iter_mut() {
        *x /= n;
    }

    for (actual, expected) in data.iter().zip(original.iter()) {
        assert!((actual - expected).abs() < 1e-10);
    }
}

#[test]
fn test_ndarray_from_different_sources() {
    let data1 = Array1::from(vec![1.0, 1.0, 0.0, 0.0]);
    let result1 = transformed(&data1).unwrap();
    let expected1 = Array1::from(vec![2.0, 0.0, 2.0, 0.0]);
    assert_eq!(result1, expected1);

    let slice = &[1.0, 1.0, 0.0, 0.0];
    let data2 = Array1::from(slice.to_vec());
    let result2 = transformed(&data2).unwrap();
    assert_eq!(result2, expected1);

    let data3: Array1<f64> = Array1::from(
        (0..4)
            .map(|i| if i < 2 { 1.0 } else { 0.0 })
            .collect::<Vec<_>>(),
    );
    let result3 = transformed(&data3).unwrap();
    assert_eq!(result3, expected1);
}

#[test]
fn test_ndarray_size_16() {
    let data = Array1::from(vec![
        1.0, 0.0, 1.0, 0.0, 1.0, 0.0, 1.0, 0.0, 0.0, 1.0, 0.0, 1.0, 0.0, 1.0, 0.0, 1.0,
    ]);
    let result = transformed(&data).unwrap();

    let expected = Array1::from(vec![
        8.0, 0.0, 0.0, 0.0, 0.0, 0.0, 0.0, 0.0, 0.0, 8.0, 0.0, 0.0, 0.0, 0.0, 0.0, 0.0,
    ]);
    assert_eq!(result, expected);
}

#[test]
fn reversed_array_is_not_contiguous() {
    let mut data = Array1::from(vec![1i32, 2, 3, 4]);
    data.invert_axis(Axis(0));
    let result = transform_in_place(&mut data);
    assert_eq!(result, Err(FwhtError::NotContiguous));
    assert_eq!(data, Array1::from(vec![4i32, 3, 2, 1]));
}

#[test]
fn strided_array_is_not_contiguous() {
    let mut data = Array1::from(vec![1i32, 2, 3, 4, 5, 6, 7, 8]);
    data.slice_axis_inplace(Axis(0), Slice::new(0, None, 2));
    assert_eq!(data.len(), 4);
    let result = transformed(&data);
    assert_eq!(result, Err(FwhtError::NotContiguous));
    assert_eq!(data, Array1::from(vec![1i32, 3, 5, 7]));
}
