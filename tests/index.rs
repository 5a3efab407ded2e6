use pool_kernels::index::{contiguous_strides, decompose, num_elements};

fn recompose(coords: &[usize], strides: &[usize]) -> usize {
    coords.iter().zip(strides.iter()).map(|(c, s)| c * s).sum()
}

#[test]
fn contiguous_strides_of_four_dims() {
    assert_eq!(contiguous_strides(&vec![2, 3, 4, 5]), vec![60, 20, 5, 1]);
    assert_eq!(contiguous_strides(&vec![7]), vec![1]);
    assert_eq!(contiguous_strides(&vec![]), Vec::<usize>::new());
}

#[test]
fn num_elements_of_shapes() {
    assert_eq!(num_elements(&vec![2, 3, 4, 5]), 120);
    assert_eq!(num_elements(&vec![3, 0, 4]), 0);
    assert_eq!(num_elements(&vec![]), 1);
}

#[test]
fn decompose_gives_coordinates() {
    let strides = vec![60, 20, 5, 1];
    assert_eq!(decompose(119, &strides), vec![1, 2, 3, 4]);
    assert_eq!(decompose(0, &strides), vec![0, 0, 0, 0]);
    assert_eq!(decompose(67, &strides), vec![1, 0, 1, 2]);
}

#[test]
fn decompose_then_recompose_is_identity() {
    let shape = vec![2, 3, 4, 5];
    let strides = contiguous_strides(&shape);
    for flat in 0..num_elements(&shape) {
        let coords = decompose(flat, &strides);
        for (c, d) in coords.iter().zip(shape.iter()) {
            assert!(c < d);
        }
        assert_eq!(recompose(&coords, &strides), flat);
    }
}
