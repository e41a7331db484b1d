use lenia::convolution::{convolute, squared_distance_kernel};
use lenia::matrix::Matrix;

#[test]
fn test_convolute() {
    let input = Matrix::from_vec(
        vec![
            vec![1, 2, 3],
            vec![4, 5, 6],
            vec![7, 8, 9],
        ]
        .into_iter()
        .flatten()
        .collect(),
        3,
        3,
    )
    .unwrap();

    let mut kernel = Matrix::from_vec(
        vec![
            vec![0, 1, 0],
            vec![1, -4, 1],
            vec![0, 1, 0],
        ]
        .into_iter()
        .flatten()
        .collect(),
        3,
        3,
    )
    .unwrap();

    // Reverse kernel before convolution
    kernel.m.reverse();

    println!("input: {:?}", input);
    println!("kernel: {:?}", kernel);

    let expected_result = Matrix::from_vec(
        vec![
            vec![12, 9, 6],
            vec![3, 0, -3],
            vec![-6, -9, -12],
        ]
        .into_iter()
        .flatten()
        .collect(),
        3,
        3,
    )
    .unwrap();

    let result: Vec<i64> = input
        .iter()
        .iter()
        .enumerate()
        .map(|(index, _)| input.index_to_coordinate(index))
        // Convolution
        .map(|point| convolute(&point, &input, &kernel))
        .collect();

    assert_eq!(Matrix::from_vec(result, 3, 3).unwrap(), expected_result);
}

#[test]
fn test_convolute_wraparound_corner() {
    // At the corner (0, 0) two of the four cross neighbors are read
    // from the opposite edges of the torus: up wraps to the bottom
    // cell 7 and left wraps to the right-edge cell 3, joining the
    // plain right neighbor 2 and down neighbor 4.
    let input = Matrix::from_vec(vec![1, 2, 3, 4, 5, 6, 7, 8, 9], 3, 3).unwrap();
    let mut kernel = Matrix::from_vec(vec![0, 1, 0, 1, -4, 1, 0, 1, 0], 3, 3).unwrap();
    kernel.m.reverse();

    let corner = input.index_to_coordinate(0);
    assert_eq!(convolute(&corner, &input, &kernel), 7 + 3 + 2 + 4 - 4 * 1);
}

#[test]
fn test_identity_kernel_convolute() {
    // A kernel that weighs only its own center leaves every cell as it
    // was: evolve built on it degenerates to the growth/clamp pipeline.
    let input = Matrix::from_vec(vec![1, 2, 3, 4, 5, 6, 7, 8, 9], 3, 3).unwrap();
    let identity = Matrix::from_vec(vec![0, 0, 0, 0, 1, 0, 0, 0, 0], 3, 3).unwrap();

    for index in 0..9 {
        let point = input.index_to_coordinate(index);
        assert_eq!(convolute(&point, &input, &identity), input.m[index]);
    }
}

#[test]
fn test_distance_kernel() {
    // With radius 1 the table is 3x3 with an exact center: squared
    // distances 0 at the center, 1 on the edge cells, 2 on the corners.
    let kernel = squared_distance_kernel(1);
    assert_eq!(kernel.width, 3);
    assert_eq!(kernel.height, 3);
    assert_eq!(kernel.m, vec![2, 1, 2, 1, 0, 1, 2, 1, 2]);

    // Cut-off-normalized distances, the last floating-point step the
    // callers apply: sqrt of each cell over the radius.
    let distances: Vec<f64> = kernel
        .iter()
        .iter()
        .map(|squared| (*squared as f64).sqrt() / 1.0)
        .collect();
    let sqrt_2 = 2.0_f64.sqrt();
    assert_eq!(
        distances,
        vec![sqrt_2, 1.0, sqrt_2, 1.0, 0.0, 1.0, sqrt_2, 1.0, sqrt_2]
    );
}

#[test]
fn test_distance_kernel_radius_2() {
    let kernel = squared_distance_kernel(2);
    assert_eq!(kernel.width, 5);
    assert_eq!(kernel.height, 5);
    // Center cell and a few mirrored cells.
    assert_eq!(kernel.m[2 * 5 + 2], 0);
    assert_eq!(kernel.m[0], 8);
    assert_eq!(kernel.m[4], 8);
    assert_eq!(kernel.m[4 * 5], 8);
    assert_eq!(kernel.m[4 * 5 + 4], 8);
    assert_eq!(kernel.m[2 * 5], 4);
    assert_eq!(kernel.m[1 * 5 + 1], 2);
    // The normalized cut-off distance reaches exactly 1.0 where the
    // squared distance equals the squared radius.
    assert_eq!((kernel.m[2 * 5] as f64).sqrt() / 2.0, 1.0);
}

#[test]
fn test_distance() {
    // Distance from self should be 0; the squared-distance table gives
    // the distances between cells and the kernel center exactly.
    let kernel = squared_distance_kernel(1);
    let center = kernel.m[1 * 3 + 1];
    assert_eq!((center as f64).sqrt(), 0.0);
    let edge = kernel.m[1 * 3 + 2];
    assert_eq!((edge as f64).sqrt(), 1.0);
    let corner = kernel.m[2 * 3 + 2];
    assert_eq!((corner as f64).sqrt(), 2.0_f64.sqrt());
}
