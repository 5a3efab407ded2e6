use pool_kernels::interpolate::{
    bicubic_sample, bilinear_sample, cubic_taps, linear_tap, nearest_interpolate, LinearTap,
    Tensor4,
};

#[test]
fn nearest_upscale_two_by_two_to_four_by_four() {
    let x = Tensor4 { shape: [1, 1, 2, 2], data: vec![1, 2, 3, 4] };
    let y = nearest_interpolate(&x, [4, 4]);
    assert_eq!(y.shape, [1, 1, 4, 4]);
    assert_eq!(
        y.data,
        vec![1, 1, 2, 2, 1, 1, 2, 2, 3, 3, 4, 4, 3, 3, 4, 4]
    );
}

#[test]
fn nearest_same_size_is_identity() {
    let data: Vec<i32> = (0..2 * 3 * 4 * 5).collect();
    let x = Tensor4 { shape: [2, 3, 4, 5], data: data.clone() };
    let y = nearest_interpolate(&x, [4, 5]);
    assert_eq!(y.shape, [2, 3, 4, 5]);
    assert_eq!(y.data, data);
}

#[test]
fn nearest_downscale_picks_floor_positions() {
    let x = Tensor4 { shape: [1, 2, 3, 3], data: (0..18).collect::<Vec<u8>>() };
    let y = nearest_interpolate(&x, [2, 2]);
    // rows floor(0 * 3 / 2) = 0 and floor(1 * 3 / 2) = 1, same for columns.
    assert_eq!(y.data, vec![0, 1, 3, 4, 9, 10, 12, 13]);
}

#[test]
fn nearest_to_empty_output() {
    let x = Tensor4 { shape: [1, 1, 2, 2], data: vec![1, 2, 3, 4] };
    let y = nearest_interpolate(&x, [0, 3]);
    assert_eq!(y.shape, [1, 1, 0, 3]);
    assert!(y.data.is_empty());
}

#[test]
fn linear_tap_between_samples() {
    // position 1 * (3 - 1) / (5 - 1) = 0.5
    assert_eq!(linear_tap(3, 5, 1), LinearTap { lo: 0, hi: 1, weight_num: 2, weight_den: 4 });
    // position 4 * 2 / 4 = 2, the last input sample
    assert_eq!(linear_tap(3, 5, 4), LinearTap { lo: 2, hi: 2, weight_num: 0, weight_den: 4 });
}

#[test]
fn linear_tap_single_output_sample_sits_on_first_input() {
    assert_eq!(linear_tap(7, 1, 0), LinearTap { lo: 0, hi: 0, weight_num: 0, weight_den: 1 });
}

#[test]
fn linear_tap_same_size_is_exact() {
    for o in 0..6 {
        let t = linear_tap(6, 6, o);
        assert_eq!((t.lo, t.hi, t.weight_num), (o, o, 0));
    }
}

fn bilinear(x: &[f64], shape: [usize; 4], out: [usize; 2]) -> Vec<f64> {
    let n = shape[0] * shape[1] * out[0] * out[1];
    (0..n)
        .map(|i| {
            let s = bilinear_sample(shape, out, i);
            let yw = s.y.weight_num as f64 / s.y.weight_den as f64;
            let xw = s.x.weight_num as f64 / s.x.weight_den as f64;
            x[s.corners[0]] * (1.0 - xw) * (1.0 - yw)
                + x[s.corners[1]] * xw * (1.0 - yw)
                + x[s.corners[2]] * (1.0 - xw) * yw
                + x[s.corners[3]] * xw * yw
        })
        .collect()
}

#[test]
fn bilinear_same_size_is_identity() {
    let x: Vec<f64> = (0..2 * 3 * 3).map(|v| v as f64 * 0.5 - 2.0).collect();
    let y = bilinear(&x, [1, 2, 3, 3], [3, 3]);
    assert_eq!(y, x);
}

#[test]
fn bilinear_upscale_midpoints() {
    let x = vec![0.0, 2.0, 4.0, 6.0];
    let y = bilinear(&x, [1, 1, 2, 2], [3, 3]);
    assert_eq!(y, vec![0.0, 1.0, 2.0, 2.0, 3.0, 4.0, 4.0, 5.0, 6.0]);
}

#[test]
fn cubic_taps_clamp_to_edges() {
    // position 1 * 3 / 6 = 0.5: floor 0, taps -1..=2 clamped
    let t = cubic_taps(4, 7, 1);
    assert_eq!(t.taps, [0, 0, 1, 2]);
    assert_eq!((t.weight_num, t.weight_den), (3, 6));
    // position 6 * 3 / 6 = 3, the last sample
    let t = cubic_taps(4, 7, 6);
    assert_eq!(t.taps, [2, 3, 3, 3]);
    assert_eq!(t.weight_num, 0);
    // position 1 * 4 / 2 = 2, an interior grid point
    let t = cubic_taps(5, 3, 1);
    assert_eq!(t.taps, [1, 2, 3, 4]);
    assert_eq!(t.weight_num, 0);
}

fn cubic_weights(t: f64) -> [f64; 4] {
    let a = -0.75;
    let conv1 = |x: f64| ((a + 2.0) * x - (a + 3.0)) * x * x + 1.0;
    let conv2 = |x: f64| ((a * x - 5.0 * a) * x + 8.0 * a) * x - 4.0 * a;
    [conv2(t + 1.0), conv1(t), conv1(1.0 - t), conv2(2.0 - t)]
}

#[test]
fn bicubic_on_grid_points_reproduces_samples() {
    let shape = [1, 1, 4, 5];
    let x: Vec<f64> = (0..20).map(|v| (v * v) as f64 * 0.25 - 3.0).collect();
    for i in 0..20 {
        let s = bicubic_sample(shape, [4, 5], i);
        assert_eq!(s.y.weight_num, 0);
        assert_eq!(s.x.weight_num, 0);
        let wy = cubic_weights(0.0);
        let wx = cubic_weights(0.0);
        let mut v = 0.0;
        for a in 0..4 {
            let mut row = 0.0;
            for b in 0..4 {
                row += x[s.row_bases[a] + s.cols[b]] * wx[b];
            }
            v += row * wy[a];
        }
        assert!((v - x[i]).abs() < 1e-9);
    }
}

#[test]
fn bicubic_sample_positions() {
    let s = bicubic_sample([1, 2, 4, 4], [7, 7], 49 + 7 + 1);
    // second channel, output (1, 1): floor 0 on both axes
    assert_eq!(s.y.taps, [0, 0, 1, 2]);
    assert_eq!(s.x.taps, [0, 0, 1, 2]);
    assert_eq!(s.row_bases, [16, 16, 20, 24]);
    assert_eq!(s.cols, [0, 0, 1, 2]);
}
