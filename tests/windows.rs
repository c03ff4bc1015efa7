use convolutional_neural_network::util::{get_index, get_output_dimension};
use convolutional_neural_network::window::{convolution_taps, pooling_window};

fn max_pool(input: &[f32], dimension: (usize, usize, usize), kernel_size: usize, stride: usize) -> Vec<f32> {
    let out = get_output_dimension(dimension, 0, dimension.2, kernel_size, stride).unwrap();
    let mut result = vec![0.0f32; out.0 * out.1 * out.2];
    for o_x in 0..out.0 {
        for o_y in 0..out.1 {
            for z in 0..dimension.2 {
                let window = pooling_window(dimension, kernel_size, stride, (o_x, o_y), z);
                let mut value = f32::NEG_INFINITY;
                for i in window {
                    value = value.max(input[i]);
                }
                result[get_index((o_x, o_y, z), out)] = value;
            }
        }
    }
    result
}

#[test]
fn max_pooling_takes_each_window_maximum() {
    let input = [1.0, 4.0, 7.0, 2.0, 5.0, 8.0, 3.0, 6.0, 9.0];
    assert_eq!(get_output_dimension((3, 3, 1), 0, 1, 2, 1), Some((2, 2, 1)));
    assert_eq!(max_pool(&input, (3, 3, 1), 2, 1), vec![5.0, 8.0, 6.0, 9.0]);
}

#[test]
fn pooling_window_lists_rows_of_the_window() {
    assert_eq!(pooling_window((3, 3, 1), 2, 1, (0, 0), 0), vec![0, 3, 1, 4]);
    assert_eq!(pooling_window((3, 3, 1), 2, 1, (1, 1), 0), vec![4, 7, 5, 8]);
    assert_eq!(pooling_window((4, 4, 1), 2, 2, (1, 1), 0), vec![10, 14, 11, 15]);
    assert_eq!(pooling_window((2, 2, 3), 2, 1, (0, 0), 2), vec![2, 8, 5, 11]);
}

#[test]
fn pooling_window_covers_distinct_positions_that_share_a_gradient_evenly() {
    let window = pooling_window((6, 6, 2), 3, 3, (1, 0), 1);
    assert_eq!(window.len(), 9);
    let mut sorted = window.clone();
    sorted.sort();
    sorted.dedup();
    assert_eq!(sorted.len(), 9);
    let gradient = 0.9f32;
    let share = gradient * (1.0 / 9.0);
    let total: f32 = window.iter().map(|_| share).sum();
    assert!((total - gradient).abs() < 1e-6);
}

#[test]
fn convolution_taps_mark_the_zero_pad() {
    let taps = convolution_taps((3, 3, 2), 1, 2, 1, (0, 0));
    assert_eq!(taps, vec![None, None, None, Some(0), None, None, None, Some(1)]);
    let taps = convolution_taps((3, 3, 2), 1, 2, 1, (3, 3));
    assert_eq!(taps, vec![None; 8]);
    let taps = convolution_taps((3, 3, 2), 1, 2, 1, (1, 1));
    assert_eq!(taps, vec![Some(0), Some(6), Some(2), Some(8), Some(1), Some(7), Some(3), Some(9)]);
}

#[test]
fn convolutional_layer_forward_propagate() {
    let input_dimension = (3, 3, 2);
    let volume = [1.0, 10.0, 2.0, 11.0, 3.0, 12.0, 4.0, 13.0, 5.0, 14.0, 6.0, 15.0, 7.0, 16.0, 8.0, 17.0, 9.0, 18.0];
    let kernel = [1.0f32, 0.5, 0.5, 1.0, 0.5, 1.0, 1.0, 0.5];
    let bias = 0.5f32;
    let out = get_output_dimension(input_dimension, 1, 1, 2, 1).unwrap();
    assert_eq!(out, (4, 4, 1));
    let mut result = vec![0.0f32; 16];
    for o_x in 0..out.0 {
        for o_y in 0..out.1 {
            let taps = convolution_taps(input_dimension, 1, 2, 1, (o_x, o_y));
            let mut value = 0.0f32;
            for (t, tap) in taps.iter().enumerate() {
                if let Some(i) = tap {
                    value += volume[*i] * kernel[t];
                }
            }
            result[get_index((o_x, o_y, 0), out)] = value + bias;
        }
    }
    assert_eq!(result, vec![
        6.5, 18.5, 12.5, 0.5, 21.5, 45.5, 24.5, 0.5, 15.5, 27.5, 12.5, 0.5, 0.5, 0.5, 0.5, 0.5,
    ]);
}

#[test]
fn convolution_taps_follow_the_stride() {
    let taps = convolution_taps((5, 5, 1), 0, 3, 2, (1, 1));
    assert_eq!(taps.len(), 9);
    let expected: Vec<Option<usize>> = (0..9).map(|t| Some(get_index((2 + t % 3, 2 + t / 3, 0), (5, 5, 1)))).collect();
    assert_eq!(taps, expected);
}
