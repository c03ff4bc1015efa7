use convolutional_neural_network::{Error, LayerShape};

fn input(zero_padding: usize, dimension: (usize, usize, usize)) -> LayerShape {
    LayerShape::Convolutional { zero_padding, stride: 0, kernel_size: 0, dimension, input_depth: 0 }
}

fn convolutional(zero_padding: usize, stride: usize, kernel_size: usize, dimension: (usize, usize, usize), input_depth: usize) -> LayerShape {
    LayerShape::Convolutional { zero_padding, stride, kernel_size, dimension, input_depth }
}

fn pooling(stride: usize, kernel_size: usize, dimension: (usize, usize, usize)) -> LayerShape {
    LayerShape::Pooling { zero_padding: 0, stride, kernel_size, dimension }
}

fn dense(num_inputs: usize, num_neurons: usize) -> LayerShape {
    LayerShape::FullyConnected { num_inputs, num_neurons }
}

#[test]
fn forward_into_convolution_uses_the_input_padding() {
    assert_eq!(input(1, (3, 3, 2)).forward_check(&convolutional(1, 1, 2, (4, 4, 1), 2)), Ok(()));
    assert_eq!(input(0, (3, 3, 2)).forward_check(&convolutional(1, 1, 2, (4, 4, 1), 2)), Err(Error::DimensionMismatch));
    assert_eq!(input(0, (3, 3, 2)).forward_check(&convolutional(0, 1, 2, (2, 2, 1), 2)), Ok(()));
    assert_eq!(input(0, (3, 3, 2)).forward_check(&convolutional(0, 1, 4, (1, 1, 1), 2)), Err(Error::ImpossibleOutputDimension));
    assert_eq!(input(0, (3, 3, 2)).forward_check(&convolutional(0, 0, 2, (2, 2, 1), 2)), Err(Error::ImpossibleOutputDimension));
}

#[test]
fn convolution_reads_as_many_channels_as_it_declares() {
    assert_eq!(input(1, (3, 3, 2)).forward_check(&convolutional(1, 1, 2, (4, 4, 1), 3)), Err(Error::DimensionMismatch));
    assert_eq!(convolutional(1, 1, 2, (4, 4, 1), 3).backward_check(&input(1, (3, 3, 2))), Err(Error::DimensionMismatch));
    assert_eq!(input(0, (3, 3, 2)).forward_check(&convolutional(0, 1, 4, (1, 1, 1), 3)), Err(Error::ImpossibleOutputDimension));
}

#[test]
fn forward_into_pooling_ignores_padding() {
    assert_eq!(input(1, (4, 4, 3)).forward_check(&pooling(2, 2, (2, 2, 3))), Ok(()));
    assert_eq!(input(1, (4, 4, 3)).forward_check(&pooling(2, 2, (3, 3, 3))), Err(Error::DimensionMismatch));
    assert_eq!(pooling(1, 2, (3, 3, 2)).forward_check(&pooling(1, 2, (2, 2, 2))), Ok(()));
    assert_eq!(pooling(1, 2, (3, 3, 2)).forward_check(&pooling(1, 2, (2, 1, 2))), Err(Error::DimensionMismatch));
    assert_eq!(pooling(1, 2, (3, 3, 2)).forward_check(&pooling(1, 2, (2, 2, 1))), Err(Error::DimensionMismatch));
}

#[test]
fn forward_into_dense_counts_the_volume() {
    assert_eq!(input(0, (2, 3, 4)).forward_check(&dense(24, 5)), Ok(()));
    assert_eq!(input(0, (2, 3, 4)).forward_check(&dense(23, 5)), Err(Error::DimensionMismatch));
    assert_eq!(pooling(2, 2, (2, 2, 3)).forward_check(&dense(12, 1)), Ok(()));
    assert_eq!(dense(12, 5).forward_check(&dense(5, 1)), Ok(()));
    assert_eq!(dense(12, 5).forward_check(&dense(4, 1)), Err(Error::DimensionMismatch));
}

#[test]
fn dense_feeds_nothing_but_dense() {
    assert_eq!(dense(4, 9).forward_check(&convolutional(0, 1, 1, (3, 3, 1), 1)), Err(Error::IncompatibleLayers));
    assert_eq!(dense(4, 9).forward_check(&pooling(1, 1, (3, 3, 1))), Err(Error::IncompatibleLayers));
}

#[test]
fn backward_mirrors_forward() {
    let first = input(1, (3, 3, 2));
    let second = convolutional(1, 1, 2, (4, 4, 1), 2);
    assert_eq!(second.backward_check(&first), Ok(()));
    assert_eq!(second.backward_check(&input(0, (3, 3, 2))), Err(Error::DimensionMismatch));
    assert_eq!(pooling(2, 2, (2, 2, 3)).backward_check(&input(0, (4, 4, 3))), Ok(()));
    assert_eq!(pooling(2, 2, (2, 2, 3)).backward_check(&input(0, (5, 6, 3))), Err(Error::DimensionMismatch));
    assert_eq!(pooling(2, 0, (2, 2, 3)).backward_check(&input(0, (4, 4, 3))), Err(Error::ImpossibleOutputDimension));
    assert_eq!(pooling(2, 2, (2, 2, 3)).backward_check(&input(0, (4, 4, 2))), Err(Error::DimensionMismatch));
    assert_eq!(dense(24, 5).backward_check(&input(0, (2, 3, 4))), Ok(()));
    assert_eq!(dense(25, 5).backward_check(&input(0, (2, 3, 4))), Err(Error::DimensionMismatch));
    assert_eq!(dense(5, 1).backward_check(&dense(12, 5)), Ok(()));
    assert_eq!(dense(5, 1).backward_check(&dense(12, 6)), Err(Error::DimensionMismatch));
}

#[test]
fn spatial_layers_cannot_pass_back_into_dense() {
    assert_eq!(convolutional(0, 1, 1, (3, 3, 1), 1).backward_check(&dense(4, 9)), Err(Error::IncompatibleLayers));
    assert_eq!(pooling(1, 1, (3, 3, 1)).backward_check(&dense(4, 9)), Err(Error::IncompatibleLayers));
}

#[test]
fn buffer_sizes_follow_the_kind() {
    let conv = convolutional(1, 1, 3, (4, 4, 5), 2);
    assert!(conv.is_valid());
    assert_eq!(conv.output_len(), 80);
    assert_eq!(conv.weight_len(), 3 * 3 * 2 * 5);
    assert_eq!(conv.bias_len(), 5);
    assert_eq!(conv.fan_counts(), Some((18, 45)));

    let pool = pooling(2, 2, (2, 2, 3));
    assert_eq!(pool.output_len(), 12);
    assert_eq!(pool.weight_len(), 0);
    assert_eq!(pool.bias_len(), 0);
    assert_eq!(pool.fan_counts(), None);

    let fc = dense(12, 7);
    assert_eq!(fc.output_len(), 7);
    assert_eq!(fc.weight_len(), 84);
    assert_eq!(fc.bias_len(), 7);
    assert_eq!(fc.fan_counts(), Some((12, 7)));

    let placeholder = input(1, (3, 3, 2));
    assert_eq!(placeholder.output_len(), 18);
    assert_eq!(placeholder.weight_len(), 0);
    assert_eq!(placeholder.bias_len(), 0);
    assert_eq!(placeholder.fan_counts(), None);
}

#[test]
fn shapes_whose_buffers_overflow_are_not_valid() {
    assert!(!dense(usize::MAX, 2).is_valid());
    assert!(dense(usize::MAX, 1).is_valid());
    assert!(!input(usize::MAX / 2, (3, 3, 1)).is_valid());
    assert!(!input(0, (usize::MAX, 2, 1)).is_valid());
    assert!(input(0, (usize::MAX, usize::MAX, 0)).is_valid());
    assert!(!convolutional(0, 1, 1usize << 33, (1, 1, 1), 1).is_valid());
    assert!(!pooling(1, 1, (1usize << 40, 1usize << 40, 1)).is_valid());
}

#[test]
fn backward_check_mirrors_forward_check() {
    let earlier = [input(1, (3, 3, 2)), input(0, (3, 3, 2)), pooling(2, 2, (2, 2, 3)), input(0, (4, 4, 3)), dense(12, 3), dense(4, 18)];
    let later = [
        convolutional(1, 1, 2, (4, 4, 1), 2),
        convolutional(0, 1, 2, (2, 2, 1), 2),
        pooling(2, 2, (2, 2, 3)),
        pooling(1, 1, (2, 2, 3)),
        dense(12, 3),
        dense(18, 3),
    ];
    for previous in earlier {
        for layer in later {
            assert_eq!(layer.backward_check(&previous), previous.forward_check(&layer));
        }
    }
}
