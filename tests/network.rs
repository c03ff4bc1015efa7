use convolutional_neural_network::{Error, LayerShape, NetworkShape};

fn chain() -> NetworkShape {
    let mut network = NetworkShape::new();
    network.register_layer(LayerShape::Convolutional { zero_padding: 1, stride: 0, kernel_size: 0, dimension: (3, 3, 2), input_depth: 0 });
    network.register_layer(LayerShape::Convolutional { zero_padding: 0, stride: 1, kernel_size: 2, dimension: (4, 4, 1), input_depth: 2 });
    network.register_layer(LayerShape::Pooling { zero_padding: 0, stride: 2, kernel_size: 2, dimension: (2, 2, 1) });
    network.register_layer(LayerShape::FullyConnected { num_inputs: 4, num_neurons: 3 });
    network
}

#[test]
fn input_goes_into_a_convolutional_first_layer_of_the_same_size() {
    let network = chain();
    assert_eq!(network.check_input(18), Ok(()));
    assert_eq!(network.check_input(17), Err(Error::IncompatibleLayers));
    assert_eq!(NetworkShape::new().check_input(0), Err(Error::IncompatibleLayers));
    let mut pooled = NetworkShape::new();
    pooled.register_layer(LayerShape::Pooling { zero_padding: 0, stride: 1, kernel_size: 1, dimension: (2, 2, 1) });
    assert_eq!(pooled.check_input(4), Err(Error::IncompatibleLayers));
}

#[test]
fn output_and_error_are_read_from_a_dense_last_layer() {
    let network = chain();
    assert_eq!(network.check_output(), Ok(()));
    assert_eq!(network.check_error(3), Ok(()));
    assert_eq!(network.check_error(2), Err(Error::InvalidInput));
    assert_eq!(NetworkShape::new().check_output(), Err(Error::InvalidInput));
    let mut spatial = NetworkShape::new();
    spatial.register_layer(LayerShape::Convolutional { zero_padding: 0, stride: 0, kernel_size: 0, dimension: (2, 2, 1), input_depth: 0 });
    assert_eq!(spatial.check_output(), Err(Error::InvalidInput));
    assert_eq!(spatial.check_error(4), Err(Error::InvalidInput));
}

#[test]
fn backward_sweep_needs_a_dense_last_layer_and_a_matching_target() {
    let network = chain();
    assert_eq!(network.check_target(3), Ok(()));
    assert_eq!(network.check_target(4), Err(Error::InvalidInput));
    assert_eq!(NetworkShape::new().check_target(0), Err(Error::IncompatibleLayers));
    let mut spatial = NetworkShape::new();
    spatial.register_layer(LayerShape::Convolutional { zero_padding: 0, stride: 0, kernel_size: 0, dimension: (2, 2, 1), input_depth: 0 });
    assert_eq!(spatial.check_target(4), Err(Error::IncompatibleLayers));
}

#[test]
fn layer_indices_are_checked() {
    let network = chain();
    assert_eq!(network.len(), 4);
    assert_eq!(network.check_layer_index(3), Ok(()));
    assert_eq!(network.check_layer_index(4), Err(Error::InvalidInput));
    assert!(matches!(network.layer(3), LayerShape::FullyConnected { num_inputs: 4, num_neurons: 3 }));
}

#[test]
fn every_step_of_a_consistent_chain_passes() {
    let network = chain();
    for i in 0..3 {
        assert_eq!(network.check_forward_step(i), Ok(()));
        assert_eq!(network.check_backward_step(i + 1), Ok(()));
    }
}

#[test]
fn a_mismatched_step_is_reported_where_it_occurs() {
    let mut network = NetworkShape::new();
    network.register_layer(LayerShape::Convolutional { zero_padding: 0, stride: 0, kernel_size: 0, dimension: (3, 3, 2), input_depth: 0 });
    network.register_layer(LayerShape::Convolutional { zero_padding: 0, stride: 1, kernel_size: 2, dimension: (4, 4, 1), input_depth: 2 });
    network.register_layer(LayerShape::FullyConnected { num_inputs: 16, num_neurons: 1 });
    assert_eq!(network.check_forward_step(0), Err(Error::DimensionMismatch));
    assert_eq!(network.check_forward_step(1), Ok(()));
    assert_eq!(network.check_backward_step(1), Err(Error::DimensionMismatch));
    assert_eq!(network.check_backward_step(2), Ok(()));
}
