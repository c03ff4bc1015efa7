use convolutional_neural_network::{Error, ErrorFunction, Initialization, PoolingType};

#[test]
fn initialization_scales_by_the_named_rule() {
    assert_eq!(Initialization::UniformXavier.scale_ratio(18, 45), (6, 63));
    assert_eq!(Initialization::UniformHe.scale_ratio(18, 45), (6, 18));
    assert_eq!(Initialization::NormalXavier.scale_ratio(12, 7), (2, 19));
    assert_eq!(Initialization::NormalHe.scale_ratio(12, 7), (2, 12));
    assert!(Initialization::UniformXavier.is_uniform());
    assert!(Initialization::UniformHe.is_uniform());
    assert!(!Initialization::NormalXavier.is_uniform());
    assert!(!Initialization::NormalHe.is_uniform());
}

#[test]
fn errors_describe_themselves() {
    assert_eq!(Error::DimensionMismatch.message(), "Layer dimensions do not match");
    assert_eq!(Error::IncompatibleLayers.message(), "Layers are incompatible or don't exist");
    assert_eq!(Error::ImpossibleOutputDimension.message(), "Output dimension is impossible");
    assert_eq!(Error::InvalidInput.message(), "Input arguments to this function are invalid");
}

#[test]
fn kinds_compare_by_variant() {
    assert_eq!(PoolingType::Max, PoolingType::Max);
    assert_ne!(PoolingType::Max, PoolingType::Average);
    assert_ne!(ErrorFunction::HalfMeanSquaredError, ErrorFunction::BinaryCrossEntropy);
}
