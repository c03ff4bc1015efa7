//! Integer core of a convolutional neural network engine: volume geometry,
//! convolution and pooling index plans, and the dimensional contracts that a
//! chain of layers must meet before any data moves between them.

pub mod batch;
pub mod error_function;
pub mod errors;
pub mod initialization;
pub mod layer;
pub mod network;
pub mod util;
pub mod window;

pub use error_function::ErrorFunction;
pub use errors::Error;
pub use initialization::Initialization;
pub use layer::{LayerShape, PoolingType};
pub use network::NetworkShape;
