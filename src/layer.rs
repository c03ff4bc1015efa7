//! Shapes of the three layer kinds and the dimensional contracts between
//! neighbours in a chain.
//!
//! A layer's shape is everything about it that is not a number it learns or
//! computes: its kind, its output dimension, and the kernel, stride and
//! padding that relate it to its input. Two neighbouring layers are checked
//! against each other each time data crosses between them, before any
//! buffer is touched.

use vstd::prelude::*;

use crate::errors::Error;
use crate::util::{check_output_dimension, check_output_dimension_spec, kernel_volume, padding_fits, volume_of};
use crate::window::window_in_output;

verus! {

/// How a pooling window is reduced to one value.
#[derive(Debug, Clone, Copy, PartialEq, Eq, Structural)]
pub enum PoolingType {
    Max,
    Average,
}

/// The shape of one layer of the chain.
///
/// A convolutional layer has one output channel per kernel, so its kernel
/// count is `dimension.2`. Its `zero_padding` pads its own output where the
/// next layer is convolutional. A convolutional layer with kernel size and
/// stride zero and input depth zero stands for the network's input: it has
/// no weights and no biases, and no step can lead into it.
#[derive(Debug, Clone, Copy)]
pub enum LayerShape {
    Convolutional {
        zero_padding: usize,
        stride: usize,
        kernel_size: usize,
        dimension: (usize, usize, usize),
        input_depth: usize,
    },
    Pooling { zero_padding: usize, stride: usize, kernel_size: usize, dimension: (usize, usize, usize) },
    FullyConnected { num_inputs: usize, num_neurons: usize },
}

/// Outcome of connecting a volume of `input_dimension`, padded by
/// `zero_padding`, to a convolutional layer: its declared dimension must be
/// the one its sweep infers, and its declared input depth the volume's depth.
pub open spec fn convolution_spec(
    input_dimension: (usize, usize, usize),
    zero_padding: usize,
    dimension: (usize, usize, usize),
    kernel_size: usize,
    stride: usize,
    input_depth: usize,
) -> Result<(), Error> {
    match check_output_dimension_spec(input_dimension, dimension, zero_padding, dimension.2, kernel_size, stride) {
        Ok(()) => if input_dimension.2 == input_depth {
            Ok(())
        } else {
            Err(Error::DimensionMismatch)
        },
        Err(e) => Err(e),
    }
}

fn check_convolution(
    input_dimension: (usize, usize, usize),
    zero_padding: usize,
    dimension: (usize, usize, usize),
    kernel_size: usize,
    stride: usize,
    input_depth: usize,
) -> (r: Result<(), Error>)
    requires
        padding_fits(input_dimension, zero_padding),
    ensures
        r == convolution_spec(input_dimension, zero_padding, dimension, kernel_size, stride, input_depth),
{
    match check_output_dimension(input_dimension, dimension, zero_padding, dimension.2, kernel_size, stride) {
        Ok(()) => if input_dimension.2 == input_depth {
            Ok(())
        } else {
            Err(Error::DimensionMismatch)
        },
        Err(e) => Err(e),
    }
}

/// A product of two sizes, or `None` when it does not fit a `usize`.
fn product(a: usize, b: usize) -> (r: Option<usize>)
    ensures
        r matches Some(p) ==> p == a * b,
        r is None ==> a * b > usize::MAX,
{
    a.checked_mul(b)
}

impl LayerShape {
    /// Every buffer size of the layer, and the padded extents of its output,
    /// fit a `usize`.
    pub open spec fn valid(self) -> bool {
        match self {
            LayerShape::Convolutional { zero_padding, kernel_size, dimension, input_depth, .. } => {
                &&& padding_fits(dimension, zero_padding)
                &&& volume_of(dimension) <= usize::MAX
                &&& kernel_size * kernel_size <= usize::MAX
                &&& kernel_volume(kernel_size, input_depth) <= usize::MAX
                &&& kernel_volume(kernel_size, input_depth) * dimension.2 <= usize::MAX
                &&& kernel_size * kernel_size * dimension.2 <= usize::MAX
            },
            LayerShape::Pooling { zero_padding, dimension, .. } => {
                &&& padding_fits(dimension, zero_padding)
                &&& volume_of(dimension) <= usize::MAX
            },
            LayerShape::FullyConnected { num_inputs, num_neurons } => num_inputs * num_neurons <= usize::MAX,
        }
    }

    /// Number of values the layer outputs.
    pub open spec fn output_len_spec(self) -> int {
        match self {
            LayerShape::Convolutional { dimension, .. } => volume_of(dimension),
            LayerShape::Pooling { dimension, .. } => volume_of(dimension),
            LayerShape::FullyConnected { num_neurons, .. } => num_neurons as int,
        }
    }

    /// Number of learned weights: the kernel tensor, the weight matrix, or none.
    pub open spec fn weight_len_spec(self) -> int {
        match self {
            LayerShape::Convolutional { kernel_size, dimension, input_depth, .. } => kernel_volume(
                kernel_size,
                input_depth,
            ) * dimension.2,
            LayerShape::Pooling { .. } => 0,
            LayerShape::FullyConnected { num_inputs, num_neurons } => num_inputs * num_neurons,
        }
    }

    /// Number of learned biases: one per output channel or neuron, none for
    /// pooling or for the input placeholder (kernel size zero).
    pub open spec fn bias_len_spec(self) -> int {
        match self {
            LayerShape::Convolutional { kernel_size, dimension, .. } => if kernel_size == 0 {
                0
            } else {
                dimension.2 as int
            },
            LayerShape::Pooling { .. } => 0,
            LayerShape::FullyConnected { num_neurons, .. } => num_neurons as int,
        }
    }

    /// Fan-in and fan-out that initialisation scales by; `None` for pooling
    /// and for the input placeholder, which learn nothing.
    pub open spec fn fan_spec(self) -> Option<(int, int)> {
        match self {
            LayerShape::Convolutional { kernel_size, dimension, input_depth, .. } => if kernel_size == 0 {
                None
            } else {
                Some((kernel_volume(kernel_size, input_depth), kernel_size * kernel_size * dimension.2))
            },
            LayerShape::Pooling { .. } => None,
            LayerShape::FullyConnected { num_inputs, num_neurons } => Some(
                (num_inputs as int, num_neurons as int),
            ),
        }
    }

    /// Outcome of passing this layer's output forward into `next`.
    pub open spec fn forward_spec(self, next: LayerShape) -> Result<(), Error> {
        match (self, next) {
            (LayerShape::FullyConnected { num_neurons, .. }, LayerShape::FullyConnected { num_inputs, .. }) => {
                if num_inputs != num_neurons {
                    Err(Error::DimensionMismatch)
                } else {
                    Ok(())
                }
            },
            (LayerShape::FullyConnected { .. }, _) => Err(Error::IncompatibleLayers),
            (_, LayerShape::FullyConnected { num_inputs, .. }) => {
                if volume_of(self.spatial_dimension()) != num_inputs {
                    Err(Error::DimensionMismatch)
                } else {
                    Ok(())
                }
            },
            (_, LayerShape::Convolutional { stride, kernel_size, dimension, input_depth, .. }) => convolution_spec(
                self.spatial_dimension(),
                self.spatial_padding(),
                dimension,
                kernel_size,
                stride,
                input_depth,
            ),
            (_, LayerShape::Pooling { stride, kernel_size, dimension, .. }) => check_output_dimension_spec(
                self.spatial_dimension(),
                dimension,
                0,
                self.spatial_dimension().2,
                kernel_size,
                stride,
            ),
        }
    }

    /// Outcome of passing this layer's gradient back into `previous`. A
    /// spatial layer cannot pass its gradient back into a fully connected one.
    pub open spec fn backward_spec(self, previous: LayerShape) -> Result<(), Error> {
        match (self, previous) {
            (LayerShape::FullyConnected { num_inputs, .. }, LayerShape::FullyConnected { num_neurons, .. }) => {
                if num_neurons != num_inputs {
                    Err(Error::DimensionMismatch)
                } else {
                    Ok(())
                }
            },
            (LayerShape::FullyConnected { num_inputs, .. }, _) => {
                if volume_of(previous.spatial_dimension()) != num_inputs {
                    Err(Error::DimensionMismatch)
                } else {
                    Ok(())
                }
            },
            (_, LayerShape::FullyConnected { .. }) => Err(Error::IncompatibleLayers),
            (LayerShape::Convolutional { stride, kernel_size, dimension, input_depth, .. }, _) => convolution_spec(
                previous.spatial_dimension(),
                previous.spatial_padding(),
                dimension,
                kernel_size,
                stride,
                input_depth,
            ),
            (LayerShape::Pooling { stride, kernel_size, dimension, .. }, _) => check_output_dimension_spec(
                previous.spatial_dimension(),
                dimension,
                0,
                previous.spatial_dimension().2,
                kernel_size,
                stride,
            ),
        }
    }

    /// Output dimension of a spatial layer.
    pub open spec fn spatial_dimension(self) -> (usize, usize, usize) {
        match self {
            LayerShape::Convolutional { dimension, .. } => dimension,
            LayerShape::Pooling { dimension, .. } => dimension,
            LayerShape::FullyConnected { num_neurons, .. } => (1, 1, num_neurons),
        }
    }

    /// Zero padding of a spatial layer's output.
    pub open spec fn spatial_padding(self) -> usize {
        match self {
            LayerShape::Convolutional { zero_padding, .. } => zero_padding,
            LayerShape::Pooling { zero_padding, .. } => zero_padding,
            LayerShape::FullyConnected { .. } => 0,
        }
    }

    /// Whether every buffer size of the layer fits a `usize`.
    pub fn is_valid(&self) -> (r: bool)
        ensures
            r == self.valid(),
    {
        match *self {
            LayerShape::Convolutional { zero_padding, kernel_size, dimension, input_depth, .. } => {
                if !fits_padding(dimension, zero_padding) || checked_volume(dimension).is_none() {
                    return false;
                }
                let square = match product(kernel_size, kernel_size) {
                    Some(p) => p,
                    None => return false,
                };
                let kernel = match product(square, input_depth) {
                    Some(p) => p,
                    None => return false,
                };
                product(kernel, dimension.2).is_some() && product(square, dimension.2).is_some()
            },
            LayerShape::Pooling { zero_padding, dimension, .. } => {
                fits_padding(dimension, zero_padding) && checked_volume(dimension).is_some()
            },
            LayerShape::FullyConnected { num_inputs, num_neurons } => product(num_inputs, num_neurons).is_some(),
        }
    }

    /// Number of values the layer outputs.
    pub fn output_len(&self) -> (r: usize)
        requires
            self.valid(),
        ensures
            r == self.output_len_spec(),
    {
        match *self {
            LayerShape::Convolutional { dimension, .. } => volume(dimension),
            LayerShape::Pooling { dimension, .. } => volume(dimension),
            LayerShape::FullyConnected { num_neurons, .. } => num_neurons,
        }
    }

    /// Number of learned weights.
    pub fn weight_len(&self) -> (r: usize)
        requires
            self.valid(),
        ensures
            r == self.weight_len_spec(),
    {
        match *self {
            LayerShape::Convolutional { kernel_size, dimension, input_depth, .. } => {
                kernel_size * kernel_size * input_depth * dimension.2
            },
            LayerShape::Pooling { .. } => 0,
            LayerShape::FullyConnected { num_inputs, num_neurons } => num_inputs * num_neurons,
        }
    }

    /// Number of learned biases.
    pub fn bias_len(&self) -> (r: usize)
        ensures
            r == self.bias_len_spec(),
    {
        match *self {
            LayerShape::Convolutional { kernel_size, dimension, .. } => if kernel_size == 0 {
                0
            } else {
                dimension.2
            },
            LayerShape::Pooling { .. } => 0,
            LayerShape::FullyConnected { num_neurons, .. } => num_neurons,
        }
    }

    /// Fan-in and fan-out for initialisation: a kernel's weights and the
    /// weights that read one input position for a convolutional layer, the
    /// input and neuron counts for a fully connected one; `None` for layers
    /// that learn nothing.
    pub fn fan_counts(&self) -> (r: Option<(usize, usize)>)
        requires
            self.valid(),
        ensures
            r matches Some(f) ==> self.fan_spec() == Some((f.0 as int, f.1 as int)),
            r is None ==> self.fan_spec() is None,
    {
        match *self {
            LayerShape::Convolutional { kernel_size, dimension, input_depth, .. } => {
                if kernel_size == 0 {
                    return None;
                }
                let square = kernel_size * kernel_size;
                Some((square * input_depth, square * dimension.2))
            },
            LayerShape::Pooling { .. } => None,
            LayerShape::FullyConnected { num_inputs, num_neurons } => Some((num_inputs, num_neurons)),
        }
    }

    /// Checks that this layer's output can be passed forward into `next`.
    ///
    /// A fully connected layer feeds only a fully connected layer with as many
    /// inputs as it has neurons (`IncompatibleLayers` for any other kind). A
    /// spatial layer feeds a fully connected layer with as many inputs as its
    /// volume has values; a convolutional layer whose dimension the sweep of
    /// its own padded output infers and whose input depth is its own depth; or
    /// a pooling layer whose dimension, channels included, the sweep of its
    /// unpadded output infers (`DimensionMismatch`, or
    /// `ImpossibleOutputDimension` when the sweep has no output).
    pub fn forward_check(&self, next: &LayerShape) -> (r: Result<(), Error>)
        requires
            self.valid(),
            next.valid(),
        ensures
            r == self.forward_spec(*next),
    {
        match (*self, *next) {
            (LayerShape::FullyConnected { num_neurons, .. }, LayerShape::FullyConnected { num_inputs, .. }) => {
                if num_inputs != num_neurons {
                    Err(Error::DimensionMismatch)
                } else {
                    Ok(())
                }
            },
            (LayerShape::FullyConnected { .. }, _) => Err(Error::IncompatibleLayers),
            (_, LayerShape::FullyConnected { num_inputs, .. }) => {
                if self.output_len() != num_inputs {
                    Err(Error::DimensionMismatch)
                } else {
                    Ok(())
                }
            },
            (_, LayerShape::Convolutional { stride, kernel_size, dimension, input_depth, .. }) => {
                let (input_dimension, padding) = self.spatial();
                check_convolution(input_dimension, padding, dimension, kernel_size, stride, input_depth)
            },
            (_, LayerShape::Pooling { stride, kernel_size, dimension, .. }) => {
                let (input_dimension, _) = self.spatial();
                check_output_dimension(input_dimension, dimension, 0, input_dimension.2, kernel_size, stride)
            },
        }
    }

    /// Checks that this layer's gradient can be passed back into `previous`,
    /// the mirror of `forward_check` from the later layer's side. A spatial
    /// layer cannot pass back into a fully connected one
    /// (`IncompatibleLayers`).
    pub fn backward_check(&self, previous: &LayerShape) -> (r: Result<(), Error>)
        requires
            self.valid(),
            previous.valid(),
        ensures
            r == self.backward_spec(*previous),
    {
        match (*self, *previous) {
            (LayerShape::FullyConnected { num_inputs, .. }, LayerShape::FullyConnected { num_neurons, .. }) => {
                if num_neurons != num_inputs {
                    Err(Error::DimensionMismatch)
                } else {
                    Ok(())
                }
            },
            (LayerShape::FullyConnected { num_inputs, .. }, _) => {
                if previous.output_len() != num_inputs {
                    Err(Error::DimensionMismatch)
                } else {
                    Ok(())
                }
            },
            (_, LayerShape::FullyConnected { .. }) => Err(Error::IncompatibleLayers),
            (LayerShape::Convolutional { stride, kernel_size, dimension, input_depth, .. }, _) => {
                let (input_dimension, padding) = previous.spatial();
                check_convolution(input_dimension, padding, dimension, kernel_size, stride, input_depth)
            },
            (LayerShape::Pooling { stride, kernel_size, dimension, .. }, _) => {
                let (input_dimension, _) = previous.spatial();
                check_output_dimension(input_dimension, dimension, 0, input_dimension.2, kernel_size, stride)
            },
        }
    }

    /// Output dimension and padding of a spatial layer.
    fn spatial(&self) -> (r: ((usize, usize, usize), usize))
        requires
            !(*self is FullyConnected),
            self.valid(),
        ensures
            r == (self.spatial_dimension(), self.spatial_padding()),
            padding_fits(r.0, r.1),
            padding_fits(r.0, 0),
    {
        match *self {
            LayerShape::Convolutional { zero_padding, dimension, .. } => (dimension, zero_padding),
            LayerShape::Pooling { zero_padding, dimension, .. } => (dimension, zero_padding),
            LayerShape::FullyConnected { .. } => ((1, 1, 0), 0),
        }
    }
}

/// Passing a gradient back from `layer` into `previous` is admitted exactly
/// when passing `previous`'s output forward into `layer` is, with the same
/// error, for every pair of layers.
pub proof fn lemma_backward_mirrors_forward(previous: LayerShape, layer: LayerShape)
    ensures
        layer.backward_spec(previous) == previous.forward_spec(layer),
{
}

/// A step that `forward_check` admits into a convolutional layer keeps its
/// sweep in bounds: every output position of the layer has a window inside
/// the input's padded plane, and every tap has a weight in the kernel tensor.
pub proof fn lemma_admitted_convolution(input: LayerShape, layer: LayerShape, o_x: usize, o_y: usize)
    requires
        input.valid(),
        layer.valid(),
        layer is Convolutional,
        input.forward_spec(layer) is Ok,
        o_x < layer.spatial_dimension().0,
        o_y < layer.spatial_dimension().1,
    ensures
        window_in_output(input.spatial_dimension(), input.spatial_padding(), layer->Convolutional_kernel_size,
            layer->Convolutional_stride, (o_x, o_y)),
        input.spatial_dimension().2 == layer->Convolutional_input_depth,
        volume_of(input.spatial_dimension()) <= usize::MAX,
        padding_fits(input.spatial_dimension(), input.spatial_padding()),
{
}

/// A step that `forward_check` admits into a pooling layer keeps its sweep
/// in bounds: every output position has a window inside the input plane,
/// and the layer has as many channels as its input.
pub proof fn lemma_admitted_pooling(input: LayerShape, layer: LayerShape, o_x: usize, o_y: usize)
    requires
        input.valid(),
        layer.valid(),
        layer is Pooling,
        input.forward_spec(layer) is Ok,
        o_x < layer.spatial_dimension().0,
        o_y < layer.spatial_dimension().1,
    ensures
        window_in_output(input.spatial_dimension(), 0, layer->Pooling_kernel_size, layer->Pooling_stride, (o_x, o_y)),
        input.spatial_dimension().2 == layer.spatial_dimension().2,
        volume_of(input.spatial_dimension()) <= usize::MAX,
{
}

/// Whether the padded extents of a plane fit a `usize`.
fn fits_padding(dimension: (usize, usize, usize), zero_padding: usize) -> (r: bool)
    ensures
        r == padding_fits(dimension, zero_padding),
{
    match product(zero_padding, 2) {
        Some(pad) => dimension.0.checked_add(pad).is_some() && dimension.1.checked_add(pad).is_some(),
        None => false,
    }
}

/// Number of values of a volume, or `None` when it does not fit a `usize`.
fn checked_volume(dimension: (usize, usize, usize)) -> (r: Option<usize>)
    ensures
        r matches Some(v) ==> v == volume_of(dimension),
        r is None ==> volume_of(dimension) > usize::MAX,
{
    let (w, h, d) = dimension;
    if w == 0 || h == 0 || d == 0 {
        assert(volume_of(dimension) == 0) by (nonlinear_arith)
            requires
                w == 0 || h == 0 || d == 0,
                w == dimension.0,
                h == dimension.1,
                d == dimension.2,
        ;
        return Some(0);
    }
    assert(w * h <= w * h * d) by (nonlinear_arith)
        requires
            d >= 1,
            w >= 0,
            h >= 0,
    ;
    match product(w, h) {
        Some(plane) => product(plane, d),
        None => None,
    }
}

/// Number of values of a volume whose size fits a `usize`.
fn volume(dimension: (usize, usize, usize)) -> (r: usize)
    requires
        volume_of(dimension) <= usize::MAX,
    ensures
        r == volume_of(dimension),
{
    match checked_volume(dimension) {
        Some(v) => v,
        None => 0,
    }
}

} // verus!
