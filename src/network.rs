//! The chain of layer shapes of a network, and the admission checks of the
//! network's operations.
//!
//! Layers run in the order they were registered. The first layer receives
//! the input and must be convolutional; the last one produces the output and
//! the error and must be fully connected. Neighbours are checked against each
//! other as each forward or backward step connects them.

use vstd::prelude::*;

use crate::errors::Error;
use crate::layer::LayerShape;
use crate::util::volume_of;

verus! {

/// The ordered layer shapes of a network.
#[derive(Debug, Clone)]
pub struct NetworkShape {
    layers: Vec<LayerShape>,
}

impl View for NetworkShape {
    type V = Seq<LayerShape>;

    closed spec fn view(&self) -> Seq<LayerShape> {
        self.layers@
    }
}

impl NetworkShape {
    /// Every registered layer has buffer sizes that fit a `usize`.
    pub open spec fn wf(&self) -> bool {
        forall|i: int| 0 <= i < self@.len() ==> (#[trigger] self@[i]).valid()
    }

    /// Outcome of writing an input of `input_len` values into the first layer.
    pub open spec fn input_spec(&self, input_len: int) -> Result<(), Error> {
        if self@.len() == 0 {
            Err(Error::IncompatibleLayers)
        } else {
            match self@[0] {
                LayerShape::Convolutional { dimension, .. } => if volume_of(dimension) == input_len {
                    Ok(())
                } else {
                    Err(Error::IncompatibleLayers)
                },
                _ => Err(Error::IncompatibleLayers),
            }
        }
    }

    /// The last layer is fully connected: the one the output is read from.
    pub open spec fn has_output(&self) -> bool {
        self@.len() > 0 && self@.last() is FullyConnected
    }

    /// Number of outputs of the last layer.
    pub open spec fn output_count(&self) -> int {
        self@.last()->FullyConnected_num_neurons as int
    }

    /// Outcome of reading the output or the error against `expected_len` target values.
    pub open spec fn error_spec(&self, expected_len: int) -> Result<(), Error> {
        if !self.has_output() || self.output_count() != expected_len {
            Err(Error::InvalidInput)
        } else {
            Ok(())
        }
    }

    /// Outcome of seeding the backward sweep with `expected_len` target values.
    pub open spec fn target_spec(&self, expected_len: int) -> Result<(), Error> {
        if !self.has_output() {
            Err(Error::IncompatibleLayers)
        } else if self.output_count() != expected_len {
            Err(Error::InvalidInput)
        } else {
            Ok(())
        }
    }

    /// An empty chain.
    pub fn new() -> (r: NetworkShape)
        ensures
            r@ == Seq::<LayerShape>::empty(),
            r.wf(),
    {
        NetworkShape { layers: Vec::new() }
    }

    /// Appends a layer at the end of the chain.
    pub fn register_layer(&mut self, layer: LayerShape)
        requires
            old(self).wf(),
            layer.valid(),
        ensures
            final(self)@ == old(self)@.push(layer),
            final(self).wf(),
    {
        self.layers.push(layer);
        proof {
            assert forall|i: int| 0 <= i < self@.len() implies (#[trigger] self@[i]).valid() by {
                if i < old(self)@.len() {
                    assert(self@[i] == old(self)@[i]);
                }
            }
        }
    }

    /// Number of layers.
    pub fn len(&self) -> (r: usize)
        ensures
            r == self@.len(),
    {
        self.layers.len()
    }

    /// The shape of layer `index`.
    pub fn layer(&self, index: usize) -> (r: LayerShape)
        requires
            index < self@.len(),
        ensures
            r == self@[index as int],
    {
        self.layers[index]
    }

    /// Checks an input of `input_len` values against the first layer:
    /// `IncompatibleLayers` when there is no layer, when the first is not
    /// convolutional, or when its volume does not hold `input_len` values.
    pub fn check_input(&self, input_len: usize) -> (r: Result<(), Error>)
        requires
            self.wf(),
        ensures
            r == self.input_spec(input_len as int),
    {
        if self.layers.len() == 0 {
            return Err(Error::IncompatibleLayers);
        }
        let first = self.layers[0];
        proof {
            assert(self@[0].valid());
        }
        match first {
            LayerShape::Convolutional { .. } => {
                if first.output_len() == input_len {
                    Ok(())
                } else {
                    Err(Error::IncompatibleLayers)
                }
            },
            _ => Err(Error::IncompatibleLayers),
        }
    }

    /// Checks that the output can be read: `InvalidInput` unless the last
    /// layer is fully connected.
    pub fn check_output(&self) -> (r: Result<(), Error>)
        ensures
            r is Ok <==> self.has_output(),
            r is Err ==> r == Err::<(), Error>(Error::InvalidInput),
    {
        let n = self.layers.len();
        if n == 0 {
            return Err(Error::InvalidInput);
        }
        match self.layers[n - 1] {
            LayerShape::FullyConnected { .. } => Ok(()),
            _ => Err(Error::InvalidInput),
        }
    }

    /// Checks that the error against `expected_len` target values can be
    /// computed: `InvalidInput` unless the last layer is fully connected with
    /// `expected_len` neurons.
    pub fn check_error(&self, expected_len: usize) -> (r: Result<(), Error>)
        ensures
            r == self.error_spec(expected_len as int),
    {
        let n = self.layers.len();
        if n == 0 {
            return Err(Error::InvalidInput);
        }
        match self.layers[n - 1] {
            LayerShape::FullyConnected { num_neurons, .. } => {
                if num_neurons == expected_len {
                    Ok(())
                } else {
                    Err(Error::InvalidInput)
                }
            },
            _ => Err(Error::InvalidInput),
        }
    }

    /// Checks that a backward sweep can start from `expected_len` target
    /// values: `IncompatibleLayers` unless the last layer is fully connected,
    /// then `InvalidInput` unless it has `expected_len` neurons.
    pub fn check_target(&self, expected_len: usize) -> (r: Result<(), Error>)
        ensures
            r == self.target_spec(expected_len as int),
    {
        let n = self.layers.len();
        if n == 0 {
            return Err(Error::IncompatibleLayers);
        }
        match self.layers[n - 1] {
            LayerShape::FullyConnected { num_neurons, .. } => {
                if num_neurons == expected_len {
                    Ok(())
                } else {
                    Err(Error::InvalidInput)
                }
            },
            _ => Err(Error::IncompatibleLayers),
        }
    }

    /// Checks a layer index: `InvalidInput` when there is no such layer.
    pub fn check_layer_index(&self, index: usize) -> (r: Result<(), Error>)
        ensures
            r is Ok <==> index < self@.len(),
            r is Err ==> r == Err::<(), Error>(Error::InvalidInput),
    {
        if index >= self.layers.len() {
            Err(Error::InvalidInput)
        } else {
            Ok(())
        }
    }

    /// Checks the forward step from layer `index` into layer `index + 1`.
    pub fn check_forward_step(&self, index: usize) -> (r: Result<(), Error>)
        requires
            self.wf(),
            index + 1 < self@.len(),
        ensures
            r == self@[index as int].forward_spec(self@[index + 1]),
    {
        let current = self.layers[index];
        proof {
            assert(self.layers.len() == self@.len());
        }
        let next = self.layers[index + 1];
        proof {
            assert(self@[index as int].valid());
            assert(self@[index + 1].valid());
        }
        current.forward_check(&next)
    }

    /// Checks the backward step from layer `index` into layer `index - 1`.
    pub fn check_backward_step(&self, index: usize) -> (r: Result<(), Error>)
        requires
            self.wf(),
            1 <= index < self@.len(),
        ensures
            r == self@[index as int].backward_spec(self@[index - 1]),
    {
        let current = self.layers[index];
        let previous = self.layers[index - 1];
        proof {
            assert(self@[index as int].valid());
            assert(self@[index - 1].valid());
        }
        current.backward_check(&previous)
    }
}

} // verus!
