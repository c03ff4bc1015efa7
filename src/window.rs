//! Index plans of the strided kernel sweeps.
//!
//! A convolution or pooling layer visits its input window by window. The
//! window of output position `(o_x, o_y)` starts at `(o_x * stride, o_y *
//! stride)` of the (padded) input plane. Within a window, taps are numbered
//! the way the kernel tensor stores them: `t = z * k * k + y * k + x`.

use vstd::arithmetic::div_mod::{lemma_div_pos_is_pos, lemma_fundamental_div_mod};
use vstd::prelude::*;

use crate::util::{
    get_index, index_spec, kernel_index_spec, kernel_volume, lemma_index_in_volume, lemma_index_round_trip,
    offset_of, output_dimension_spec, padded_lookup, padding_fits, query_zero_padded, same_lookup, volume_of,
};

verus! {

/// Column of tap `t` inside a kernel of size `k`.
pub open spec fn tap_x(t: int, k: int) -> int {
    t % k
}

/// Row of tap `t` inside a kernel of size `k`.
pub open spec fn tap_y(t: int, k: int) -> int {
    (t / k) % k
}

/// Input channel of tap `t` inside a kernel of size `k`.
pub open spec fn tap_z(t: int, k: int) -> int {
    t / (k * k)
}

/// The window of `output_position` lies inside the output that the sweep produces.
pub open spec fn window_in_output(
    input_dimension: (usize, usize, usize),
    zero_padding: usize,
    kernel_size: usize,
    stride: usize,
    output_position: (usize, usize),
) -> bool {
    output_dimension_spec(input_dimension, zero_padding, 1, kernel_size, stride) matches Some(out)
        && output_position.0 < out.0 && output_position.1 < out.1
}

/// What tap `t` of the window at `output_position` reads, through the zero pad.
pub open spec fn tap_source(
    input_dimension: (usize, usize, usize),
    zero_padding: usize,
    kernel_size: usize,
    stride: usize,
    output_position: (usize, usize),
    t: int,
) -> Option<int> {
    let k = kernel_size as int;
    padded_lookup(
        output_position.0 * stride + tap_x(t, k),
        output_position.1 * stride + tap_y(t, k),
        tap_z(t, k),
        input_dimension,
        zero_padding,
    )
}

/// Offset that tap `t` of the pooling window at `output_position` reads in channel `channel`.
pub open spec fn pool_source(
    input_dimension: (usize, usize, usize),
    kernel_size: usize,
    stride: usize,
    output_position: (usize, usize),
    channel: usize,
    t: int,
) -> int {
    let k = kernel_size as int;
    offset_of(
        output_position.0 * stride + t % k,
        output_position.1 * stride + t / k,
        channel as int,
        input_dimension.1 as int,
        input_dimension.2 as int,
    )
}

/// Every window of an inferred output fits inside the padded input plane:
/// the inference is what keeps a sweep in bounds.
pub proof fn lemma_window_in_bounds(
    input_dimension: (usize, usize, usize),
    zero_padding: usize,
    num_kernels: usize,
    kernel_size: usize,
    stride: usize,
    o_x: int,
    o_y: int,
)
    requires
        output_dimension_spec(input_dimension, zero_padding, num_kernels, kernel_size, stride) matches Some(out)
            && 0 <= o_x < out.0 && 0 <= o_y < out.1,
    ensures
        o_x * stride + kernel_size <= input_dimension.0 + 2 * zero_padding,
        o_y * stride + kernel_size <= input_dimension.1 + 2 * zero_padding,
{
    let s = stride as int;
    let k = kernel_size as int;
    lemma_axis_in_bounds(input_dimension.0 + 2 * zero_padding, k, s, o_x);
    lemma_axis_in_bounds(input_dimension.1 + 2 * zero_padding, k, s, o_y);
}

proof fn lemma_axis_in_bounds(padded: int, k: int, s: int, o: int)
    requires
        k >= 1,
        s >= 1,
        k - 1 < padded,
        0 <= o < (padded - k + 1 + s - 1) / s,
    ensures
        o * s + k <= padded,
{
    let a = padded - k + s;
    let q = a / s;
    lemma_fundamental_div_mod(a, s);
    assert(o * s + k <= padded) by (nonlinear_arith)
        requires
            a == s * q + a % s,
            0 <= a % s,
            0 <= o < q,
            a == padded - k + s,
            s >= 1,
    {
        assert(o + 1 <= q);
        assert((o + 1) * s <= q * s);
    }
}

proof fn lemma_tap_decompose(t: int, k: int, d: int)
    requires
        k >= 1,
        0 <= t < k * k * d,
    ensures
        0 <= tap_x(t, k) < k,
        0 <= tap_y(t, k) < k,
        0 <= tap_z(t, k) < d,
        t == tap_z(t, k) * (k * k) + tap_y(t, k) * k + tap_x(t, k),
{
    let kk = k * k;
    assert(kk >= 1) by (nonlinear_arith)
        requires
            k >= 1,
            kk == k * k,
    ;
    lemma_fundamental_div_mod(t, k);
    lemma_fundamental_div_mod(t / k, k);
    lemma_div_pos_is_pos(t, k);
    vstd::arithmetic::div_mod::lemma_div_denominator(t, k, k);
    let z = t / kk;
    assert(0 <= z < d) by (nonlinear_arith)
        requires
            0 <= t < kk * d,
            kk >= 1,
            z == t / kk,
    {
        vstd::arithmetic::div_mod::lemma_div_pos_is_pos(t, kk);
        vstd::arithmetic::div_mod::lemma_fundamental_div_mod(t, kk);
        vstd::arithmetic::div_mod::lemma_mod_pos_bound(t, kk);
        if z >= d {
            assert(kk * z >= kk * d);
        }
    }
    let q = t / k;
    assert(t == (q / k) * (k * k) + (q % k) * k + t % k) by (nonlinear_arith)
        requires
            t == k * q + t % k,
            q == k * (q / k) + q % k,
    ;
}

proof fn lemma_square_tap(t: int, k: int)
    requires
        k >= 1,
        0 <= t < k * k,
    ensures
        0 <= t % k < k,
        0 <= t / k < k,
        t == (t / k) * k + t % k,
{
    lemma_fundamental_div_mod(t, k);
    lemma_div_pos_is_pos(t, k);
    vstd::arithmetic::div_mod::lemma_mod_pos_bound(t, k);
    let q = t / k;
    assert(q < k) by (nonlinear_arith)
        requires
            t == k * q + t % k,
            0 <= t % k,
            t < k * k,
            k >= 1,
    {
        if q >= k {
            assert(k * q >= k * k);
        }
    }
    assert(t == q * k + t % k) by (nonlinear_arith)
        requires
            t == k * q + t % k,
    ;
}

/// Two taps of a square window with the same column and row are the same tap.
proof fn lemma_square_tap_unique(u: int, t: int, k: int)
    requires
        k >= 1,
        0 <= u < k * k,
        0 <= t < k * k,
        u % k == t % k,
        u / k == t / k,
    ensures
        u == t,
{
    lemma_square_tap(u, k);
    lemma_square_tap(t, k);
}

/// The weight that tap `t` of output channel `channel` multiplies sits at
/// `channel * kernel_volume + t` of the kernel tensor.
pub proof fn lemma_tap_kernel_index(t: int, kernel_size: usize, input_depth: usize, channel: usize)
    requires
        kernel_size >= 1,
        0 <= t < kernel_volume(kernel_size, input_depth),
    ensures
        kernel_index_spec(
            (
                tap_x(t, kernel_size as int) as usize,
                tap_y(t, kernel_size as int) as usize,
                tap_z(t, kernel_size as int) as usize,
                channel,
            ),
            kernel_size,
            input_depth,
        ) == channel * kernel_volume(kernel_size, input_depth) + t,
{
    lemma_tap_decompose(t, kernel_size as int, input_depth as int);
}

/// The input offsets that the convolution window at `output_position` reads:
/// entry `t` is what tap `t` reads, `None` where the tap falls in the zero pad.
pub fn convolution_taps(
    input_dimension: (usize, usize, usize),
    zero_padding: usize,
    kernel_size: usize,
    stride: usize,
    output_position: (usize, usize),
) -> (r: Vec<Option<usize>>)
    requires
        padding_fits(input_dimension, zero_padding),
        volume_of(input_dimension) <= usize::MAX,
        kernel_volume(kernel_size, input_dimension.2) <= usize::MAX,
        window_in_output(input_dimension, zero_padding, kernel_size, stride, output_position),
    ensures
        r@.len() == kernel_volume(kernel_size, input_dimension.2),
        forall|t: int|
            0 <= t < r@.len() ==> same_lookup(
                #[trigger] r@[t],
                tap_source(input_dimension, zero_padding, kernel_size, stride, output_position, t),
            ),
        forall|t: int| 0 <= t < r@.len() ==> (#[trigger] r@[t] matches Some(i) ==> i < volume_of(input_dimension)),
{
    proof {
        lemma_window_in_bounds(input_dimension, zero_padding, 1, kernel_size, stride, output_position.0 as int,
            output_position.1 as int);
    }
    let k = kernel_size;
    assert(kernel_size * kernel_size <= kernel_volume(kernel_size, input_dimension.2)) by (nonlinear_arith)
        requires
            input_dimension.2 >= 1,
    ;
    let kk = kernel_size * kernel_size;
    let ghost kv = kernel_volume(kernel_size, input_dimension.2);
    assert(kk * input_dimension.2 == kv);
    let total = kk * input_dimension.2;
    let origin_x = output_position.0 * stride;
    let origin_y = output_position.1 * stride;
    let mut taps: Vec<Option<usize>> = Vec::new();
    let mut t: usize = 0;
    while t < total
        invariant
            k == kernel_size,
            k >= 1,
            kk == k * k,
            total == kv,
            kv == kernel_volume(kernel_size, input_dimension.2),
            origin_x == output_position.0 * stride,
            origin_y == output_position.1 * stride,
            origin_x + k <= input_dimension.0 + 2 * zero_padding,
            origin_y + k <= input_dimension.1 + 2 * zero_padding,
            padding_fits(input_dimension, zero_padding),
            volume_of(input_dimension) <= usize::MAX,
            t <= total,
            taps@.len() == t,
            forall|u: int|
                0 <= u < t ==> same_lookup(
                    #[trigger] taps@[u],
                    tap_source(input_dimension, zero_padding, kernel_size, stride, output_position, u),
                ),
            forall|u: int| 0 <= u < t ==> (#[trigger] taps@[u] matches Some(i) ==> i < volume_of(input_dimension)),
        decreases total - t,
    {
        proof {
            lemma_tap_decompose(t as int, k as int, input_dimension.2 as int);
        }
        let x = origin_x + t % k;
        let y = origin_y + (t / k) % k;
        let z = t / kk;
        let tap = query_zero_padded((x, y, z), input_dimension, zero_padding);
        taps.push(tap);
        t = t + 1;
    }
    taps
}

/// The input offsets that the pooling window at `output_position` covers in
/// channel `channel`, row by row: entry `t` is column `t % k`, row `t / k` of
/// the window. The offsets are distinct and inside the input volume.
pub fn pooling_window(
    input_dimension: (usize, usize, usize),
    kernel_size: usize,
    stride: usize,
    output_position: (usize, usize),
    channel: usize,
) -> (r: Vec<usize>)
    requires
        volume_of(input_dimension) <= usize::MAX,
        padding_fits(input_dimension, 0),
        window_in_output(input_dimension, 0, kernel_size, stride, output_position),
        channel < input_dimension.2,
    ensures
        r@.len() == kernel_size * kernel_size,
        forall|t: int|
            0 <= t < r@.len() ==> #[trigger] r@[t] == pool_source(
                input_dimension,
                kernel_size,
                stride,
                output_position,
                channel,
                t,
            ),
        forall|t: int| 0 <= t < r@.len() ==> #[trigger] r@[t] < volume_of(input_dimension),
        r@.no_duplicates(),
{
    proof {
        lemma_window_in_bounds(input_dimension, 0, 1, kernel_size, stride, output_position.0 as int,
            output_position.1 as int);
    }
    let k = kernel_size;
    assert(kernel_size * kernel_size <= volume_of(input_dimension)) by (nonlinear_arith)
        requires
            kernel_size <= input_dimension.0,
            kernel_size <= input_dimension.1,
            input_dimension.2 >= 1,
    {
        assert(kernel_size * kernel_size <= input_dimension.0 * kernel_size);
        assert(input_dimension.0 * kernel_size <= input_dimension.0 * input_dimension.1);
        assert(input_dimension.0 * input_dimension.1 <= input_dimension.0 * input_dimension.1 * input_dimension.2);
    }
    let total = kernel_size * kernel_size;
    let origin_x = output_position.0 * stride;
    let origin_y = output_position.1 * stride;
    let mut window: Vec<usize> = Vec::new();
    let mut t: usize = 0;
    while t < total
        invariant
            k == kernel_size,
            k >= 1,
            total == k * k,
            origin_x == output_position.0 * stride,
            origin_y == output_position.1 * stride,
            origin_x + k <= input_dimension.0,
            origin_y + k <= input_dimension.1,
            channel < input_dimension.2,
            volume_of(input_dimension) <= usize::MAX,
            t <= total,
            window@.len() == t,
            forall|u: int|
                0 <= u < t ==> #[trigger] window@[u] == pool_source(
                    input_dimension,
                    kernel_size,
                    stride,
                    output_position,
                    channel,
                    u,
                ),
            forall|u: int| 0 <= u < t ==> #[trigger] window@[u] < volume_of(input_dimension),
            forall|u: int, v: int| 0 <= u < v < t ==> window@[u] != window@[v],
        decreases total - t,
    {
        proof {
            lemma_square_tap(t as int, k as int);
        }
        let x = origin_x + t % k;
        let y = origin_y + t / k;
        let position = (x, y, channel);
        proof {
            lemma_index_in_volume(position, input_dimension);
            lemma_index_round_trip(position, input_dimension);
            assert forall|u: int| 0 <= u < t implies window@[u] != index_spec(position, input_dimension) by {
                lemma_square_tap(u, k as int);
                let pu = ((origin_x + u % (k as int)) as usize, (origin_y + u / (k as int)) as usize, channel);
                lemma_index_round_trip(pu, input_dimension);
                assert(window@[u] == index_spec(pu, input_dimension));
                if index_spec(pu, input_dimension) == index_spec(position, input_dimension) {
                    lemma_square_tap_unique(u, t as int, k as int);
                }
            }
        }
        let offset = get_index(position, input_dimension);
        window.push(offset);
        t = t + 1;
    }
    window
}

} // verus!
