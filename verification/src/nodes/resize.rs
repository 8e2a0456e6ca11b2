//! `util.resize`: the resampling node. It alone takes the render request's
//! extent; every other node passes its input's extent through.

use vstd::prelude::*;

use crate::bytes::law_words_lie_end_to_end;
use crate::bytes::le32;
use crate::bytes::le_words;
use crate::bytes::pack_words;
use crate::node::blake3_digest;
use crate::node::develop_descriptor;
use crate::node::develop_node;
use crate::node::kernel_salt;
use crate::node::KernelSalt;
use crate::node::NodeDescriptor;
use crate::nodes::gpu::uniform_plan;
use crate::nodes::gpu::with_uniform;
use crate::nodes::gpu::GpuPlan;
use crate::params::Declared;
use crate::types::Extent;
use crate::types::NodeId;

verus! {

/// The `util.resize` decimation node.
#[derive(Clone, Copy, Debug, PartialEq, Eq, Structural)]
pub struct UtilResizeNode {}

/// The words of the uniform buffer.
pub open spec fn resize_layout(input: Extent, output: Extent) -> Seq<u32> {
    seq![input.w, input.h, output.w, output.h]
}

impl UtilResizeNode {
    /// A fresh node.
    pub fn new() -> (r: UtilResizeNode)
        ensures
            r == (UtilResizeNode {  }),
    {
        UtilResizeNode {  }
    }

    /// The node's registry identity.
    pub fn id() -> (r: NodeId)
        ensures
            r@ == "util.resize"@,
    {
        NodeId("util.resize")
    }

    /// One working-format input, one working-format output, no parameters.
    pub fn descriptor(&self) -> (r: NodeDescriptor)
        ensures
            r@ == develop_node("util.resize"@, Seq::<Declared>::empty()),
    {
        let r = develop_descriptor(UtilResizeNode::id(), Vec::new());
        assert(r@.schema =~= Seq::<Declared>::empty());
        r
    }

    /// The request's extent, taken as it is, upscales too.
    pub fn output_extent(&self, request: Extent) -> (r: Extent)
        ensures
            r == request,
    {
        request
    }

    /// The parameter block: input and output extent.
    pub fn uniforms(input: Extent, output: Extent) -> (r: Vec<u8>)
        ensures
            r@ == le_words(resize_layout(input, output)),
    {
        let words: Vec<u32> = vec![input.w, input.h, output.w, output.h];
        assert(words@ =~= seq![input.w, input.h, output.w, output.h]);
        pack_words(&words)
    }

    /// One pass.
    pub fn gpu_plan(&self) -> (r: GpuPlan)
        ensures
            r@ == uniform_plan(),
            r@.sound(),
    {
        with_uniform()
    }
}

/// Each number has its own place in the uniform buffer, and the rest is padding.
pub proof fn law_resize_numbers_have_their_own_places(input: Extent, output: Extent)
    ensures
        le_words(resize_layout(input, output)).len() == 16,
        le_words(resize_layout(input, output)).subrange(0, 4) == le32(input.w),
        le_words(resize_layout(input, output)).subrange(4, 8) == le32(input.h),
        le_words(resize_layout(input, output)).subrange(8, 12) == le32(output.w),
        le_words(resize_layout(input, output)).subrange(12, 16) == le32(output.h),
{
    let words = resize_layout(input, output);
    law_words_lie_end_to_end(words, 0);
    law_words_lie_end_to_end(words, 1);
    law_words_lie_end_to_end(words, 2);
    law_words_lie_end_to_end(words, 3);
}

/// Makes [`UtilResizeNode`]s.
#[derive(Clone, Copy, Debug, PartialEq, Eq, Structural)]
pub struct UtilResizeFactory {}

impl UtilResizeFactory {
    /// A fresh node.
    pub fn instantiate(&self) -> (r: UtilResizeNode)
        ensures
            r == (UtilResizeNode {  }),
    {
        UtilResizeNode::new()
    }

    /// The salt of the node's kernel.
    pub fn kernel_salt(&self, kernel: &[u8]) -> (r: KernelSalt)
        ensures
            r@ == blake3_digest(kernel@),
    {
        kernel_salt(kernel)
    }
}

/// The first source pixel that output pixel `o` averages.
pub open spec fn span_start(o: int, in_len: int, out_len: int) -> int {
    (o * in_len) / out_len
}

/// One past the last source pixel that output pixel `o` averages; never empty.
pub open spec fn span_end(o: int, in_len: int, out_len: int) -> int {
    let end = ((o + 1) * in_len) / out_len;
    if end > span_start(o, in_len, out_len) {
        end
    } else {
        span_start(o, in_len, out_len) + 1
    }
}

/// The source pixels, along one axis, that an output pixel of a box decimation
/// averages.
pub fn box_span(o: u32, in_len: u32, out_len: u32) -> (r: (u32, u32))
    requires
        o < out_len,
        in_len > 0,
    ensures
        r.0 == span_start(o as int, in_len as int, out_len as int),
        r.1 == span_end(o as int, in_len as int, out_len as int),
        r.0 < r.1 <= in_len,
{
    proof {
        lemma_span_bounds(o as int, in_len as int, out_len as int);
        assert((o + 1) * in_len <= 0xffff_ffff * 0xffff_ffff && 0 <= o * in_len && o * in_len <= (o
            + 1) * in_len) by (nonlinear_arith)
            requires
                0 <= o,
                o + 1 <= 0xffff_ffff,
                0 <= in_len <= 0xffff_ffff,
        ;
    }
    let start: u64 = (o as u64 * in_len as u64) / out_len as u64;
    let end: u64 = ((o as u64 + 1) * in_len as u64) / out_len as u64;
    if end > start {
        (start as u32, end as u32)
    } else {
        (start as u32, start as u32 + 1)
    }
}

proof fn lemma_span_bounds(o: int, in_len: int, out_len: int)
    requires
        0 <= o < out_len,
        in_len > 0,
    ensures
        0 <= span_start(o, in_len, out_len) < in_len,
        span_start(o, in_len, out_len) <= ((o + 1) * in_len) / out_len <= in_len,
        span_start(o, in_len, out_len) < span_end(o, in_len, out_len) <= in_len,
{
    let a = o * in_len;
    let b = (o + 1) * in_len;
    assert(0 <= a && a <= b && b <= out_len * in_len && a < out_len * in_len) by (nonlinear_arith)
        requires
            a == o * in_len,
            b == (o + 1) * in_len,
            0 <= o < out_len,
            in_len > 0,
    ;
    vstd::arithmetic::div_mod::lemma_fundamental_div_mod(a, out_len);
    vstd::arithmetic::div_mod::lemma_mod_bound(a, out_len);
    vstd::arithmetic::div_mod::lemma_fundamental_div_mod(b, out_len);
    vstd::arithmetic::div_mod::lemma_mod_bound(b, out_len);
    assert(0 <= a / out_len < in_len) by (nonlinear_arith)
        requires
            a == out_len * (a / out_len) + a % out_len,
            0 <= a % out_len < out_len,
            0 <= a < out_len * in_len,
            out_len > 0,
    ;
    assert(a / out_len <= b / out_len <= in_len) by (nonlinear_arith)
        requires
            a == out_len * (a / out_len) + a % out_len,
            b == out_len * (b / out_len) + b % out_len,
            0 <= a % out_len,
            0 <= b % out_len < out_len,
            a % out_len < out_len,
            a <= b <= out_len * in_len,
            out_len > 0,
    ;
}

/// Shrinking partitions the source: the spans lie end to end, the first starts
/// at the first pixel and the last ends with the last.
pub proof fn law_shrinking_uses_every_pixel_once(o: int, in_len: int, out_len: int)
    requires
        0 <= o < out_len,
        out_len <= in_len,
    ensures
        span_end(o, in_len, out_len) == span_start(o + 1, in_len, out_len),
        span_start(0, in_len, out_len) == 0,
        span_start(out_len, in_len, out_len) == in_len,
{
    let a = o * in_len;
    let b = (o + 1) * in_len;
    vstd::arithmetic::div_mod::lemma_fundamental_div_mod(a, out_len);
    vstd::arithmetic::div_mod::lemma_mod_bound(a, out_len);
    vstd::arithmetic::div_mod::lemma_fundamental_div_mod(b, out_len);
    vstd::arithmetic::div_mod::lemma_mod_bound(b, out_len);
    assert(b == a + in_len) by (nonlinear_arith)
        requires
            a == o * in_len,
            b == (o + 1) * in_len,
    ;
    assert(a / out_len < b / out_len) by (nonlinear_arith)
        requires
            a == out_len * (a / out_len) + a % out_len,
            b == out_len * (b / out_len) + b % out_len,
            0 <= a % out_len,
            b % out_len < out_len,
            b >= a + out_len,
            out_len > 0,
    ;
    assert(0 * in_len == 0);
    vstd::arithmetic::div_mod::lemma_fundamental_div_mod_converse(0, out_len, 0, 0);
    assert(out_len * in_len == in_len * out_len + 0) by (nonlinear_arith);
    vstd::arithmetic::div_mod::lemma_fundamental_div_mod_converse(
        out_len * in_len,
        out_len,
        in_len,
        0,
    );
}

/// Enlarging or shrinking, no span is empty or leaves the source.
pub proof fn law_spans_stay_inside(o: int, in_len: int, out_len: int)
    requires
        0 <= o < out_len,
        in_len > 0,
    ensures
        0 <= span_start(o, in_len, out_len) < span_end(o, in_len, out_len) <= in_len,
{
    lemma_span_bounds(o, in_len, out_len);
}

/// The first and last source pixel of a filter window `lo..=hi`, clamped to a
/// source of `len` pixels.
pub fn tap_range(lo: i64, hi: i64, len: u32) -> (r: (u32, u32))
    requires
        len > 0,
        lo <= hi,
    ensures
        r.0 == crate::types::clamp(lo as int, 0, len - 1),
        r.1 == crate::types::clamp(hi as int, 0, len - 1),
        r.0 <= r.1 < len,
{
    (clamp_index(lo, len), clamp_index(hi, len))
}

/// A pixel coordinate clamped to a source of `len` pixels.
pub fn clamp_index(at: i64, len: u32) -> (r: u32)
    requires
        len > 0,
    ensures
        r == crate::types::clamp(at as int, 0, len - 1),
        r < len,
{
    if at < 0 {
        0
    } else if at > (len - 1) as i64 {
        len - 1
    } else {
        at as u32
    }
}

/// The spans are fair: the span of output pixel `o` starts at the source pixel
/// that `o` scales to, rounded down, so no two spans of a shrink differ by more
/// than one pixel in length.
pub proof fn law_spans_are_fair(o: int, in_len: int, out_len: int)
    requires
        0 <= o < out_len,
        in_len > 0,
    ensures
        span_start(o, in_len, out_len) * out_len <= o * in_len < (span_start(o, in_len, out_len)
            + 1) * out_len,
        out_len <= in_len ==> (span_end(o, in_len, out_len) - span_start(o, in_len, out_len) - 1)
            * out_len < in_len < (span_end(o, in_len, out_len) - span_start(o, in_len, out_len) + 1)
            * out_len,
        out_len > in_len ==> span_end(o, in_len, out_len) == span_start(o, in_len, out_len) + 1,
{
    let a = o * in_len;
    let b = (o + 1) * in_len;
    vstd::arithmetic::div_mod::lemma_fundamental_div_mod(a, out_len);
    vstd::arithmetic::div_mod::lemma_mod_bound(a, out_len);
    vstd::arithmetic::div_mod::lemma_fundamental_div_mod(b, out_len);
    vstd::arithmetic::div_mod::lemma_mod_bound(b, out_len);
    let s = a / out_len;
    let e = b / out_len;
    assert(b == a + in_len) by (nonlinear_arith)
        requires
            a == o * in_len,
            b == (o + 1) * in_len,
    ;
    assert(s * out_len <= a < (s + 1) * out_len) by (nonlinear_arith)
        requires
            a == out_len * s + a % out_len,
            0 <= a % out_len < out_len,
    ;
    assert(e * out_len <= b < (e + 1) * out_len) by (nonlinear_arith)
        requires
            b == out_len * e + b % out_len,
            0 <= b % out_len < out_len,
    ;
    if out_len <= in_len {
        law_shrinking_uses_every_pixel_once(o, in_len, out_len);
        assert(span_end(o, in_len, out_len) == e);
        assert((e - s - 1) * out_len < in_len < (e - s + 1) * out_len) by (nonlinear_arith)
            requires
                s * out_len <= a < (s + 1) * out_len,
                e * out_len <= b < (e + 1) * out_len,
                b == a + in_len,
        ;
    } else {
        assert(e <= s + 1) by (nonlinear_arith)
            requires
                a < (s + 1) * out_len,
                e * out_len <= b,
                b == a + in_len,
                in_len < out_len,
                out_len > 0,
        ;
    }
}

} // verus!
