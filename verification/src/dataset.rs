//! Sliding-window training dataset over one encoded text.
//!
//! The text is encoded to token ids once; windows of `max_length` ids
//! starting every `stride` positions become the inputs, and each window
//! shifted one position right becomes its next-token target. The tensor
//! stacking and device placement of the rows stay with the caller.

use vstd::prelude::*;

use crate::bpe::gpt2_encode;
use crate::model::encoded_row;

verus! {

/// Number of windows cut from a run of `d` possible start positions
/// when starts advance by `stride`: one for each start `0, stride,
/// 2 * stride, ...` strictly below `d`.
pub open spec fn spec_num_windows(d: int, stride: int) -> int
    recommends
        stride >= 1,
    decreases d,
        when stride >= 1
{
    if d <= 0 {
        0
    } else if d <= stride {
        1
    } else {
        1 + spec_num_windows(d - stride, stride)
    }
}

/// Cutting one window consumes `stride` start positions.
pub proof fn lemma_num_windows_step(d: int, stride: int)
    requires
        stride >= 1,
        d > 0,
    ensures
        spec_num_windows(d, stride) == 1 + spec_num_windows(d - stride, stride),
{
}

/// Input and target rows of one text, ready for batching.
pub struct GPTDatasetV1 {
    /// The windows of `max_length` token ids, in start order.
    pub input_ids: Vec<Vec<i64>>,
    /// The same windows shifted one position right.
    pub target_ids: Vec<Vec<i64>>,
}

impl GPTDatasetV1 {
    /// Does this dataset hold exactly the windows of the given ids,
    /// window length and stride?
    pub open spec fn is_windows_of(self, ids: Seq<i64>, max_length: int, stride: int) -> bool {
        &&& self.input_ids@.len() == spec_num_windows(ids.len() - max_length, stride)
        &&& self.target_ids@.len() == self.input_ids@.len()
        &&& forall|w: int|
            0 <= w < self.input_ids@.len() ==> (#[trigger] self.input_ids@[w])@ == ids.subrange(
                w * stride,
                w * stride + max_length,
            )
        &&& forall|w: int|
            0 <= w < self.target_ids@.len() ==> (#[trigger] self.target_ids@[w])@ == ids.subrange(
                w * stride + 1,
                w * stride + max_length + 1,
            )
    }

    /// Cut a run of token ids into input windows and their shifted
    /// targets. The text must hold at least one full window.
    #[verifier::loop_isolation(false)]
    pub fn from_token_ids(ids: &Vec<i64>, max_length: usize, stride: usize) -> (r: GPTDatasetV1)
        requires
            max_length >= 1,
            stride >= 1,
            ids@.len() >= max_length,
        ensures
            r.is_windows_of(ids@, max_length as int, stride as int),
    {
        let n = ids.len();
        let d = n - max_length;
        let mut input_ids: Vec<Vec<i64>> = Vec::new();
        let mut target_ids: Vec<Vec<i64>> = Vec::new();
        let mut i: usize = 0;
        let ghost mut w: int = 0;
        while i < d
            invariant
                input_ids@.len() == w,
                target_ids@.len() == w,
                i < d ==> i == w * stride,
                0 <= w,
                i <= d,
                spec_num_windows(d as int, stride as int) == w + spec_num_windows(
                    d - i,
                    stride as int,
                ),
                forall|p: int|
                    0 <= p < w ==> (#[trigger] input_ids@[p])@ == ids@.subrange(
                        p * (stride as int),
                        p * (stride as int) + max_length,
                    ),
                forall|p: int|
                    0 <= p < w ==> (#[trigger] target_ids@[p])@ == ids@.subrange(
                        p * (stride as int) + 1,
                        p * (stride as int) + max_length + 1,
                    ),
            decreases d - i,
        {
            let mut input_chunk: Vec<i64> = Vec::new();
            let mut target_chunk: Vec<i64> = Vec::new();
            let mut q: usize = 0;
            while q < max_length
                invariant
                    q <= max_length,
                    i + max_length < n,
                    input_chunk@ == ids@.subrange(i as int, i + q),
                    target_chunk@ == ids@.subrange(i + 1, i + 1 + q),
                decreases max_length - q,
            {
                input_chunk.push(ids[i + q]);
                target_chunk.push(ids[i + q + 1]);
                assert(input_chunk@ =~= ids@.subrange(i as int, i + q + 1));
                assert(target_chunk@ =~= ids@.subrange(i + 1, i + 1 + q + 1));
                q = q + 1;
            }
            input_ids.push(input_chunk);
            target_ids.push(target_chunk);
            proof {
                lemma_num_windows_step(d - i, stride as int);
                assert((w + 1) * (stride as int) == w * (stride as int) + stride)
                    by (nonlinear_arith);
                w = w + 1;
            }
            if d - i <= stride {
                // The next start would fall at or past the last window.
                i = d;
            } else {
                i = i + stride;
            }
        }
        proof {
            assert(spec_num_windows(d - i, stride as int) == 0);
        }
        GPTDatasetV1 { input_ids, target_ids }
    }

    /// Encode a text and cut it into windows. Gives nothing back when
    /// the window length or stride is zero, or when the encoded text is
    /// shorter than one full window.
    pub fn new(text: String, max_length: usize, stride: usize) -> (r: Option<GPTDatasetV1>)
        ensures
            match r {
                Some(d) => {
                    &&& max_length >= 1
                    &&& stride >= 1
                    &&& encoded_row(text@).len() >= max_length
                    &&& d.is_windows_of(encoded_row(text@), max_length as int, stride as int)
                },
                None => {
                    max_length == 0 || stride == 0 || encoded_row(text@).len() < max_length
                },
            },
            r is Some <==> (max_length >= 1 && stride >= 1 && encoded_row(text@).len()
                >= max_length),
    {
        if max_length == 0 || stride == 0 {
            return None;
        }
        let raw = gpt2_encode(text.as_str());
        let mut ids: Vec<i64> = Vec::new();
        let mut k: usize = 0;
        while k < raw.len()
            invariant
                k <= raw@.len(),
                ids@.len() == k,
                forall|p: int| 0 <= p < k ==> #[trigger] ids@[p] == raw@[p] as i64,
            decreases raw@.len() - k,
        {
            ids.push(raw[k] as i64);
            k = k + 1;
        }
        proof {
            assert(ids@ =~= encoded_row(text@));
        }
        if ids.len() < max_length {
            return None;
        }
        Some(GPTDatasetV1::from_token_ids(&ids, max_length, stride))
    }

    /// Number of windows the dataset holds.
    pub fn len(&self) -> (r: usize)
        ensures
            r == self.input_ids@.len(),
    {
        self.input_ids.len()
    }

    /// One input window and its target, copied out; the caller lifts
    /// them into its `[1, max_length]` tensors.
    pub fn get_item(&self, index: usize) -> (r: (Vec<i64>, Vec<i64>))
        requires
            index < self.input_ids@.len(),
            index < self.target_ids@.len(),
        ensures
            r.0@ == self.input_ids@[index as int]@,
            r.1@ == self.target_ids@[index as int]@,
    {
        let input = self.input_ids[index].clone();
        let target = self.target_ids[index].clone();
        (input, target)
    }

    /// The first `batch_size` input windows, copied out in order; the
    /// caller stacks them into its `[batch_size, max_length]` tensor.
    pub fn get_input_tensor_batch(&self, batch_size: usize) -> (r: Vec<Vec<i64>>)
        requires
            batch_size <= self.input_ids@.len(),
        ensures
            r@.len() == batch_size,
            forall|p: int| 0 <= p < batch_size ==> (#[trigger] r@[p])@ == self.input_ids@[p]@,
    {
        let mut r: Vec<Vec<i64>> = Vec::new();
        let mut p: usize = 0;
        while p < batch_size
            invariant
                p <= batch_size,
                batch_size <= self.input_ids@.len(),
                r@.len() == p,
                forall|q: int| 0 <= q < p ==> (#[trigger] r@[q])@ == self.input_ids@[q]@,
            decreases batch_size - p,
        {
            r.push(self.input_ids[p].clone());
            p = p + 1;
        }
        r
    }
}

} // verus!
