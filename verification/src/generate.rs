//! The autoregressive decoding loop as a state machine.
//!
//! A `Generator` owns the growing token sequence of one generation call:
//! it starts as the encoded prompt and gains one sampled id per step
//! until `max_new_tokens` ids were appended. Each step reads the model
//! through a sliding window of the last `context_size` tokens; the
//! forward pass, the softmax and the categorical draw run on the
//! caller's side, and the drawn id comes back through `accept_token`.
//! The prompt itself is never touched again — the law at the end of the
//! file states that a finished run holds the prompt unchanged, followed
//! by exactly `max_new_tokens` new ids.

use vstd::prelude::*;

use crate::error::GenerateError;

verus! {

/// State of one autoregressive generation call.
pub struct Generator {
    /// The sequence so far: the prompt followed by the sampled ids.
    pub tokens: Vec<i64>,
    /// Length of the prompt the call started from.
    pub prompt_len: usize,
    /// The prompt the call started from.
    pub prompt: Ghost<Seq<i64>>,
    /// Number of ids to sample in total.
    pub max_new_tokens: usize,
    /// Length of the sliding window handed to the model.
    pub context_size: usize,
}

impl Generator {
    /// The state invariant: a non-empty prompt standing unchanged at the
    /// head of the sequence, a positive window, and never more than
    /// `max_new_tokens` ids appended after the prompt.
    pub open spec fn wf(self) -> bool {
        &&& self.context_size >= 1
        &&& self.prompt@.len() == self.prompt_len
        &&& self.prompt@.len() >= 1
        &&& self.prompt@.len() <= self.tokens@.len()
        &&& self.tokens@.len() <= self.prompt@.len() + self.max_new_tokens
        &&& self.tokens@.subrange(0, self.prompt@.len() as int) == self.prompt@
    }

    /// Number of ids sampled so far.
    pub open spec fn steps_taken(self) -> int {
        self.tokens@.len() - self.prompt@.len()
    }

    /// Has the call appended all the ids it was asked for?
    pub open spec fn spec_done(self) -> bool {
        self.steps_taken() == self.max_new_tokens
    }

    /// Start a generation call from an encoded prompt.
    ///
    /// An empty prompt is rejected — the first step would have no final
    /// position to read logits from — and so is a window of length zero.
    pub fn new(prompt: Vec<i64>, max_new_tokens: usize, context_size: usize) -> (r: Result<
        Generator,
        GenerateError,
    >)
        ensures
            match r {
                Ok(g) => {
                    &&& prompt@.len() >= 1
                    &&& context_size >= 1
                    &&& g.wf()
                    &&& g.tokens@ == prompt@
                    &&& g.prompt@ == prompt@
                    &&& g.max_new_tokens == max_new_tokens
                    &&& g.context_size == context_size
                },
                Err(e) => match e {
                    GenerateError::EmptyPrompt => prompt@.len() == 0,
                    GenerateError::ZeroContextWindow => prompt@.len() >= 1 && context_size == 0,
                },
            },
            r is Ok <==> (prompt@.len() >= 1 && context_size >= 1),
    {
        if prompt.len() == 0 {
            return Err(GenerateError::EmptyPrompt);
        }
        if context_size == 0 {
            return Err(GenerateError::ZeroContextWindow);
        }
        let g = Generator {
            prompt_len: prompt.len(),
            prompt: Ghost(prompt@),
            tokens: prompt,
            max_new_tokens,
            context_size,
        };
        assert(g.tokens@.subrange(0, g.prompt@.len() as int) =~= g.prompt@);
        Ok(g)
    }

    /// Has the call appended all the ids it was asked for?
    pub fn is_done(&self) -> (r: bool)
        requires
            self.wf(),
        ensures
            r == self.spec_done(),
    {
        self.tokens.len() - self.prompt_len == self.max_new_tokens
    }

    /// The sliding window for the next forward pass: the last
    /// `context_size` tokens of the sequence, or the whole sequence if
    /// it is still shorter than that. Never empty.
    pub fn window(&self) -> (r: Vec<i64>)
        requires
            self.wf(),
        ensures
            r@ == self.tokens@.subrange(
                if self.tokens@.len() >= self.context_size {
                    self.tokens@.len() - self.context_size
                } else {
                    0
                },
                self.tokens@.len() as int,
            ),
            r@.len() >= 1,
            r@.len() <= self.context_size,
    {
        let len = self.tokens.len();
        let start: usize = if len >= self.context_size {
            len - self.context_size
        } else {
            0
        };
        let mut r: Vec<i64> = Vec::new();
        let mut q: usize = start;
        while q < len
            invariant
                start <= q <= len,
                len == self.tokens@.len(),
                r@ == self.tokens@.subrange(start as int, q as int),
            decreases len - q,
        {
            r.push(self.tokens[q]);
            assert(r@ =~= self.tokens@.subrange(start as int, q as int + 1));
            q = q + 1;
        }
        r
    }

    /// Append one sampled token id to the sequence.
    pub fn accept_token(&mut self, token: i64)
        requires
            old(self).wf(),
            !old(self).spec_done(),
        ensures
            final(self).wf(),
            final(self).tokens@ == old(self).tokens@.push(token),
            final(self).prompt@ == old(self).prompt@,
            final(self).prompt_len == old(self).prompt_len,
            final(self).max_new_tokens == old(self).max_new_tokens,
            final(self).context_size == old(self).context_size,
            !old(self).spec_done() ==> final(self).steps_taken() == old(self).steps_taken() + 1,
    {
        self.tokens.push(token);
        proof {
            assert(self.tokens@.subrange(0, self.prompt@.len() as int) =~= self.prompt@);
        }
    }

    /// Read the sequence so far.
    pub fn tokens(&self) -> (r: &Vec<i64>)
        ensures
            r@ == self.tokens@,
    {
        &self.tokens
    }
}

/// Law of a finished generation: the sequence holds exactly
/// `max_new_tokens` ids more than the prompt, and the prompt stands
/// unchanged at its head.
pub proof fn lemma_complete_generation(g: Generator)
    requires
        g.wf(),
        g.spec_done(),
    ensures
        g.tokens@.len() == g.prompt@.len() + g.max_new_tokens,
        g.tokens@.subrange(0, g.prompt@.len() as int) == g.prompt@,
{
}

} // verus!
