//! Boundary to the external byte-pair tokenizer.
//!
//! The model itself only ever sees integer token ids; turning text into
//! ids and back is the affair of the GPT-2 byte-pair tokenizer of the
//! `tiktoken_rs` crate. Its results are deterministic functions of the
//! text alone, named here so that contracts elsewhere can speak of them
//! exactly without restating the byte-pair merge procedure.

use vstd::prelude::*;

verus! {

/// The token ids the GPT-2 (r50k_base) byte-pair tokenizer assigns to a
/// text, special tokens allowed.
pub uninterp spec fn gpt2_token_ids(text: Seq<char>) -> Seq<u32>;

/// The text the GPT-2 (r50k_base) byte-pair tokenizer decodes a token
/// id sequence to, where decoding succeeds.
pub uninterp spec fn gpt2_decoded_text(ids: Seq<u32>) -> Seq<char>;

/// Relies on `tiktoken_rs::r50k_base_singleton` and
/// `CoreBPE::encode_with_special_tokens`: the GPT-2 tokenizer is built
/// from data embedded in the crate, and encoding is a pure function of
/// the text.
#[verifier::external_body]
pub(crate) fn gpt2_encode(text: &str) -> (r: Vec<u32>)
    ensures
        r@ == gpt2_token_ids(text@),
{
    tiktoken_rs::r50k_base_singleton().encode_with_special_tokens(text)
}

/// Relies on `tiktoken_rs::r50k_base_singleton` and `CoreBPE::decode`:
/// decoding is a pure function of the ids, failing exactly on ids the
/// vocabulary lacks or byte sequences that are not valid text; and
/// byte-pair encoding is lossless, so decoding the exact encoding of a
/// text yields that text back.
#[verifier::external_body]
pub(crate) fn gpt2_decode(ids: &Vec<u32>) -> (r: Option<String>)
    ensures
        r matches Some(t) ==> t@ == gpt2_decoded_text(ids@),
        r matches Some(t) ==> forall|s: Seq<char>|
            ids@ == #[trigger] gpt2_token_ids(s) ==> t@ == s,
        r is None ==> forall|s: Seq<char>| ids@ != #[trigger] gpt2_token_ids(s),
{
    match tiktoken_rs::r50k_base_singleton().decode(ids.as_slice()) {
        Ok(t) => Some(t),
        Err(_) => None,
    }
}

} // verus!
