//! A small word tokenizer and its vocabulary.
//!
//! The grammar is fixed: a text splits at every punctuation mark of a
//! nine-character set, at every whitespace character, and at every
//! two-character dash `--`; the delimiters themselves are dropped, and
//! so are the empty pieces between adjacent delimiters. A vocabulary is
//! a sequence of token strings, the token's id being its position; two
//! reserved tokens close every vocabulary, one marking the end of a
//! text and one standing in for unknown words.

use vstd::prelude::*;
use vstd::string::*;

verus! {

/// The punctuation marks the grammar splits at.
pub open spec fn is_punct_char(c: char) -> bool {
    c == ',' || c == '.' || c == '?' || c == '_' || c == '!' || c == '"' || c == '(' || c == ')'
        || c == '\''
}

/// The whitespace characters the grammar splits at: the Unicode
/// White_Space code points.
pub open spec fn is_space_char(c: char) -> bool {
    ||| 0x9 <= c as u32 <= 0xd
    ||| c as u32 == 0x20
    ||| c as u32 == 0x85
    ||| c as u32 == 0xa0
    ||| c as u32 == 0x1680
    ||| 0x2000 <= c as u32 <= 0x200a
    ||| c as u32 == 0x2028
    ||| c as u32 == 0x2029
    ||| c as u32 == 0x202f
    ||| c as u32 == 0x205f
    ||| c as u32 == 0x3000
}

/// A character that is a delimiter on its own.
pub open spec fn is_single_delim(c: char) -> bool {
    is_punct_char(c) || is_space_char(c)
}

/// The split itself: walk the text with the word collected so far in
/// `cur`, emit `cur` at every delimiter and at the end, and never emit
/// an empty piece. A `--` splits as one two-character delimiter; a
/// lone dash belongs to its word.
pub open spec fn split_rec(s: Seq<char>, cur: Seq<char>) -> Seq<Seq<char>>
    decreases s.len(),
{
    if s.len() == 0 {
        if cur.len() == 0 {
            Seq::empty()
        } else {
            seq![cur]
        }
    } else if is_single_delim(s[0]) {
        if cur.len() == 0 {
            split_rec(s.skip(1), Seq::empty())
        } else {
            seq![cur] + split_rec(s.skip(1), Seq::empty())
        }
    } else if s[0] == '-' && s.len() >= 2 && s[1] == '-' {
        if cur.len() == 0 {
            split_rec(s.skip(2), Seq::empty())
        } else {
            seq![cur] + split_rec(s.skip(2), Seq::empty())
        }
    } else {
        split_rec(s.skip(1), cur.push(s[0]))
    }
}

/// The words of a text under the grammar, in order.
pub open spec fn tokenize_spec(s: Seq<char>) -> Seq<Seq<char>> {
    split_rec(s, Seq::empty())
}

/// Is this character a delimiter on its own?
pub fn single_delim(c: char) -> (r: bool)
    ensures
        r == is_single_delim(c),
{
    let u = c as u32;
    ||| c == ',' || c == '.' || c == '?' || c == '_' || c == '!' || c == '"' || c == '('
        || c == ')' || c == '\''
    ||| (0x9 <= u && u <= 0xd) || u == 0x20 || u == 0x85 || u == 0xa0 || u == 0x1680
    ||| (0x2000 <= u && u <= 0x200a) || u == 0x2028 || u == 0x2029 || u == 0x202f || u == 0x205f
        || u == 0x3000
}

/// Split a text into its words: maximal runs of non-delimiter
/// characters, where delimiters are the fixed punctuation marks, all
/// whitespace, and the two-character dash `--`.
#[verifier::loop_isolation(false)]
pub fn tokenize_text(text: &str) -> (r: Vec<String>)
    ensures
        r@.map_values(|t: String| t@) == tokenize_spec(text@),
{
    let n = text.unicode_len();
    let mut tokens: Vec<String> = Vec::new();
    let mut cur: String = String::new();
    let mut i: usize = 0;
    proof {
        assert(text@.skip(0) =~= text@);
    }
    while i < n
        invariant
            i <= n,
            tokenize_spec(text@) == tokens@.map_values(|t: String| t@) + split_rec(
                text@.skip(i as int),
                cur@,
            ),
        decreases n - i,
    {
        let ghost rest = text@.skip(i as int);
        let ghost curv = cur@;
        let ghost prev = tokens@.map_values(|t: String| t@);
        let c = text.get_char(i);
        proof {
            assert(rest[0] == text@[i as int]);
            assert(rest.skip(1) =~= text@.skip(i as int + 1));
        }
        if single_delim(c) {
            if !cur.as_str().is_empty() {
                tokens.push(cur);
                cur = String::new();
                proof {
                    assert(split_rec(rest, curv) == seq![curv] + split_rec(
                        rest.skip(1),
                        Seq::<char>::empty(),
                    ));
                    assert(tokens@.map_values(|t: String| t@) =~= prev + seq![curv]);
                    assert((prev + seq![curv]) + split_rec(
                        text@.skip(i as int + 1),
                        Seq::<char>::empty(),
                    ) =~= prev + (seq![curv] + split_rec(
                        text@.skip(i as int + 1),
                        Seq::<char>::empty(),
                    )));
                }
            } else {
                proof {
                    assert(curv =~= Seq::<char>::empty());
                    assert(split_rec(rest, curv) == split_rec(
                        rest.skip(1),
                        Seq::<char>::empty(),
                    ));
                }
            }
            i = i + 1;
        } else if c == '-' && i + 1 < n && text.get_char(i + 1) == '-' {
            proof {
                assert(rest[1] == text@[i as int + 1]);
                assert(rest.skip(2) =~= text@.skip(i as int + 2));
            }
            if !cur.as_str().is_empty() {
                tokens.push(cur);
                cur = String::new();
                proof {
                    assert(split_rec(rest, curv) == seq![curv] + split_rec(
                        rest.skip(2),
                        Seq::<char>::empty(),
                    ));
                    assert(tokens@.map_values(|t: String| t@) =~= prev + seq![curv]);
                    assert((prev + seq![curv]) + split_rec(
                        text@.skip(i as int + 2),
                        Seq::<char>::empty(),
                    ) =~= prev + (seq![curv] + split_rec(
                        text@.skip(i as int + 2),
                        Seq::<char>::empty(),
                    )));
                }
            } else {
                proof {
                    assert(curv =~= Seq::<char>::empty());
                    assert(split_rec(rest, curv) == split_rec(
                        rest.skip(2),
                        Seq::<char>::empty(),
                    ));
                }
            }
            i = i + 2;
        } else {
            let piece = text.substring_char(i, i + 1);
            proof {
                assert(piece@ =~= seq![text@[i as int]]);
            }
            cur.append(piece);
            proof {
                if rest.len() >= 2 {
                    assert(rest[1] == text@[i as int + 1]);
                }
                assert(cur@ =~= curv.push(rest[0]));
                assert(split_rec(rest, curv) == split_rec(rest.skip(1), curv.push(rest[0])));
            }
            i = i + 1;
        }
    }
    proof {
        assert(text@.skip(n as int) =~= Seq::<char>::empty());
    }
    let ghost curv = cur@;
    let ghost prev = tokens@.map_values(|t: String| t@);
    if !cur.as_str().is_empty() {
        tokens.push(cur);
        proof {
            assert(split_rec(Seq::<char>::empty(), curv) == seq![curv]);
            assert(tokens@.map_values(|t: String| t@) =~= prev + seq![curv]);
        }
    } else {
        proof {
            assert(curv =~= Seq::<char>::empty());
            assert(split_rec(Seq::<char>::empty(), curv) =~= Seq::<Seq<char>>::empty());
            assert(prev + Seq::<Seq<char>>::empty() =~= prev);
        }
    }
    tokens
}

/// Lexicographic order on texts by code point: the empty text first,
/// then by the first differing code point.
pub open spec fn lex_le(a: Seq<char>, b: Seq<char>) -> bool
    decreases a.len(),
{
    if a.len() == 0 {
        true
    } else if b.len() == 0 {
        false
    } else if a[0] as u32 == b[0] as u32 {
        lex_le(a.skip(1), b.skip(1))
    } else {
        (a[0] as u32) < (b[0] as u32)
    }
}

/// Any two texts are ordered one way or the other.
pub proof fn lemma_lex_le_total(a: Seq<char>, b: Seq<char>)
    ensures
        lex_le(a, b) || lex_le(b, a),
    decreases a.len(),
{
    if a.len() > 0 && b.len() > 0 && a[0] as u32 == b[0] as u32 {
        lemma_lex_le_total(a.skip(1), b.skip(1));
    }
}

/// The order is transitive.
pub proof fn lemma_lex_le_trans(a: Seq<char>, b: Seq<char>, c: Seq<char>)
    requires
        lex_le(a, b),
        lex_le(b, c),
    ensures
        lex_le(a, c),
    decreases a.len(),
{
    if a.len() > 0 && b.len() > 0 && c.len() > 0 && a[0] as u32 == b[0] as u32 && b[0] as u32
        == c[0] as u32 {
        lemma_lex_le_trans(a.skip(1), b.skip(1), c.skip(1));
    }
}

/// Does `a` come at or before `b` in lexicographic order?
pub fn str_lex_le(a: &str, b: &str) -> (r: bool)
    ensures
        r == lex_le(a@, b@),
{
    let la = a.unicode_len();
    let lb = b.unicode_len();
    let mut i: usize = 0;
    proof {
        assert(a@.skip(0) =~= a@);
        assert(b@.skip(0) =~= b@);
    }
    while i < la && i < lb
        invariant
            i <= la,
            i <= lb,
            la == a@.len(),
            lb == b@.len(),
            lex_le(a@, b@) == lex_le(a@.skip(i as int), b@.skip(i as int)),
        decreases la - i,
    {
        let ca = a.get_char(i);
        let cb = b.get_char(i);
        proof {
            assert(a@.skip(i as int)[0] == a@[i as int]);
            assert(b@.skip(i as int)[0] == b@[i as int]);
            assert(a@.skip(i as int).skip(1) =~= a@.skip(i as int + 1));
            assert(b@.skip(i as int).skip(1) =~= b@.skip(i as int + 1));
        }
        if (ca as u32) != (cb as u32) {
            return (ca as u32) < (cb as u32);
        }
        i = i + 1;
    }
    proof {
        if i == la {
            assert(a@.skip(i as int) =~= Seq::<char>::empty());
        } else {
            assert(b@.skip(i as int) =~= Seq::<char>::empty());
            assert(a@.skip(i as int).len() > 0);
        }
    }
    i == la
}

/// Is this sequence of texts in lexicographic order?
pub open spec fn tokens_sorted(s: Seq<Seq<char>>) -> bool {
    forall|p: int, q: int| 0 <= p < q < s.len() ==> lex_le(#[trigger] s[p], #[trigger] s[q])
}

/// Position where `x` belongs in the sorted `out`: after everything at
/// or before it, before the first entry above it.
fn insert_pos(out: &Vec<String>, x: &String) -> (p: usize)
    ensures
        p <= out@.len(),
        forall|q: int| 0 <= q < p ==> lex_le((#[trigger] out@[q])@, x@),
        p < out@.len() ==> !lex_le(out@[p as int]@, x@),
{
    let mut p: usize = 0;
    while p < out.len()
        invariant
            p <= out@.len(),
            forall|q: int| 0 <= q < p ==> lex_le((#[trigger] out@[q])@, x@),
        decreases out@.len() - p,
    {
        if !str_lex_le(out[p].as_str(), x.as_str()) {
            return p;
        }
        p = p + 1;
    }
    p
}

/// Sort the tokens in lexicographic order. The collection of tokens is
/// unchanged; only their order moves.
#[verifier::loop_isolation(false)]
pub fn sort_tokens(tokens: &mut Vec<String>)
    ensures
        tokens_sorted(final(tokens)@.map_values(|t: String| t@)),
        final(tokens)@.map_values(|t: String| t@).to_multiset() == old(tokens)@.map_values(
            |t: String| t@,
        ).to_multiset(),
{
    broadcast use vstd::seq_lib::group_to_multiset_ensures;

    let ghost all = tokens@.map_values(|t: String| t@);
    let mut out: Vec<String> = Vec::new();
    let mut k: usize = 0;
    proof {
        assert(out@.map_values(|t: String| t@) =~= all.subrange(0, 0));
    }
    while k < tokens.len()
        invariant
            k <= tokens@.len(),
            all == tokens@.map_values(|t: String| t@),
            tokens_sorted(out@.map_values(|t: String| t@)),
            out@.map_values(|t: String| t@).to_multiset() == all.subrange(
                0,
                k as int,
            ).to_multiset(),
        decreases tokens@.len() - k,
    {
        let x = tokens[k].clone();
        let p = insert_pos(&out, &x);
        let ghost old_map = out@.map_values(|t: String| t@);
        proof {
            if p < out@.len() {
                lemma_lex_le_total(out@[p as int]@, x@);
            }
        }
        out.insert(p, x);
        proof {
            let new_map = out@.map_values(|t: String| t@);
            assert(new_map =~= old_map.insert(p as int, x@));
            assert forall|i1: int, j1: int| 0 <= i1 < j1 < new_map.len() implies lex_le(
                #[trigger] new_map[i1],
                #[trigger] new_map[j1],
            ) by {
                if i1 < p && j1 < p {
                } else if i1 < p && j1 == p {
                } else if i1 < p && j1 > p {
                    assert(new_map[j1] == old_map[j1 - 1]);
                } else if i1 == p && j1 > p {
                    assert(new_map[j1] == old_map[j1 - 1]);
                    if p < old_map.len() {
                        if p < j1 - 1 {
                            lemma_lex_le_trans(x@, old_map[p as int], old_map[j1 - 1]);
                        }
                    }
                } else if i1 > p {
                    assert(new_map[i1] == old_map[i1 - 1]);
                    assert(new_map[j1] == old_map[j1 - 1]);
                }
            }
            assert(old_map.insert(p as int, x@).to_multiset() == old_map.to_multiset().insert(
                x@,
            ));
            assert(all.subrange(0, k as int + 1) =~= all.subrange(0, k as int).push(all[k as int]));
            assert(x@ == all[k as int]);
        }
        k = k + 1;
    }
    proof {
        assert(all.subrange(0, all.len() as int) =~= all);
    }
    *tokens = out;
}

/// The texts of a vocabulary, token id to token text.
pub open spec fn vocab_view(v: Seq<String>) -> Seq<Seq<char>> {
    v.map_values(|s: String| s@)
}

/// Build a vocabulary from a token list: each token's id is its
/// position, and the two reserved tokens — end-of-text and unknown —
/// take the last two ids.
pub fn create_vocabulary(tokens: &Vec<String>) -> (r: Vec<String>)
    ensures
        r@.len() == tokens@.len() + 2,
        forall|p: int| 0 <= p < tokens@.len() ==> (#[trigger] r@[p])@ == tokens@[p]@,
        r@[tokens@.len() as int]@ == "<|endoftext|>"@,
        r@[tokens@.len() as int + 1]@ == "<|unk|>"@,
{
    let mut r: Vec<String> = Vec::new();
    let mut p: usize = 0;
    while p < tokens.len()
        invariant
            p <= tokens@.len(),
            r@.len() == p,
            forall|q: int| 0 <= q < p ==> (#[trigger] r@[q])@ == tokens@[q]@,
        decreases tokens@.len() - p,
    {
        r.push(tokens[p].clone());
        p = p + 1;
    }
    r.push(String::from_str("<|endoftext|>"));
    r.push(String::from_str("<|unk|>"));
    r
}

/// Smallest token id at or after `p` whose text is `t`.
pub open spec fn find_from(vocab: Seq<Seq<char>>, t: Seq<char>, p: int) -> Option<int>
    decreases vocab.len() - p,
{
    if p < 0 || p >= vocab.len() {
        None
    } else if vocab[p] == t {
        Some(p)
    } else {
        find_from(vocab, t, p + 1)
    }
}

/// Smallest token id whose text is `t`.
pub open spec fn find_token(vocab: Seq<Seq<char>>, t: Seq<char>) -> Option<int> {
    find_from(vocab, t, 0)
}

/// The id a word encodes to: its own id where the vocabulary holds the
/// word, else the id of the unknown-word token, else nothing.
pub open spec fn encode_token(vocab: Seq<Seq<char>>, t: Seq<char>) -> Option<int> {
    match find_token(vocab, t) {
        Some(i) => Some(i),
        None => find_token(vocab, "<|unk|>"@),
    }
}

/// The ids of the words from position `p` on; words that encode to
/// nothing are dropped.
pub open spec fn encode_from(vocab: Seq<Seq<char>>, toks: Seq<Seq<char>>, p: int) -> Seq<int>
    decreases toks.len() - p,
{
    if p < 0 || p >= toks.len() {
        Seq::empty()
    } else {
        match encode_token(vocab, toks[p]) {
            Some(i) => seq![i] + encode_from(vocab, toks, p + 1),
            None => encode_from(vocab, toks, p + 1),
        }
    }
}

/// The texts of the valid ids from position `p` on; ids beyond the
/// vocabulary are dropped.
pub open spec fn valid_tokens(vocab: Seq<Seq<char>>, ids: Seq<usize>, p: int) -> Seq<Seq<char>>
    decreases ids.len() - p,
{
    if p < 0 || p >= ids.len() {
        Seq::empty()
    } else if ids[p] < vocab.len() {
        seq![vocab[ids[p] as int]] + valid_tokens(vocab, ids, p + 1)
    } else {
        valid_tokens(vocab, ids, p + 1)
    }
}

/// Texts joined by single spaces.
pub open spec fn join_spaces(toks: Seq<Seq<char>>) -> Seq<char>
    decreases toks.len(),
{
    if toks.len() == 0 {
        Seq::empty()
    } else if toks.len() == 1 {
        toks[0]
    } else {
        toks[0] + seq![' '] + join_spaces(toks.skip(1))
    }
}

/// Joining one more text appends a space and the text, except to an
/// empty join.
pub proof fn lemma_join_push(toks: Seq<Seq<char>>, t: Seq<char>)
    ensures
        toks.len() == 0 ==> join_spaces(toks.push(t)) == t,
        toks.len() > 0 ==> join_spaces(toks.push(t)) == join_spaces(toks) + seq![' '] + t,
    decreases toks.len(),
{
    if toks.len() == 0 {
        assert(toks.push(t).len() == 1);
        assert(join_spaces(toks.push(t)) == toks.push(t)[0]);
    } else if toks.len() == 1 {
        assert(toks.push(t).skip(1) =~= Seq::<Seq<char>>::empty().push(t));
        lemma_join_push(Seq::<Seq<char>>::empty(), t);
        assert(join_spaces(toks.push(t)) == toks[0] + seq![' '] + t);
        assert(join_spaces(toks) == toks[0]);
    } else {
        assert(toks.push(t).skip(1) =~= toks.skip(1).push(t));
        lemma_join_push(toks.skip(1), t);
        assert(join_spaces(toks.push(t)) == toks[0] + seq![' '] + (join_spaces(toks.skip(1))
            + seq![' '] + t));
        assert(toks[0] + seq![' '] + (join_spaces(toks.skip(1)) + seq![' '] + t) =~= (toks[0]
            + seq![' '] + join_spaces(toks.skip(1))) + seq![' '] + t);
    }
}

/// A found id really carries the searched text.
proof fn lemma_find_from_found(vocab: Seq<Seq<char>>, t: Seq<char>, p: int, i: int)
    requires
        find_from(vocab, t, p) == Some(i),
    ensures
        0 <= i < vocab.len(),
        vocab[i] == t,
    decreases vocab.len() - p,
{
    if 0 <= p < vocab.len() && vocab[p] != t {
        lemma_find_from_found(vocab, t, p + 1, i);
    }
}

/// When every word from position `p` on is found in the vocabulary,
/// the ids that encoding emits decode back to exactly those words.
proof fn lemma_round_trip_from(
    vocab: Seq<Seq<char>>,
    toks: Seq<Seq<char>>,
    ids: Seq<usize>,
    p: int,
    q: int,
)
    requires
        0 <= p <= toks.len(),
        0 <= q <= ids.len(),
        forall|w: int| p <= w < toks.len() ==> find_token(vocab, #[trigger] toks[w]) is Some,
        ids.skip(q).map_values(|u: usize| u as int) == encode_from(vocab, toks, p),
    ensures
        valid_tokens(vocab, ids, q) == toks.subrange(p, toks.len() as int),
    decreases toks.len() - p,
{
    if p == toks.len() {
        assert(ids.skip(q).map_values(|u: usize| u as int).len() == 0);
        assert(q == ids.len());
        assert(valid_tokens(vocab, ids, q) =~= toks.subrange(p, toks.len() as int));
    } else {
        let i = find_token(vocab, toks[p]).unwrap();
        assert(encode_token(vocab, toks[p]) == Some(i));
        lemma_find_from_found(vocab, toks[p], 0, i);
        assert(encode_from(vocab, toks, p) == seq![i] + encode_from(vocab, toks, p + 1));
        assert(ids.skip(q).len() >= 1);
        assert(q < ids.len());
        assert(ids.skip(q)[0] == ids[q]);
        assert(ids.skip(q).map_values(|u: usize| u as int)[0] == ids[q] as int);
        assert(ids[q] as int == i);
        assert(ids[q] < vocab.len());
        assert(vocab[ids[q] as int] == toks[p]);
        assert(ids.skip(q + 1) =~= ids.skip(q).skip(1));
        let enc1 = encode_from(vocab, toks, p + 1);
        assert forall|m: int| 0 <= m < enc1.len() implies ids.skip(q + 1).map_values(
            |u: usize| u as int,
        )[m] == enc1[m] by {
            assert(ids.skip(q + 1)[m] == ids[q + 1 + m]);
            assert(ids.skip(q)[m + 1] == ids[q + 1 + m]);
            assert(ids.skip(q).map_values(|u: usize| u as int)[m + 1] == ids.skip(q)[m + 1] as int);
            assert((seq![i] + enc1)[m + 1] == enc1[m]);
        }
        assert(ids.skip(q + 1).map_values(|u: usize| u as int) =~= enc1);
        lemma_round_trip_from(vocab, toks, ids, p + 1, q + 1);
        assert(valid_tokens(vocab, ids, q) == seq![vocab[ids[q] as int]] + valid_tokens(
            vocab,
            ids,
            q + 1,
        ));
        assert(seq![toks[p]] + toks.subrange(p + 1, toks.len() as int) =~= toks.subrange(
            p,
            toks.len() as int,
        ));
    }
}

/// Law of the round trip: when the vocabulary holds every word of a
/// text, decoding the ids that encoding the text produced yields the
/// text's words joined by single spaces — the text comes back with its
/// delimiters normalized, no word lost and none replaced.
pub proof fn lemma_word_round_trip(vocab: Seq<Seq<char>>, text: Seq<char>, ids: Seq<usize>)
    requires
        forall|w: int|
            0 <= w < tokenize_spec(text).len() ==> find_token(
                vocab,
                #[trigger] tokenize_spec(text)[w],
            ) is Some,
        ids.map_values(|u: usize| u as int) == encode_from(vocab, tokenize_spec(text), 0),
    ensures
        join_spaces(valid_tokens(vocab, ids, 0)) == join_spaces(tokenize_spec(text)),
{
    assert(ids.skip(0) =~= ids);
    lemma_round_trip_from(vocab, tokenize_spec(text), ids, 0, 0);
    assert(tokenize_spec(text).subrange(0, tokenize_spec(text).len() as int) =~= tokenize_spec(
        text,
    ));
}

/// A word tokenizer bound to one vocabulary.
pub struct Tokenizer {
    /// The vocabulary, token id to token text.
    pub vocab: Vec<String>,
}

impl Tokenizer {
    /// Bind a tokenizer to a vocabulary.
    pub fn new(vocab: Vec<String>) -> (r: Tokenizer)
        ensures
            r.vocab@ == vocab@,
    {
        Tokenizer { vocab }
    }

    /// Smallest token id whose text equals `t`, if any.
    fn find(&self, t: &String) -> (r: Option<usize>)
        ensures
            match r {
                Some(i) => find_token(vocab_view(self.vocab@), t@) == Some(i as int),
                None => find_token(vocab_view(self.vocab@), t@) is None,
            },
    {
        let ghost vv = vocab_view(self.vocab@);
        let mut p: usize = 0;
        while p < self.vocab.len()
            invariant
                p <= self.vocab@.len(),
                vv == vocab_view(self.vocab@),
                vv.len() == self.vocab@.len(),
                find_from(vv, t@, 0) == find_from(vv, t@, p as int),
            decreases self.vocab@.len() - p,
        {
            if self.vocab[p].eq(t) {
                proof {
                    assert(vv[p as int] == t@);
                }
                return Some(p);
            }
            proof {
                assert(vv[p as int] != t@);
            }
            p = p + 1;
        }
        None
    }

    /// Encode a text: split it into words and map each word to its
    /// token id, unknown words to the unknown token's id, and — in a
    /// vocabulary without the unknown token — drop them.
    #[verifier::loop_isolation(false)]
    pub fn encode(&self, text: &str) -> (r: Vec<usize>)
        ensures
            r@.map_values(|u: usize| u as int) == encode_from(
                vocab_view(self.vocab@),
                tokenize_spec(text@),
                0,
            ),
    {
        let ghost vv = vocab_view(self.vocab@);
        let ghost tt = tokenize_spec(text@);
        let toks = tokenize_text(text);
        proof {
            assert(toks@.map_values(|t: String| t@) == tt);
        }
        let unk = String::from_str("<|unk|>");
        let mut r: Vec<usize> = Vec::new();
        let mut p: usize = 0;
        while p < toks.len()
            invariant
                p <= toks@.len(),
                encode_from(vv, tt, 0) == r@.map_values(|u: usize| u as int) + encode_from(
                    vv,
                    tt,
                    p as int,
                ),
            decreases toks@.len() - p,
        {
            let ghost prev = r@.map_values(|u: usize| u as int);
            proof {
                assert(tt[p as int] == toks@[p as int]@);
            }
            match self.find(&toks[p]) {
                Some(i) => {
                    r.push(i);
                    proof {
                        assert(r@.map_values(|u: usize| u as int) =~= prev + seq![i as int]);
                        assert((prev + seq![i as int]) + encode_from(vv, tt, p as int + 1)
                            =~= prev + (seq![i as int] + encode_from(vv, tt, p as int + 1)));
                    }
                },
                None => {
                    match self.find(&unk) {
                        Some(u) => {
                            r.push(u);
                            proof {
                                assert(r@.map_values(|u2: usize| u2 as int) =~= prev + seq![
                                    u as int,
                                ]);
                                assert((prev + seq![u as int]) + encode_from(
                                    vv,
                                    tt,
                                    p as int + 1,
                                ) =~= prev + (seq![u as int] + encode_from(
                                    vv,
                                    tt,
                                    p as int + 1,
                                )));
                            }
                        },
                        None => {
                        },
                    }
                },
            }
            p = p + 1;
        }
        proof {
            assert(r@.map_values(|u: usize| u as int) + Seq::<int>::empty() =~= r@.map_values(
                |u: usize| u as int,
            ));
        }
        r
    }

    /// Decode token ids back to text: the valid ids' tokens, joined by
    /// single spaces; ids the vocabulary lacks are dropped.
    #[verifier::loop_isolation(false)]
    pub fn decode(&self, indices: &Vec<usize>) -> (r: String)
        ensures
            r@ == join_spaces(valid_tokens(vocab_view(self.vocab@), indices@, 0)),
    {
        let ghost vv = vocab_view(self.vocab@);
        let ghost ids = indices@;
        let mut out = String::new();
        let mut first = true;
        let ghost mut emitted: Seq<Seq<char>> = Seq::empty();
        let mut p: usize = 0;
        proof {
            reveal_strlit(" ");
        }
        while p < indices.len()
            invariant
                p <= ids.len(),
                ids == indices@,
                valid_tokens(vv, ids, 0) == emitted + valid_tokens(vv, ids, p as int),
                out@ == join_spaces(emitted),
                first == (emitted.len() == 0),
            decreases ids.len() - p,
        {
            let idx = indices[p];
            if idx < self.vocab.len() {
                let ghost tok = vv[idx as int];
                if !first {
                    out.append(" ");
                    proof {
                        assert(" "@ =~= seq![' ']);
                    }
                }
                out.append(self.vocab[idx].as_str());
                first = false;
                proof {
                    assert(self.vocab@[idx as int]@ == tok);
                    lemma_join_push(emitted, tok);
                    assert(valid_tokens(vv, ids, p as int) == seq![tok] + valid_tokens(
                        vv,
                        ids,
                        p as int + 1,
                    ));
                    assert(emitted + (seq![tok] + valid_tokens(vv, ids, p as int + 1))
                        =~= emitted.push(tok) + valid_tokens(vv, ids, p as int + 1));
                    emitted = emitted.push(tok);
                }
            } else {
                proof {
                    assert(valid_tokens(vv, ids, p as int) == valid_tokens(vv, ids, p as int + 1));
                }
            }
            p = p + 1;
        }
        proof {
            assert(valid_tokens(vv, ids, ids.len() as int) =~= Seq::<Seq<char>>::empty());
            assert(emitted + Seq::<Seq<char>>::empty() =~= emitted);
        }
        out
    }
}

} // verus!
