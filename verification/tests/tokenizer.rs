use gpt_core::tokenizer::create_vocabulary;
use gpt_core::tokenizer::sort_tokens;
use gpt_core::tokenizer::tokenize_text;
use gpt_core::tokenizer::Tokenizer;

fn strings(words: &[&str]) -> Vec<String> {
    words.iter().map(|w| w.to_string()).collect()
}

#[test]
fn tokenize_words_and_punctuation() {
    let toks = tokenize_text("Hello, world. Is this-- a test?");
    assert_eq!(toks, strings(&["Hello", "world", "Is", "this", "a", "test"]));
}

#[test]
fn tokenize_empty_text() {
    assert_eq!(tokenize_text(""), Vec::<String>::new());
}

#[test]
fn tokenize_only_delimiters() {
    assert_eq!(tokenize_text(",.? \t\n"), Vec::<String>::new());
}

#[test]
fn tokenize_double_dash_splits_single_dash_stays() {
    assert_eq!(tokenize_text("a--b"), strings(&["a", "b"]));
    assert_eq!(tokenize_text("a-b"), strings(&["a-b"]));
    assert_eq!(tokenize_text("---"), strings(&["-"]));
}

#[test]
fn tokenize_whitespace_runs() {
    assert_eq!(tokenize_text("a  \t b\n\nc"), strings(&["a", "b", "c"]));
}

#[test]
fn tokenize_matches_reference_regex() {
    let re = regex::Regex::new(r#"([,.?_!"()']|--|\s)"#).unwrap();
    let cases = [
        "Hello, world. Is this-- a test?",
        "",
        "---",
        "a-b--c---d",
        "It's a \"quoted\" (word)!",
        "tabs\tand\nnewlines\r\nmixed",
        "no_delims_here-except_underscore",
        "unicode\u{a0}space and caf\u{e9}.",
        "trailing delimiter,",
        ",leading",
    ];
    for text in cases {
        let expected: Vec<String> = re
            .split(text)
            .filter(|t| !t.is_empty())
            .map(|t| t.to_string())
            .collect();
        assert_eq!(tokenize_text(text), expected, "case: {:?}", text);
    }
}

#[test]
fn sort_tokens_orders_and_keeps_duplicates() {
    let mut toks = strings(&["pear", "apple", "banana", "apple"]);
    sort_tokens(&mut toks);
    assert_eq!(toks, strings(&["apple", "apple", "banana", "pear"]));
}

#[test]
fn sort_tokens_empty_and_single() {
    let mut empty: Vec<String> = Vec::new();
    sort_tokens(&mut empty);
    assert_eq!(empty, Vec::<String>::new());
    let mut one = strings(&["only"]);
    sort_tokens(&mut one);
    assert_eq!(one, strings(&["only"]));
}

#[test]
fn vocabulary_appends_reserved_tokens() {
    let vocab = create_vocabulary(&strings(&["a", "b"]));
    assert_eq!(vocab, strings(&["a", "b", "<|endoftext|>", "<|unk|>"]));
}

#[test]
fn vocabulary_of_empty_token_list() {
    let vocab = create_vocabulary(&Vec::new());
    assert_eq!(vocab, strings(&["<|endoftext|>", "<|unk|>"]));
}

#[test]
fn encode_known_and_unknown_words() {
    let tok = Tokenizer::new(create_vocabulary(&strings(&["a", "b"])));
    // "c" is unknown and maps to the unknown token's id.
    assert_eq!(tok.encode("a b c"), vec![0, 1, 3]);
}

#[test]
fn encode_without_unknown_token_drops_unknown_words() {
    let tok = Tokenizer::new(strings(&["a"]));
    assert_eq!(tok.encode("a b"), vec![0]);
}

#[test]
fn encode_empty_text() {
    let tok = Tokenizer::new(create_vocabulary(&strings(&["a"])));
    assert_eq!(tok.encode(""), Vec::<usize>::new());
}

#[test]
fn decode_joins_with_spaces_and_drops_invalid_ids() {
    let tok = Tokenizer::new(create_vocabulary(&strings(&["a", "b"])));
    assert_eq!(tok.decode(&vec![0, 1, 9]), "a b".to_string());
    assert_eq!(tok.decode(&vec![]), String::new());
    assert_eq!(tok.decode(&vec![1]), "b".to_string());
}

#[test]
fn encode_decode_round_trip_on_spaced_words() {
    let tok = Tokenizer::new(create_vocabulary(&strings(&["sun", "moon"])));
    let ids = tok.encode("moon sun");
    assert_eq!(tok.decode(&ids), "moon sun".to_string());
}
