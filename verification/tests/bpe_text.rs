use gpt_core::config::Config;
use gpt_core::dataset::GPTDatasetV1;
use gpt_core::model::Model;

fn small_model() -> Model {
    Model::new(Config::new(50257, 16, 8, 4, 1, 0.0f64.to_bits(), false).unwrap()).unwrap()
}

#[test]
fn text_encodes_to_the_known_gpt2_ids() {
    let model = small_model();
    let ids = model.text_to_tensor("Hello world".to_string());
    assert_eq!(ids, vec![15496, 995]);
}

#[test]
fn empty_text_encodes_to_no_ids() {
    let model = small_model();
    assert_eq!(model.text_to_tensor(String::new()), Vec::<i64>::new());
}

#[test]
fn decoding_the_encoding_recovers_the_text() {
    let model = small_model();
    for text in ["Hello, world!", "Every effort moves you.", "ASCII round trip: 42"] {
        let ids = model.text_to_tensor(text.to_string());
        assert_eq!(model.logits_to_text(&ids), Some(text.to_string()), "text {:?}", text);
    }
}

#[test]
fn ids_outside_the_vocabulary_decode_to_nothing() {
    let model = small_model();
    assert_eq!(model.logits_to_text(&vec![-1]), None);
    assert_eq!(model.logits_to_text(&vec![1 << 40]), None);
    // A valid id decodes.
    assert!(model.logits_to_text(&vec![15496]).is_some());
}

#[test]
fn dataset_windows_follow_the_encoded_text() {
    let model = small_model();
    let text = "one two three four five six seven eight";
    let encoded = model.text_to_tensor(text.to_string());
    let d = GPTDatasetV1::new(text.to_string(), 3, 2).unwrap();
    assert!(d.len() >= 1);
    for w in 0..d.len() {
        let (input, target) = d.get_item(w);
        let start = w * 2;
        assert_eq!(input, encoded[start..start + 3].to_vec());
        assert_eq!(target, encoded[start + 1..start + 4].to_vec());
    }
}

#[test]
fn dataset_of_a_too_short_text_is_rejected() {
    assert!(GPTDatasetV1::new("hi".to_string(), 50, 1).is_none());
    assert!(GPTDatasetV1::new("hi there".to_string(), 2, 0).is_none());
    assert!(GPTDatasetV1::new("hi there".to_string(), 0, 1).is_none());
}
