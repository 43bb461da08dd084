use osgrep_core::dense::encode_dense_inputs;
use osgrep_core::errors::CoreError;
use osgrep_core::log_native;
use tokenizers::Tokenizer;

const TINY_TOKENIZER: &str = r#"{
  "version": "1.0",
  "truncation": null,
  "padding": null,
  "added_tokens": [],
  "normalizer": null,
  "pre_tokenizer": {"type": "WhitespaceSplit"},
  "post_processor": null,
  "decoder": null,
  "model": {
    "type": "WordLevel",
    "vocab": {
      "[UNK]": 0, "[CLS]": 1, "[SEP]": 2, "[MASK]": 3, "[PAD]": 4,
      "hello": 5, "world": 6
    },
    "unk_token": "[UNK]"
  }
}"#;

fn tiny_tokenizer() -> Tokenizer {
    Tokenizer::from_bytes(TINY_TOKENIZER.as_bytes()).unwrap()
}

#[test]
fn dense_empty_input_is_rejected() {
    // Dense encoding of no texts fails with the empty-input error.
    let tok = tiny_tokenizer();
    let r = encode_dense_inputs(&tok, &vec![]);
    assert_eq!(r.err(), Some(CoreError::EmptyInput));
}

#[test]
fn dense_batch_pads_to_longest() {
    let tok = tiny_tokenizer();
    let texts = vec!["hello world".to_string(), "hello".to_string()];
    let batch = encode_dense_inputs(&tok, &texts).unwrap();
    assert_eq!(batch.ids_rows.len(), 2);
    assert_eq!(batch.ids_rows[0], vec![5, 6]);
    assert_eq!(batch.ids_rows[1], vec![5]);
    assert_eq!(batch.max_len, 2);
    assert_eq!(batch.input_ids, vec![5, 6, 5, 0]);
    assert_eq!(batch.attention_mask, vec![1, 1, 1, 0]);
    assert_eq!(batch.token_type_ids, vec![0, 0, 0, 0]);
}

#[test]
fn dense_single_text_shapes() {
    let tok = tiny_tokenizer();
    let texts = vec!["hello world".to_string()];
    let batch = encode_dense_inputs(&tok, &texts).unwrap();
    assert_eq!(batch.ids_rows.len(), 1);
    assert_eq!(batch.input_ids.len(), batch.max_len);
    assert_eq!(batch.attention_mask.len(), batch.max_len);
    assert_eq!(batch.token_type_ids.len(), batch.max_len);
}

#[test]
fn dense_unknown_words_still_encode() {
    let tok = tiny_tokenizer();
    let texts = vec!["frobnicate hello".to_string()];
    let batch = encode_dense_inputs(&tok, &texts).unwrap();
    assert_eq!(batch.ids_rows[0], vec![0, 5]);
}

#[test]
fn logging_hook_is_a_no_op() {
    log_native("a message nobody sees");
}
