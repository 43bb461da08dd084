use osgrep_core::errors::CoreError;
use osgrep_core::framing::resolve_special_ids;
use osgrep_core::framing::SpecialIds;
use osgrep_core::prepare::ids_to_i64;
use osgrep_core::prepare::prepare_docs;
use osgrep_core::prepare::prepare_query;
use osgrep_core::prepare::query_attention_mask;
use osgrep_core::QUERY_MAXLEN;
use tokenizers::Tokenizer;

// A tiny word-level tokenizer: whitespace split, fixed vocabulary with the
// transformer sentinels and both marker tokens.
const TINY_TOKENIZER: &str = r#"{
  "version": "1.0",
  "truncation": null,
  "padding": null,
  "added_tokens": [],
  "normalizer": null,
  "pre_tokenizer": {"type": "WhitespaceSplit"},
  "post_processor": null,
  "decoder": null,
  "model": {
    "type": "WordLevel",
    "vocab": {
      "[UNK]": 0, "[CLS]": 1, "[SEP]": 2, "[MASK]": 3, "[PAD]": 4,
      "hello": 5, "world": 6, "[Q]": 7, "[D]": 8
    },
    "unk_token": "[UNK]"
  }
}"#;

fn tiny_tokenizer() -> Tokenizer {
    Tokenizer::from_bytes(TINY_TOKENIZER.as_bytes()).unwrap()
}

fn ids_without_markers() -> SpecialIds {
    resolve_special_ids(Some(1), Some(2), Some(3), Some(4), None, None)
}

fn ids_with_markers() -> SpecialIds {
    resolve_special_ids(Some(1), Some(2), Some(3), Some(4), Some(7), Some(8))
}

fn masked(mut head: Vec<u32>) -> Vec<u32> {
    while head.len() < QUERY_MAXLEN {
        head.push(3);
    }
    head
}

#[test]
fn query_without_marker_uses_literal_prefix() {
    let tok = tiny_tokenizer();
    let prep = prepare_query(&tok, &ids_without_markers(), "hello world").unwrap();
    assert_eq!(prep.tokenizer_text, "[Q] hello world");
    // "[Q]" is a vocabulary word of the tiny tokenizer, so the prefix
    // surfaces as its id inside the body, not as a marker position.
    assert_eq!(prep.tokens, vec![7, 5, 6]);
    assert_eq!(prep.input_ids, masked(vec![1, 7, 5, 6, 2]));
}

#[test]
fn query_with_marker_id_leaves_text_alone() {
    let tok = tiny_tokenizer();
    let prep = prepare_query(&tok, &ids_with_markers(), "hello world").unwrap();
    assert_eq!(prep.tokenizer_text, "hello world");
    assert_eq!(prep.tokens, vec![5, 6]);
    assert_eq!(prep.input_ids, masked(vec![1, 7, 5, 6, 2]));
}

#[test]
fn query_never_gets_a_second_prefix() {
    let tok = tiny_tokenizer();
    let prep = prepare_query(&tok, &ids_without_markers(), "[Q] hello").unwrap();
    assert_eq!(prep.tokenizer_text, "[Q] hello");
    assert_eq!(prep.input_ids, masked(vec![1, 7, 5, 2]));
}

#[test]
fn query_length_is_fixed() {
    // The framed query is 32 ids whatever the input.
    let tok = tiny_tokenizer();
    for text in ["", "hello", "hello world hello world hello world"] {
        let prep = prepare_query(&tok, &ids_with_markers(), text).unwrap();
        assert_eq!(prep.input_ids.len(), QUERY_MAXLEN);
    }
}

#[test]
fn query_attention_mask_is_all_ones() {
    let mask = query_attention_mask();
    assert_eq!(mask.len(), QUERY_MAXLEN);
    assert!(mask.iter().all(|&m| m == 1));
}

#[test]
fn ids_widen_to_i64() {
    assert_eq!(ids_to_i64(&vec![1, 2, 4000000000]), vec![1i64, 2, 4000000000]);
}

#[test]
fn docs_frame_and_pad_to_longest() {
    let tok = tiny_tokenizer();
    let texts = vec!["hello".to_string(), "hello world".to_string()];
    let batch = prepare_docs(&tok, &ids_without_markers(), &texts).unwrap();
    assert_eq!(batch.tokenizer_texts, vec!["[D] hello", "[D] hello world"]);
    assert_eq!(batch.doc_tokens[0], vec![8, 5]);
    assert_eq!(batch.doc_tokens[1], vec![8, 5, 6]);
    assert_eq!(batch.doc_token_ids.len(), 2);
    assert_eq!(batch.doc_token_ids[0], vec![1, 8, 5, 2]);
    assert_eq!(batch.doc_token_ids[1], vec![1, 8, 5, 6, 2]);
    assert_eq!(batch.max_len, 5);
    assert_eq!(batch.input_ids, vec![1, 8, 5, 2, 0, 1, 8, 5, 6, 2]);
    assert_eq!(batch.attention_mask, vec![1, 1, 1, 1, 0, 1, 1, 1, 1, 1]);
}

#[test]
fn docs_with_marker_id_skip_the_literal_prefix() {
    let tok = tiny_tokenizer();
    let texts = vec!["world".to_string()];
    let batch = prepare_docs(&tok, &ids_with_markers(), &texts).unwrap();
    assert_eq!(batch.tokenizer_texts, vec!["world"]);
    assert_eq!(batch.doc_token_ids[0], vec![1, 8, 6, 2]);
}

#[test]
fn docs_empty_batch_prepares_empty() {
    // An empty input list yields an empty result, never an error.
    let tok = tiny_tokenizer();
    let batch = prepare_docs(&tok, &ids_without_markers(), &vec![]).unwrap();
    assert!(batch.doc_token_ids.is_empty());
    assert!(batch.tokenizer_texts.is_empty());
    assert!(batch.input_ids.is_empty());
    assert!(batch.attention_mask.is_empty());
    assert_eq!(batch.max_len, 0);
}

#[test]
fn docs_no_double_prefix() {
    // A text already opening with the literal marker is handed over
    // unchanged even when the tokenizer has no marker id.
    let tok = tiny_tokenizer();
    let texts = vec!["[D] hello".to_string()];
    let batch = prepare_docs(&tok, &ids_without_markers(), &texts).unwrap();
    assert_eq!(batch.tokenizer_texts, vec!["[D] hello"]);
    assert_eq!(batch.doc_token_ids[0], vec![1, 8, 5, 2]);
}

#[test]
fn docs_unknown_words_map_to_unk() {
    let tok = tiny_tokenizer();
    let texts = vec!["xyzzy".to_string()];
    let batch = prepare_docs(&tok, &ids_without_markers(), &texts).unwrap();
    assert_eq!(batch.doc_token_ids[0], vec![1, 8, 0, 2]);
}

#[test]
fn discovery_finds_the_sentinels_and_markers() {
    let tok = tiny_tokenizer();
    let ids = osgrep_core::prepare::discover_special_ids(&tok);
    assert_eq!(ids.cls_id, 1);
    assert_eq!(ids.sep_id, 2);
    assert_eq!(ids.mask_id, 3);
    assert_eq!(ids.pad_id, 4);
    assert_eq!(ids.query_marker_id, Some(7));
    assert_eq!(ids.doc_marker_id, Some(8));
}

#[test]
fn error_type_is_comparable() {
    assert_ne!(CoreError::EmptyInput, CoreError::TokenizationFailed);
}
