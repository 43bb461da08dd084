use osgrep_core::pack::doc_embedding_slice;
use osgrep_core::pack::doc_token_slice;
use osgrep_core::pack::pack_quantized_docs;
use osgrep_core::pack::token_start;
use osgrep_core::pack::validate_packed;
use osgrep_core::pack::ColbertPackedResult;
use osgrep_core::pack::QuantizedDocEmbedding;

fn two_docs() -> Vec<QuantizedDocEmbedding> {
    vec![
        QuantizedDocEmbedding { values: vec![1, 2, 3, 4], token_ids: vec![10, 11] },
        QuantizedDocEmbedding { values: vec![5, 6], token_ids: vec![12] },
    ]
}

#[test]
fn pack_two_docs_layout() {
    let packed = pack_quantized_docs(&two_docs(), 2);
    assert_eq!(packed.embeddings, vec![1, 2, 3, 4, 5, 6]);
    assert_eq!(packed.token_ids, vec![10, 11, 12]);
    assert_eq!(packed.lengths, vec![2, 1]);
    assert_eq!(packed.offsets, vec![0, 4]);
}

#[test]
fn pack_empty_batch() {
    let packed = pack_quantized_docs(&vec![], 48);
    assert!(packed.embeddings.is_empty());
    assert!(packed.token_ids.is_empty());
    assert!(packed.lengths.is_empty());
    assert!(packed.offsets.is_empty());
    assert!(validate_packed(&packed, 48));
}

#[test]
fn packed_invariants_hold() {
    // offsets[0] = 0, offsets non-decreasing, every document inside the
    // buffer, lengths summing to the token count.
    let packed = pack_quantized_docs(&two_docs(), 2);
    assert_eq!(packed.offsets[0], 0);
    for i in 1..packed.offsets.len() {
        assert!(packed.offsets[i - 1] <= packed.offsets[i]);
    }
    for i in 0..packed.lengths.len() {
        assert!(
            packed.offsets[i] as usize + packed.lengths[i] as usize * 2
                <= packed.embeddings.len()
        );
    }
    let total: u32 = packed.lengths.iter().sum();
    assert_eq!(total as usize, packed.token_ids.len());
    assert!(validate_packed(&packed, 2));
}

#[test]
fn pack_roundtrip_recovers_each_doc() {
    let docs = two_docs();
    let packed = pack_quantized_docs(&docs, 2);
    assert_eq!(doc_embedding_slice(&packed, 0, 2), vec![1, 2, 3, 4]);
    assert_eq!(doc_embedding_slice(&packed, 1, 2), vec![5, 6]);
    assert_eq!(doc_token_slice(&packed, 0), vec![10, 11]);
    assert_eq!(doc_token_slice(&packed, 1), vec![12]);
}

#[test]
fn token_start_is_prefix_sum() {
    let packed = pack_quantized_docs(&two_docs(), 2);
    assert_eq!(token_start(&packed, 0), 0);
    assert_eq!(token_start(&packed, 1), 2);
    assert_eq!(token_start(&packed, 2), 3);
}

#[test]
fn validate_rejects_wrong_offsets() {
    let p = ColbertPackedResult {
        embeddings: vec![1, 2, 3, 4],
        token_ids: vec![10, 11],
        lengths: vec![1, 1],
        offsets: vec![0, 3],
    };
    assert!(!validate_packed(&p, 2));
    let good = ColbertPackedResult {
        embeddings: vec![1, 2, 3, 4],
        token_ids: vec![10, 11],
        lengths: vec![1, 1],
        offsets: vec![0, 2],
    };
    assert!(validate_packed(&good, 2));
}

#[test]
fn validate_rejects_token_count_mismatch() {
    let p = ColbertPackedResult {
        embeddings: vec![1, 2],
        token_ids: vec![10, 11],
        lengths: vec![1],
        offsets: vec![0],
    };
    assert!(!validate_packed(&p, 2));
}

#[test]
fn validate_rejects_short_embeddings() {
    let p = ColbertPackedResult {
        embeddings: vec![1, 2, 3],
        token_ids: vec![10, 11],
        lengths: vec![1, 1],
        offsets: vec![0, 2],
    };
    assert!(!validate_packed(&p, 2));
}

#[test]
fn validate_rejects_length_offset_disagreement() {
    let p = ColbertPackedResult {
        embeddings: vec![1, 2, 3, 4],
        token_ids: vec![10],
        lengths: vec![1, 1],
        offsets: vec![0],
    };
    assert!(!validate_packed(&p, 2));
}
