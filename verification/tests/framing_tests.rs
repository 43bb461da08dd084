use osgrep_core::framing::assemble_doc_ids;
use osgrep_core::framing::assemble_query_ids;
use osgrep_core::framing::resolve_special_ids;
use osgrep_core::framing::SpecialIds;
use osgrep_core::QUERY_MAXLEN;
use osgrep_core::DOC_MAXLEN;

fn ids_with_markers() -> SpecialIds {
    resolve_special_ids(Some(1), Some(2), Some(3), Some(4), Some(5), Some(6))
}

fn ids_without_markers() -> SpecialIds {
    resolve_special_ids(Some(1), Some(2), Some(3), Some(4), None, None)
}

#[test]
fn resolve_defaults_to_zero() {
    let ids = resolve_special_ids(None, None, None, None, None, None);
    assert_eq!(ids.cls_id, 0);
    assert_eq!(ids.sep_id, 0);
    assert_eq!(ids.mask_id, 0);
    assert_eq!(ids.pad_id, 0);
    assert_eq!(ids.query_marker_id, None);
    assert_eq!(ids.doc_marker_id, None);
}

#[test]
fn resolve_pad_falls_back_to_mask() {
    let ids = resolve_special_ids(Some(1), Some(2), Some(103), None, None, None);
    assert_eq!(ids.pad_id, 103);
    let ids2 = resolve_special_ids(Some(1), Some(2), Some(103), Some(7), None, None);
    assert_eq!(ids2.pad_id, 7);
}

#[test]
fn query_frame_with_marker() {
    let ids = ids_with_markers();
    let frame = assemble_query_ids(&vec![7, 8], &ids);
    assert_eq!(frame.len(), QUERY_MAXLEN);
    let mut expected = vec![1u32, 5, 7, 8, 2];
    while expected.len() < QUERY_MAXLEN {
        expected.push(3);
    }
    assert_eq!(frame, expected);
}

#[test]
fn query_frame_without_marker() {
    let ids = ids_without_markers();
    let frame = assemble_query_ids(&vec![7, 8, 9], &ids);
    assert_eq!(frame.len(), QUERY_MAXLEN);
    assert_eq!(&frame[..5], &[1, 7, 8, 9, 2]);
    for j in 5..QUERY_MAXLEN {
        assert_eq!(frame[j], 3);
    }
}

#[test]
fn query_frame_is_always_query_maxlen() {
    // Query shape: 32 positions whatever the input length.
    let ids = ids_with_markers();
    for n in [0usize, 1, 29, 30, 31, 32, 64, 200] {
        let tokens: Vec<u32> = (0..n as u32).map(|t| 100 + t).collect();
        let frame = assemble_query_ids(&tokens, &ids);
        assert_eq!(frame.len(), QUERY_MAXLEN);
        assert_eq!(frame[0], 1);
    }
}

#[test]
fn query_frame_truncates_and_keeps_sep_last() {
    let ids = ids_with_markers();
    let tokens: Vec<u32> = (0..40u32).map(|t| 100 + t).collect();
    let frame = assemble_query_ids(&tokens, &ids);
    assert_eq!(frame.len(), QUERY_MAXLEN);
    assert_eq!(frame[0], 1);
    assert_eq!(frame[1], 5);
    // 29 subword ids fit beside CLS, the marker and SEP.
    for j in 0..29 {
        assert_eq!(frame[2 + j], 100 + j as u32);
    }
    assert_eq!(frame[31], 2);
}

#[test]
fn doc_frame_with_marker() {
    let ids = ids_with_markers();
    let frame = assemble_doc_ids(&vec![7, 8, 9], &ids);
    assert_eq!(frame, vec![1, 6, 7, 8, 9, 2]);
}

#[test]
fn doc_frame_empty_input_holds_cls_and_sep() {
    // Document length bound, lower end: at least CLS and SEP.
    let ids = ids_without_markers();
    let frame = assemble_doc_ids(&vec![], &ids);
    assert_eq!(frame, vec![1, 2]);
}

#[test]
fn doc_frame_truncates_to_doc_maxlen() {
    // Document length bound, upper end.
    let ids = ids_without_markers();
    let tokens: Vec<u32> = (0..200u32).map(|t| 100 + t).collect();
    let frame = assemble_doc_ids(&tokens, &ids);
    assert_eq!(frame.len(), DOC_MAXLEN);
    assert_eq!(frame[0], 1);
    assert_eq!(frame[DOC_MAXLEN - 1], 2);
    assert_eq!(frame[1], 100);
    assert_eq!(frame[DOC_MAXLEN - 2], 100 + (DOC_MAXLEN - 3) as u32);
}

#[test]
fn doc_frame_length_bounds() {
    let ids = ids_with_markers();
    for n in [0usize, 1, 50, 93, 94, 95, 96, 300] {
        let tokens: Vec<u32> = (0..n as u32).collect();
        let frame = assemble_doc_ids(&tokens, &ids);
        assert!(frame.len() >= 2);
        assert!(frame.len() <= DOC_MAXLEN);
    }
}
