use swictation::corrections::{
    Correction, CorrectionEngine, CorrectionMode, CorrectionsFile, MatchType,
};
use swictation::pipeline::{
    ensure_trailing_space, finish_segment, finish_transcript, payloads_at_stop, payloads_from_call,
    prepare_transcript, word_count, VadResult,
};

fn segment(marker: f32) -> VadResult<Vec<f32>> {
    VadResult::Speech {
        start_sample: 0,
        samples: vec![marker; 2],
    }
}

fn markers(payloads: &[Vec<f32>]) -> Vec<f32> {
    payloads.iter().map(|payload| payload[0]).collect()
}

#[test]
fn every_segment_one_vad_call_completed_is_forwarded_in_order() {
    let forwarded = payloads_from_call(segment(1.0), vec![segment(2.0), segment(3.0)]);

    assert_eq!(
        markers(&forwarded),
        vec![1.0, 2.0, 3.0],
        "the returned segment then the queued ones, oldest first"
    );
}

#[test]
fn a_call_that_completed_nothing_forwards_nothing() {
    assert!(payloads_from_call::<Vec<f32>>(VadResult::Silence, Vec::new()).is_empty());
}

#[test]
fn stop_forwards_queued_segments_before_the_flush() {
    let forwarded = payloads_at_stop(vec![segment(1.0), segment(2.0)], Some(segment(9.0)));

    assert_eq!(
        markers(&forwarded),
        vec![1.0, 2.0, 9.0],
        "queued segments then the flushed tail"
    );
}

#[test]
fn stop_with_nothing_buffered_forwards_nothing() {
    assert!(payloads_at_stop::<Vec<f32>>(Vec::new(), None).is_empty());
}

#[test]
fn silence_between_segments_is_skipped() {
    let forwarded = payloads_from_call(VadResult::Silence, vec![segment(4.0), VadResult::Silence]);
    assert_eq!(markers(&forwarded), vec![4.0]);
}

#[test]
fn text_stages() {
    assert_eq!(prepare_transcript("capital r robert went home", false), "Robert went home");
    assert_eq!(ensure_trailing_space("hello".to_string()), "hello ");
    assert_eq!(ensure_trailing_space("hello\n".to_string()), "hello\n");
    assert_eq!(ensure_trailing_space(String::new()), " ");
    let mut engine = CorrectionEngine::new(300);
    assert_eq!(finish_transcript(&mut engine, "hello world. i am here"), "Hello world. I am here ");
    assert_eq!(word_count("  two   words "), 2);
    assert_eq!(word_count(""), 0);
}

fn phonetic(id: &str, original: &str, corrected: &str) -> Correction {
    Correction::learned(
        id.to_string(),
        original,
        corrected.to_string(),
        CorrectionMode::All,
        MatchType::Phonetic,
        String::new(),
    )
}

#[test]
fn segments_are_finished_with_corrections_when_they_end() {
    let mut file = CorrectionsFile::new();
    file.corrections.push(phonetic("k", "kubernetes", "Kubernetes"));
    let mut engine = CorrectionEngine::new(300);
    engine.reload(file);
    assert_eq!(finish_segment(&mut engine, "deploy kubernetis"), "Deploy kubernetes ");
    assert_eq!(engine.usage_count("k"), 1);
}

#[test]
fn segments_skip_corrections_that_would_never_end() {
    let mut file = CorrectionsFile::new();
    file.corrections.push(phonetic("blank", "   ", "X"));
    let mut engine = CorrectionEngine::new(1000);
    engine.reload(file);
    assert_eq!(finish_segment(&mut engine, "deploy it. now"), "Deploy it. Now ");
    assert!(!engine.has_usage());
    assert_eq!(finish_segment(&mut engine, ""), " ");
}
