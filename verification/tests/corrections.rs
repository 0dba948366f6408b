use swictation::corrections::{CaseMode, CorrectionEngine};

#[test]
fn test_edit_distance() {
    let d = CorrectionEngine::normalized_edit_distance("kitten", "sitting");
    assert_eq!(d.edits as f64 / d.scale as f64, 3.0 / 7.0);
    let d = CorrectionEngine::normalized_edit_distance("hello", "hello");
    assert_eq!(d.edits as f64 / d.scale as f64, 0.0);
    let d = CorrectionEngine::normalized_edit_distance("", "");
    assert_eq!(d.edits as f64 / d.scale as f64, 0.0);
    let d = CorrectionEngine::normalized_edit_distance("abc", "");
    assert_eq!(d.edits as f64 / d.scale as f64, 1.0);
}

#[test]
fn test_preserve_case() {
    assert_eq!(
        CorrectionEngine::preserve_case("Hello", "world", CaseMode::PreserveInput),
        "World"
    );
    assert_eq!(
        CorrectionEngine::preserve_case("HELLO", "world", CaseMode::PreserveInput),
        "WORLD"
    );
    assert_eq!(
        CorrectionEngine::preserve_case("hello", "World", CaseMode::PreserveInput),
        "world"
    );
}

#[test]
fn test_phonetic_threshold() {
    // "arkon" vs "archon": 2 edits over 6 characters = 0.333
    let d = CorrectionEngine::normalized_edit_distance("arkon", "archon");
    let dist = d.edits as f64 / d.scale as f64;
    assert!(dist > 0.3, "Expected >0.3, got {}", dist);
    assert!(dist < 0.4, "Expected <0.4, got {}", dist);
}

use swictation::corrections::{
    Correction, CorrectionError, CorrectionMode, CorrectionsFile, MatchType,
};

fn learned(id: &str, original: &str, corrected: &str, mode: CorrectionMode) -> Correction {
    Correction::learned(
        id.to_string(),
        original,
        corrected.to_string(),
        mode,
        MatchType::Exact,
        "2025-01-01T00:00:00+00:00".to_string(),
    )
}

#[test]
fn learning_replaces_the_same_pattern() {
    let mut file = CorrectionsFile::new();
    file.learn(learned("1", "Arkon", "archon", CorrectionMode::All));
    file.learn(learned("2", "teh", "the", CorrectionMode::All));
    file.learn(learned("3", "ARKON", "Archon", CorrectionMode::All));
    file.learn(learned("4", "arkon", "arcon", CorrectionMode::Code));
    let ids: Vec<&str> = file.corrections.iter().map(|c| c.id.as_str()).collect();
    assert_eq!(ids, ["2", "3", "4"]);
    assert_eq!(file.corrections[1].original, "arkon");
    assert_eq!(file.corrections[1].use_count, 0);
}

#[test]
fn learned_corrections_can_be_deleted_and_updated() {
    let mut file = CorrectionsFile::new();
    file.learn(learned("a", "teh", "the", CorrectionMode::All));
    let updated = file
        .update("a", Some("THE".to_string()), Some(CorrectionMode::Secretary), None)
        .unwrap();
    assert_eq!(updated.corrected, "THE");
    assert_eq!(updated.mode, CorrectionMode::Secretary);
    assert_eq!(file.delete("a"), Ok(()));
    assert!(file.corrections.is_empty());
    assert_eq!(file.delete("a"), Err(CorrectionError::NotFound));
    assert!(file.update("a", None, None, None).is_err());
}

#[test]
fn an_engine_without_corrections_only_normalizes_spacing() {
    let mut engine = CorrectionEngine::new(300);
    assert_eq!(engine.apply("  hello   Arkon  world ", "all"), "hello Arkon world");
    assert!(!engine.has_usage());
    assert!(!engine.should_flush());
}

#[test]
fn corrections_apply_and_record_usage() {
    let mut file = CorrectionsFile::new();
    file.learn(learned("x", "arkon", "archon", CorrectionMode::All));
    file.learn(Correction::learned(
        "p".to_string(),
        "new york city",
        "NYC".to_string(),
        CorrectionMode::All,
        MatchType::Exact,
        String::new(),
    ));
    let mut engine = CorrectionEngine::new(300);
    engine.reload(file);
    assert_eq!(engine.apply("Arkon lives in new york city", "secretary"), "Archon lives in nyc");
    assert_eq!(engine.usage_count("x"), 1);
    assert_eq!(engine.usage_count("p"), 1);
    assert!(engine.has_usage());
    engine.clear_usage();
    assert!(!engine.has_usage());
}

fn phonetic(id: &str, original: &str, corrected: &str, mode: CorrectionMode) -> Correction {
    Correction::learned(
        id.to_string(),
        original,
        corrected.to_string(),
        mode,
        MatchType::Phonetic,
        String::new(),
    )
}

#[test]
fn whitespace_phonetic_phrase_never_matches_below_distance_one() {
    let mut file = CorrectionsFile::new();
    file.corrections.push(phonetic("blank", "   ", "X", CorrectionMode::All));
    file.corrections.push(phonetic("k", "kubernetes", "Kubernetes", CorrectionMode::All));
    let mut engine = CorrectionEngine::new(300);
    engine.reload(file);
    assert!(engine.halts_on("deploy to kubernetis now", "all"));
    assert_eq!(engine.apply("deploy to  kubernetis now", "all"), "deploy to kubernetes now");
    assert_eq!(engine.usage_count("k"), 1);
    assert_eq!(engine.usage_count("blank"), 0);
}

#[test]
fn whitespace_phonetic_phrase_hangs_only_when_it_applies() {
    let mut file = CorrectionsFile::new();
    file.corrections.push(phonetic("blank", "   ", "X", CorrectionMode::Code));
    let mut engine = CorrectionEngine::new(1000);
    engine.reload(file);
    // The phrase matches everywhere at threshold 1.0 in its own mode.
    assert!(!engine.halts_on("some words", "code"));
    assert!(engine.halts_on("", "code"));
    // In another mode it never applies: words are kept, nothing is used.
    assert!(engine.halts_on("some  words", "secretary"));
    assert_eq!(engine.apply("some  words", "secretary"), "some words");
    assert!(!engine.has_usage());
}
