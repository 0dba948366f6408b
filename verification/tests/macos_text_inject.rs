use swictation::macos_text_inject::{
    accessibility_outcome, AccessibilityOutcome, encode_utf16, is_high_surrogate, next_posting_step, utf16_chunks, PostingStep,
    BATCH_UTF16_LIMIT,
};

fn typed_payload_is_the_input_verbatim() {
    for text in [
        "Copy this <KEY:Cmd+C>",
        "<KEY:Cmd+Shift+V>",
        "unterminated <KEY:Cmd+C",
        "plain text",
        "a marker <KEY:Cmd+A> buried in a sentence long enough to be split",
        "emoji 🎤 and <KEY:Cmd+V> 👍🏽 mixed",
    ] {
        let typed = String::from_utf16(&utf16_chunks(text).concat())
            .expect("chunks must recombine into valid UTF-16");
        assert_eq!(typed, text, "injected payload must equal the input");
    }
}

fn chunks_respect_cgevent_limits() {
    let text = "🎤".repeat(40) + &"x".repeat(100);
    let chunks = utf16_chunks(&text);

    for (i, chunk) in chunks.iter().enumerate() {
        assert!(
            chunk.len() <= BATCH_UTF16_LIMIT,
            "chunk {i} carries {} code units, over Apple's limit",
            chunk.len()
        );
        let is_last = i + 1 == chunks.len();
        if !is_last {
            assert!(
                !is_high_surrogate(*chunk.last().unwrap()),
                "chunk {i} ends on a high surrogate, splitting a character"
            );
        }
    }
}

#[test]
fn macos_text_inject_test_typed_payload_is_the_input_verbatim() {
    typed_payload_is_the_input_verbatim();
}

#[test]
fn macos_text_inject_test_chunks_respect_cgevent_limits() {
    chunks_respect_cgevent_limits();
}

#[test]
fn macos_text_inject_tests_test_typed_payload_is_the_input_verbatim() {
    typed_payload_is_the_input_verbatim();
}

#[test]
fn macos_text_inject_tests_test_chunks_respect_cgevent_limits() {
    chunks_respect_cgevent_limits();
}

#[test]
fn encoding_matches_std() {
    for text in ["", "abc", "é", "🎤", "a𝄞b", "日本語"] {
        let expected: Vec<u16> = text.encode_utf16().collect();
        assert_eq!(encode_utf16(text), expected);
    }
}

#[test]
fn surrogate_pair_moves_to_next_chunk() {
    // 19 ASCII units then a pair: the pair would straddle the limit.
    let text = "x".repeat(19) + "🎤";
    let chunks = utf16_chunks(&text);
    assert_eq!(chunks.len(), 2);
    assert_eq!(chunks[0].len(), 19);
    assert_eq!(chunks[1].len(), 2);
    assert!(utf16_chunks("").is_empty());
    assert_eq!(utf16_chunks(&"y".repeat(20)).len(), 1);
    assert_eq!(utf16_chunks(&"y".repeat(21)).len(), 2);
}

#[test]
fn posting_stops_when_permission_is_lost() {
    assert_eq!(next_posting_step(0, 2, true), PostingStep::Post(0));
    assert_eq!(next_posting_step(1, 2, false), PostingStep::PermissionDenied);
    assert_eq!(next_posting_step(2, 2, false), PostingStep::Done);
}

#[test]
fn accessibility_outcomes() {
    assert_eq!(accessibility_outcome(true, true), AccessibilityOutcome::Granted);
    assert_eq!(accessibility_outcome(true, false), AccessibilityOutcome::Stale);
    assert_eq!(accessibility_outcome(false, true), AccessibilityOutcome::NotGranted);
}

/// Types `text` chunk by chunk the way the injector does: permission is
/// checked before each chunk, and the first failure ends the injection.
fn post_text_batches(
    text: &str,
    mut can_post: impl FnMut() -> bool,
    mut post: impl FnMut(&[u16]) -> Result<(), String>,
) -> Result<(), String> {
    let chunks = utf16_chunks(text);
    let mut posted = 0;
    loop {
        let permitted = posted < chunks.len() && can_post();
        match next_posting_step(posted, chunks.len(), permitted) {
            PostingStep::Done => return Ok(()),
            PostingStep::PermissionDenied => {
                return Err(
                    "macOS event-posting permission is not granted; text was not typed"
                        .to_string(),
                )
            }
            PostingStep::Post(i) => {
                post(&chunks[i])?;
                posted += 1;
            }
        }
    }
}

#[test]
fn posting_permission_recovery_only_dispatches_new_text() {
    let mut posted = Vec::new();
    let denied = post_text_batches(
        "discarded",
        || false,
        |chunk| {
            posted.push(String::from_utf16(chunk).unwrap());
            Ok(())
        },
    );
    assert!(denied.unwrap_err().contains("event-posting permission"));
    assert!(posted.is_empty());

    post_text_batches(
        "fresh",
        || true,
        |chunk| {
            posted.push(String::from_utf16(chunk).unwrap());
            Ok(())
        },
    )
    .unwrap();
    assert_eq!(posted, ["fresh"]);
}

#[test]
fn posting_permission_loss_stops_before_the_next_batch() {
    let text = "x".repeat(BATCH_UTF16_LIMIT + 5);
    let mut checks = 0;
    let mut posted = Vec::new();
    let result = post_text_batches(
        &text,
        || {
            checks += 1;
            checks == 1
        },
        |chunk| {
            posted.extend_from_slice(chunk);
            Ok(())
        },
    );
    assert!(result.is_err());
    assert_eq!(checks, 2);
    assert_eq!(posted, vec![u16::from(b'x'); BATCH_UTF16_LIMIT]);
}

#[test]
fn posting_error_is_returned_without_dispatching_later_batches() {
    let text = "x".repeat(BATCH_UTF16_LIMIT + 5);
    let mut attempts = 0;
    let result = post_text_batches(
        &text,
        || true,
        |_| {
            attempts += 1;
            Err("event creation failed".to_string())
        },
    );
    assert!(result.unwrap_err().contains("event creation failed"));
    assert_eq!(attempts, 1);
}

fn key_markers_are_typed_not_pressed() {
    for text in [
        "Copy this <KEY:Cmd+C>",
        "<KEY:Cmd+Shift+V>",
        // Previously aborted injection with "Malformed KEY marker"
        "unterminated <KEY:Cmd+C",
    ] {
        let mut typed: Vec<u16> = Vec::new();
        assert!(
            post_text_batches(text, || true, |chunk| {
                typed.extend_from_slice(chunk);
                Ok(())
            })
            .is_ok(),
            "literal injection should succeed for {text:?}"
        );
        assert_eq!(String::from_utf16(&typed).unwrap(), text);
    }
}

#[test]
fn macos_text_inject_test_key_markers_are_typed_not_pressed() {
    key_markers_are_typed_not_pressed();
}

#[test]
fn macos_text_inject_tests_test_key_markers_are_typed_not_pressed() {
    key_markers_are_typed_not_pressed();
}
