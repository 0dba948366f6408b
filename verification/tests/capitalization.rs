use swictation::capitalization::{
    apply_capitalization, normalize_0_6b_punctuation, process_capital_commands,
};

#[test]
fn test_basic_capitalization() {
    assert_eq!(apply_capitalization("hello, world."), "Hello, world.");
    assert_eq!(apply_capitalization("hello. world"), "Hello. World");
    assert_eq!(apply_capitalization("why? because!"), "Why? Because!");
}

#[test]
fn test_i_pronoun() {
    assert_eq!(apply_capitalization("i am here"), "I am here");
    assert_eq!(apply_capitalization("yes i am"), "Yes I am");
    assert_eq!(apply_capitalization("i'm happy"), "I'm happy");
}

#[test]
fn test_quotes() {
    assert_eq!(
        apply_capitalization("she said \"hello world\""),
        "She said \"Hello world\""
    );
    assert_eq!(
        apply_capitalization("\"attention\" she yelled"),
        "\"Attention\" she yelled"
    );
}

#[test]
fn test_titles() {
    assert_eq!(apply_capitalization("mr. smith"), "Mr. Smith");
    assert_eq!(
        apply_capitalization("dr. jones and dr. brown"),
        "Dr. Jones and Dr. Brown"
    );
}

#[test]
fn test_capital_commands() {
    assert_eq!(process_capital_commands("capital r robert"), "Robert");
    assert_eq!(
        process_capital_commands("my name is capital j jones"),
        "my name is Jones"
    );
    assert_eq!(process_capital_commands("all caps fbi"), "FBI");
}

// ========================================
// Tests for 0.6B model punctuation normalization
// ========================================

#[test]
fn test_normalize_0_6b_word_exists_remove_symbol() {
    // When the word form exists, the symbol is redundant and should be removed
    // This handles: "period" → "period." where model adds trailing period
    assert_eq!(normalize_0_6b_punctuation("hello period."), "hello period");
    assert_eq!(
        normalize_0_6b_punctuation("what question mark?"),
        "what question mark"
    );
    assert_eq!(
        normalize_0_6b_punctuation("stop exclamation point!"),
        "stop exclamation point"
    );
}

#[test]
fn test_normalize_0_6b_word_missing_add_word() {
    // When the word form doesn't exist, convert symbol to word
    // This handles: "comma" → "," where model replaced word with symbol
    assert_eq!(normalize_0_6b_punctuation("hello, world"), "hello comma world");
    assert_eq!(normalize_0_6b_punctuation("what?"), "what question mark");
    assert_eq!(normalize_0_6b_punctuation("stop!"), "stop exclamation point");
    assert_eq!(normalize_0_6b_punctuation("note: important"), "note colon important");
    assert_eq!(
        normalize_0_6b_punctuation("first; second"),
        "first semicolon second"
    );
}

#[test]
fn test_normalize_0_6b_mixed_behavior() {
    // The actual 0.6B model behavior: inconsistent handling
    // "hello comma world period" → "Hello, world period."
    // - "comma" was converted to "," (need to add word back)
    // - "period" stayed as word but "." was added (need to remove symbol)
    assert_eq!(
        normalize_0_6b_punctuation("Hello, world period."),
        "hello comma world period"
    );
}

#[test]
fn test_normalize_0_6b_lowercase() {
    // Should lowercase everything (model adds capitalization we reapply later)
    assert_eq!(normalize_0_6b_punctuation("Hello World"), "hello world");
    assert_eq!(normalize_0_6b_punctuation("HELLO"), "hello");
}

#[test]
fn test_normalize_0_6b_whitespace_cleanup() {
    // Should normalize whitespace
    assert_eq!(
        normalize_0_6b_punctuation("hello   world"),
        "hello world"
    );
    assert_eq!(
        normalize_0_6b_punctuation("  hello  world  "),
        "hello world"
    );
}

#[test]
fn test_normalize_0_6b_no_punctuation() {
    // No punctuation should pass through unchanged (except lowercase)
    assert_eq!(normalize_0_6b_punctuation("hello world"), "hello world");
    assert_eq!(normalize_0_6b_punctuation("Hello World"), "hello world");
}

#[test]
fn test_normalize_0_6b_full_stop_variant() {
    // "full stop" is normalized to canonical "period"
    // word + symbol redundancy: "full stop." → "period" (both merged)
    assert_eq!(
        normalize_0_6b_punctuation("hello full stop."),
        "hello period"
    );
}

#[test]
fn test_normalize_0_6b_exclamation_mark_variant() {
    // "exclamation mark" is normalized to canonical "exclamation point"
    // Also removes spurious trailing symbol
    assert_eq!(
        normalize_0_6b_punctuation("wow exclamation mark!"),
        "wow exclamation point"
    );
}

#[test]
fn test_normalize_0_6b_complex_sentence() {
    // Test a more complex sentence with multiple punctuation
    // Input: User says "Hello comma how are you question mark I am fine period"
    // Model outputs: "Hello, how are you question mark? I am fine period."
    // (comma converted to symbol, question mark word + symbol, period word + symbol)
    assert_eq!(
        normalize_0_6b_punctuation("Hello, how are you question mark? I am fine period."),
        "hello comma how are you question mark i am fine period"
    );
}

#[test]
fn test_normalize_0_6b_secretary_mode_examples() {
    // Test examples from docs/secretary-mode.md Section A

    // "Hello comma world" - model might output "Hello, world"
    assert_eq!(
        normalize_0_6b_punctuation("Hello, world"),
        "hello comma world"
    );

    // "End period" - model might output "End." or "End period."
    assert_eq!(normalize_0_6b_punctuation("End."), "end period");
    assert_eq!(normalize_0_6b_punctuation("End period."), "end period");

    // "Why question mark" - model might output "Why?" or "Why question mark?"
    assert_eq!(normalize_0_6b_punctuation("Why?"), "why question mark");
    assert_eq!(
        normalize_0_6b_punctuation("Why question mark?"),
        "why question mark"
    );

    // "Stop exclamation point" - model might output "Stop!" or "Stop exclamation point!"
    // CRITICAL: Model may add trailing PERIOD instead of "!" - must strip it
    assert_eq!(normalize_0_6b_punctuation("Stop!"), "stop exclamation point");
    assert_eq!(
        normalize_0_6b_punctuation("Stop exclamation point!"),
        "stop exclamation point"
    );
    // BUG FIX: Model outputs "Stop exclamation point." with trailing period artifact
    assert_eq!(
        normalize_0_6b_punctuation("Stop exclamation point."),
        "stop exclamation point"
    );

    // "Note colon" - model might output "Note:" or "Note colon:"
    assert_eq!(normalize_0_6b_punctuation("Note:"), "note colon");
    assert_eq!(normalize_0_6b_punctuation("Note colon:"), "note colon");

    // "First semicolon second" - model might output "First; second" or "First semicolon; second"
    assert_eq!(
        normalize_0_6b_punctuation("First; second"),
        "first semicolon second"
    );
    assert_eq!(
        normalize_0_6b_punctuation("First semicolon; second"),
        "first semicolon second"
    );

    // CRITICAL BUG FIX: Spurious comma before semicolon
    // The original bug: user says "first semicolon second", model outputs "First,; second."
    // This must become "first semicolon second" (comma removed, period preserved if spoken)
    assert_eq!(
        normalize_0_6b_punctuation("First,; second"),
        "first semicolon second"
    );
    assert_eq!(
        normalize_0_6b_punctuation("First,; second."),
        "first semicolon second period"
    );
}

#[test]
fn capitalization_changes_letters_only() {
    for text in ["hello. world! i am here? yes", "\"quoted\" text: mr. smith", "12 apples, 3 pears."] {
        let out = apply_capitalization(text);
        assert_eq!(out.chars().count(), text.chars().count());
        for (a, b) in text.chars().zip(out.chars()) {
            if !a.is_alphabetic() {
                assert_eq!(a, b);
            }
        }
    }
}

#[test]
fn normalized_text_has_no_punctuation_symbols() {
    for text in [
        "Hello, world period.",
        "First,; second.",
        "wait... what?! no -- yes: maybe; ok!",
        "a-b-c, d.e",
    ] {
        let out = normalize_0_6b_punctuation(text);
        assert!(
            !out.chars().any(|c| ",.?!;:-".contains(c)),
            "{text:?} normalized to {out:?}"
        );
    }
}

#[test]
fn normalization_doc_examples() {
    assert_eq!(normalize_0_6b_punctuation("Hello, world"), "hello comma world");
    assert_eq!(normalize_0_6b_punctuation("hello period."), "hello period");
    assert_eq!(
        normalize_0_6b_punctuation("First,; second."),
        "first semicolon second period"
    );
    assert_eq!(
        normalize_0_6b_punctuation("Hello, world period."),
        "hello comma world period"
    );
}

#[test]
fn repeated_punctuation_collapses_after_dropped_marker() {
    assert_eq!(normalize_0_6b_punctuation("wow!.!"), "wow exclamation point");
    assert_eq!(normalize_0_6b_punctuation("what?.?"), "what question mark");
    assert_eq!(normalize_0_6b_punctuation("a,, b"), "a comma b");
}
