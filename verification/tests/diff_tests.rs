use yowl::diff::TextTracker;

#[test]
fn test_initial_text() {
    let mut tracker = TextTracker::new();

    let result = tracker.update("Hello").unwrap();
    assert_eq!(result.backspaces, 0);
    assert_eq!(result.new_text, "Hello");
    assert_eq!(tracker.full_text(), "Hello");
}

#[test]
fn test_append_text() {
    let mut tracker = TextTracker::new();

    tracker.update("Hello").unwrap();
    let result = tracker.update("Hello world").unwrap();

    assert_eq!(result.backspaces, 0);
    assert_eq!(result.new_text, " world");
    assert_eq!(tracker.full_text(), "Hello world");
}

#[test]
fn test_revise_end() {
    let mut tracker = TextTracker::new();

    tracker.update("Hello worl").unwrap();
    let result = tracker.update("Hello world").unwrap();

    // Should backspace 0 and add "d" since "Hello worl" is prefix of "Hello world"
    assert_eq!(result.backspaces, 0);
    assert_eq!(result.new_text, "d");
}

#[test]
fn test_revise_with_backspace() {
    let mut tracker = TextTracker::new();

    tracker.update("Hello word").unwrap();
    let result = tracker.update("Hello world").unwrap();

    // "Hello wor" is common, need to backspace "d" and add "ld"
    assert_eq!(result.backspaces, 1);
    assert_eq!(result.new_text, "ld");
}

#[test]
fn test_revision_not_aging() {
    // When the recognizer completely changes its mind, we should revise
    // (backspace), not commit the old garbage
    let mut tracker = TextTracker::new();

    tracker.update("The three billi-e-outs.").unwrap();
    let result = tracker.update("The Three Billy Goats Gruff.").unwrap();

    // These are different transcriptions of the same audio
    // We should backspace and replace, NOT commit the old text
    assert!(
        result.backspaces > 0,
        "Should backspace the wrong text, got backspaces={}",
        result.backspaces
    );

    // After this, full_text should only contain ONE attempt, not both
    assert!(
        !tracker.full_text().contains("billi-e-outs"),
        "Should not contain old incorrect text. Got: {}",
        tracker.full_text()
    );
}

#[test]
fn test_no_change() {
    let mut tracker = TextTracker::new();

    tracker.update("Hello").unwrap();
    let result = tracker.update("Hello");

    assert!(result.is_none());
}

#[test]
fn test_empty_to_empty() {
    let mut tracker = TextTracker::new();
    let result = tracker.update("");
    assert!(result.is_none());
}

#[test]
fn test_reset() {
    let mut tracker = TextTracker::new();

    tracker.update("Hello world").unwrap();
    tracker.reset();

    assert_eq!(tracker.full_text(), "");
    assert_eq!(tracker.committed(), "");
    assert_eq!(tracker.provisional(), "");
}

// Tests for aging behavior
#[test]
fn test_simple_aging() {
    let mut tracker = TextTracker::new();

    // Initial: "Once upon a time there was"
    tracker.update("Once upon a time there was").unwrap();

    // Now the buffer aged and we only get "a time there was a king"
    // The "Once upon " should be committed
    let result = tracker.update("a time there was a king").unwrap();

    // "Once upon " aged out and should be committed
    assert!(tracker.committed().starts_with("Once upon "));

    println!("Committed: {:?}", tracker.committed());
    println!("Provisional: {:?}", tracker.provisional());
    println!("Result: {:?}", result);
}

#[test]
fn test_aging_preserves_head() {
    let mut tracker = TextTracker::new();

    // Build up text over several updates
    tracker.update("The three").unwrap();
    tracker.update("The three billy").unwrap();
    tracker.update("The three billy goats").unwrap();
    tracker.update("The three billy goats gruff").unwrap();

    // Now simulate aging: buffer only has latter part
    tracker.update("billy goats gruff once upon").unwrap();

    // "The three " should be committed
    assert!(
        tracker.committed().contains("The three"),
        "Should preserve 'The three' in committed. Got: {:?}",
        tracker.committed()
    );

    // Full text should still have it
    assert!(
        tracker.full_text().contains("The three"),
        "Full text should contain 'The three'. Got: {:?}",
        tracker.full_text()
    );
}

#[test]
fn test_gradual_aging() {
    let mut tracker = TextTracker::new();

    // Simulate a real transcription session with gradual aging
    let updates = vec![
        "The",
        "The three",
        "The three billy",
        "The three billy goats",
        "The three billy goats gruff",
        "The three billy goats gruff.",
        "three billy goats gruff. Once", // "The " aged out
        "billy goats gruff. Once upon",  // "three " aged out
        "goats gruff. Once upon a",      // "billy " aged out
        "gruff. Once upon a time",       // "goats " aged out
    ];

    let mut terminal_text = String::new();

    for update in updates {
        if let Some(result) = tracker.update(update) {
            // Simulate terminal: backspace then append
            for _ in 0..result.backspaces {
                terminal_text.pop();
            }
            terminal_text.push_str(&result.new_text);
        }
        println!(
            "After '{}': terminal='{}', committed='{}'",
            update,
            terminal_text,
            tracker.committed()
        );
    }

    // The terminal should have the complete text
    assert!(
        terminal_text.contains("The"),
        "Terminal should still have 'The'. Got: {}",
        terminal_text
    );
    assert!(
        terminal_text.contains("gruff. Once upon a time"),
        "Terminal should have ending. Got: {}",
        terminal_text
    );
}

#[test]
fn test_whisper_style_revisions() {
    let mut tracker = TextTracker::new();

    // Simulate the recognizer's tendency to add periods then revise
    let updates = vec![
        "Once upon a time.",
        "Once upon a time there.",
        "Once upon a time there was.",
        "Once upon a time there was a", // period removed, text added
        "Once upon a time there was a bridge",
    ];

    let mut terminal_text = String::new();

    for update in updates {
        if let Some(result) = tracker.update(update) {
            for _ in 0..result.backspaces {
                terminal_text.pop();
            }
            terminal_text.push_str(&result.new_text);
            println!(
                "bs={}, new='{}' -> '{}'",
                result.backspaces, result.new_text, terminal_text
            );
        }
    }

    assert_eq!(terminal_text, "Once upon a time there was a bridge");
}

#[test]
fn test_no_duplicate_output() {
    let mut tracker = TextTracker::new();

    let updates = vec![
        "The three billi",
        "The three billy",
        "The three billy goats",
        "The three billy goats gruff",
        "three billy goats gruff. Once",      // aging
        "three billy goats gruff. Once upon", // more text
    ];

    let mut terminal_text = String::new();

    for update in updates {
        if let Some(result) = tracker.update(update) {
            for _ in 0..result.backspaces {
                terminal_text.pop();
            }
            terminal_text.push_str(&result.new_text);
        }
    }

    // Should not have duplicate "three billy goats gruff"
    let count = terminal_text.matches("billy goats gruff").count();
    assert_eq!(
        count, 1,
        "Should have exactly one 'billy goats gruff'. Got {} in: {}",
        count, terminal_text
    );
}

#[test]
fn test_whisper_inconsistent_transcripts() {
    // The recognizer gives inconsistent transcriptions as it struggles
    // with the audio
    let mut tracker = TextTracker::new();

    let updates = vec![
        "The three billi-e-outs.",
        "The Three Billy Oats Gruff.",
        "The three billiote's gruff.",
        "The three billiote's gruff. Once upon a time there was a bridge",
        "billiote's gruff. Once upon a time there was a bridge and beneath that bridge", // aging
        "gruff. Once upon a time there was a bridge and beneath that bridge lived", // more aging
    ];

    let mut terminal_text = String::new();

    for update in &updates {
        if let Some(result) = tracker.update(update) {
            for _ in 0..result.backspaces {
                terminal_text.pop();
            }
            terminal_text.push_str(&result.new_text);
        }
        println!(
            "Update: '{}'\n  -> Terminal: '{}'\n  -> Committed: '{}'\n",
            update,
            terminal_text,
            tracker.committed()
        );
    }

    // Should NOT have duplicate fragments
    let count = terminal_text.matches("Once upon a time").count();
    assert_eq!(
        count, 1,
        "Should have exactly one 'Once upon a time'. Got {} in:\n{}",
        count, terminal_text
    );
}

#[test]
fn test_short_string_revision() {
    let mut tracker = TextTracker::new();

    tracker.update("Helo").unwrap();
    let result = tracker.update("Hello").unwrap();

    // "Hel" is common, backspace "o", add "lo"
    assert_eq!(result.backspaces, 1, "Should backspace the wrong 'o'");
    assert_eq!(result.new_text, "lo", "Should add 'lo'");
}

#[test]
fn test_committed_monotone() {
    // The committed text never shrinks: across any sequence of updates,
    // each earlier committed text stays a prefix of every later one.
    let mut tracker = TextTracker::new();

    let updates = vec![
        "The three billy goats gruff",
        "billy goats gruff once upon",
        "gruff once upon a time there",
        "upon a time there was a bridge",
    ];

    let mut previous = String::new();
    for update in updates {
        tracker.update(update);
        let committed = tracker.committed().to_string();
        assert!(
            committed.starts_with(&previous),
            "Committed shrank: {:?} no longer starts with {:?}",
            committed,
            previous
        );
        previous = committed;
    }
    assert!(!previous.is_empty(), "Aging should have committed something");
}

#[test]
fn test_edit_stream_matches_full_text() {
    // Applying each (backspaces, new_text) edit to a simulated terminal
    // reproduces the tracker's full_text exactly, at every step.
    let mut tracker = TextTracker::new();

    let updates = vec![
        "Hello",
        "Hello word",
        "Hello world",
        "Hello world this is a longer line",
        "world this is a longer line indeed",
        "",
    ];

    let mut terminal_text = String::new();
    for update in updates {
        if let Some(result) = tracker.update(update) {
            for _ in 0..result.backspaces {
                terminal_text.pop();
            }
            terminal_text.push_str(&result.new_text);
        }
        assert_eq!(
            terminal_text,
            tracker.full_text(),
            "Terminal and tracker diverged after '{}'",
            update
        );
    }
}

#[test]
fn test_multibyte_revision() {
    // Backspaces are counted in Unicode scalars, not bytes.
    let mut tracker = TextTracker::new();

    tracker.update("na\u{ef}ve").unwrap();
    let result = tracker.update("na\u{ef}f").unwrap();

    // "na\u{ef}" is common; backspace "ve" (2 scalars), append "f"
    assert_eq!(result.backspaces, 2);
    assert_eq!(result.new_text, "f");
    assert_eq!(tracker.full_text(), "na\u{ef}f");
}

#[test]
fn test_find_aging_point_prefix_is_zero() {
    // A pure append never counts as aging, however long the overlap.
    let mut tracker = TextTracker::new();
    tracker.update("The three billy goats gruff went").unwrap();
    assert_eq!(
        tracker.find_aging_point("The three billy goats gruff went over"),
        0
    );
    // A genuine shift is found at the scalar offset where the new
    // transcript picks up.
    assert_eq!(tracker.find_aging_point("three billy goats gruff went over"), 4);
}
