//! Compacting `memory.md`.

use peakbot::memory::{compacted_message, compaction_prompt, is_oversized, read_if_oversized};

#[test]
fn read_if_oversized_file_not_found() {
    assert!(read_if_oversized(None, None, 100).is_none());
}

fn read(content: &str, threshold: usize) -> Option<String> {
    read_if_oversized(Some(content.len()), Some(content.to_string()), threshold)
}

#[test]
fn read_if_oversized_under_threshold() {
    assert!(read("small content", 100).is_none());
}

#[test]
fn read_if_oversized_at_threshold() {
    assert!(read(&"x".repeat(100), 100).is_none());
}

#[test]
fn read_if_oversized_over_threshold() {
    let content = "x".repeat(200);
    let read = read(&content, 100).expect("over the threshold");
    assert_eq!(read.len(), 200);
    assert_eq!(read, content);
}

#[test]
fn read_if_oversized_empty_file() {
    assert!(read("", 1).is_none());
}

#[test]
fn an_oversized_file_that_cannot_be_read_is_left_alone() {
    assert!(read_if_oversized(Some(200), None, 100).is_none());
    assert!(is_oversized(Some(200), 100));
    assert!(!is_oversized(None, 0));
}

#[test]
fn compact_memory_prompt_includes_rules_and_content() {
    let original = "# PeakBot Memory\n\n## Episodic\n\n- Entry 1\n";
    let prompt = compaction_prompt(original);
    assert!(prompt.contains("EPISODIC section"), "prompt should contain compaction rules");
    assert!(prompt.contains("Entry 1"), "prompt should contain original memory content");
    assert!(prompt.ends_with(original));
}

#[test]
fn the_user_hears_how_large_it_was() {
    assert_eq!(compacted_message(20480), "memory.md compacted (was 20480 bytes)");
}
