//! Compaction of `memory.md`.

use vstd::prelude::*;
use crate::text;

verus! {

/// What the compaction model is asked.
pub const MEMORY_COMPACTION_PROMPT: &'static str =
    "You are a memory file compactor. Given a memory.md file, rewrite it to be more concise while preserving all durable knowledge.\n\nRules:\n1. EPISODIC section: Keep only the 5 most recent entries. For older entries, extract any lasting lessons, patterns, or rules and move them to PROCEDURAL or SEMANTIC. Reduce old episodic entries to one-line mentions with dates, or remove entirely if fully absorbed.\n2. SEMANTIC section: Merge redundant entries. Remove outdated facts. Keep only knowledge still relevant to the project.\n3. PROCEDURAL section: Merge related rules. Remove rules that are now second-nature or superseded. Keep distilled wisdom.\n4. Preserve the overall structure: # PeakBot Memory header, ## Episodic, ## Semantic, ## Procedural sections.\n5. Update the \"Last compacted\" line to today's date.\n\nOutput ONLY the rewritten memory.md content, nothing else.\n\nHere is the current memory.md file:\n\n";

/// Whether a memory file has to be compacted: `size` is its size in bytes, where
/// it exists. A file exactly at the threshold stays as it is.
pub fn is_oversized(size: Option<usize>, threshold_bytes: usize) -> (r: bool)
    ensures
        r == (size matches Some(n) && n > threshold_bytes),
{
    match size {
        Some(n) => n > threshold_bytes,
        None => false,
    }
}

/// The content to compact: what was read of an oversized file.
pub fn read_if_oversized(size: Option<usize>, content: Option<String>, threshold_bytes: usize)
    -> (r: Option<String>)
    ensures
        r == (if size matches Some(n) && n > threshold_bytes {
            content
        } else {
            None
        }),
{
    if is_oversized(size, threshold_bytes) {
        content
    } else {
        None
    }
}

/// The prompt that asks for a compacted file.
pub fn compaction_prompt(content: &str) -> (r: String)
    ensures
        r@ == MEMORY_COMPACTION_PROMPT@ + content@,
{
    let mut p = MEMORY_COMPACTION_PROMPT.to_owned();
    p.append(content);
    p
}

/// What the user is told after a compaction.
pub open spec fn compacted_text(size_before: nat) -> Seq<char> {
    "memory.md compacted (was "@ + text::decimal(size_before) + " bytes)"@
}

/// Renders what the user is told after a compaction.
pub fn compacted_message(size_before: usize) -> (r: String)
    ensures
        r@ == compacted_text(size_before as nat),
{
    let mut m = "memory.md compacted (was ".to_owned();
    m.append(text::decimal_text(size_before as u64).as_str());
    m.append(" bytes)");
    m
}

} // verus!
