use zeroclaw::agent::{format_memory_context, CONTEXT_RECALL_LIMIT};
use zeroclaw::entry::{MemoryCategory, MemoryEntry};

fn entry(id: &str, key: &str, content: &str, category: MemoryCategory, timestamp: &str, score: f64) -> MemoryEntry {
    MemoryEntry {
        id: id.to_string(),
        key: key.to_string(),
        content: content.to_string(),
        category,
        timestamp: timestamp.to_string(),
        session_id: None,
        score: Some(score.to_bits()),
    }
}

#[test]
fn test_build_context_with_empty_memory() {
    let context = format_memory_context(&vec![]);
    assert_eq!(context, "");
}

#[test]
fn test_build_context_with_memories() {
    let entries = vec![
        entry(
            "1",
            "preference",
            "User prefers concise responses",
            MemoryCategory::Core,
            "2024-01-01T00:00:00Z",
            0.95,
        ),
        entry(
            "2",
            "context",
            "Working on Rust project",
            MemoryCategory::Conversation,
            "2024-01-01T00:01:00Z",
            0.85,
        ),
    ];
    let context = format_memory_context(&entries);
    assert!(context.contains("[Memory context]"));
    assert!(context.contains("preference: User prefers concise responses"));
    assert!(context.contains("context: Working on Rust project"));
}

#[test]
fn test_build_context_respects_limit() {
    let entries = vec![
        entry("1", "key1", "content1", MemoryCategory::Core, "2024-01-01T00:00:00Z", 0.9),
        entry("2", "key2", "content2", MemoryCategory::Core, "2024-01-01T00:01:00Z", 0.8),
        entry("3", "key3", "content3", MemoryCategory::Core, "2024-01-01T00:02:00Z", 0.7),
    ];
    assert!(entries.len() <= CONTEXT_RECALL_LIMIT);
    let context = format_memory_context(&entries);
    assert!(context.contains("key1"));
    assert!(context.contains("key2"));
    assert!(context.contains("key3"));
}

#[test]
fn test_build_context_formats_correctly() {
    let entries = vec![entry(
        "1",
        "test_key",
        "test content",
        MemoryCategory::Core,
        "2024-01-01T00:00:00Z",
        0.95,
    )];
    let context = format_memory_context(&entries);
    assert!(context.starts_with("[Memory context]\n"));
    assert!(context.contains("- test_key: test content\n"));
    assert!(context.ends_with('\n'));
}

#[test]
fn context_block_is_exact() {
    let entries = vec![
        entry("1", "a", "x", MemoryCategory::Core, "", 0.5),
        entry("2", "b", "y", MemoryCategory::Daily, "", 0.4),
    ];
    assert_eq!(
        format_memory_context(&entries),
        "[Memory context]\n- a: x\n- b: y\n\n"
    );
    assert_eq!(CONTEXT_RECALL_LIMIT, 5);
}
