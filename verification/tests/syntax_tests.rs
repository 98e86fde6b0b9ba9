use immaterium::SyntaxHighlighter;

#[test]
fn test_detect_code_blocks() {
    let highlighter = SyntaxHighlighter::new();
    let output = "\nSome text before\n```python\ndef hello():\n    print(\"world\")\n```\nSome text after\n";
    let blocks = highlighter.detect_code_blocks(output);
    assert_eq!(blocks.len(), 1);
    assert_eq!(blocks[0].language, Some("python".to_string()));
    assert!(blocks[0].content.contains("def hello"));
}

#[test]
fn test_multiple_code_blocks() {
    let highlighter = SyntaxHighlighter::new();
    let output = "\n```bash\necho \"first\"\n```\nmiddle text\n```python\nprint(\"second\")\n```\n";
    let blocks = highlighter.detect_code_blocks(output);
    assert_eq!(blocks.len(), 2);
    assert_eq!(blocks[0].language, Some("bash".to_string()));
    assert_eq!(blocks[1].language, Some("python".to_string()));
}

#[test]
fn test_code_block_line_numbers() {
    let highlighter = SyntaxHighlighter::new();
    let output = "intro\n```\nbody\n```\n";
    let blocks = highlighter.detect_code_blocks(output);
    assert_eq!(blocks.len(), 1);
    assert_eq!(blocks[0].language, None);
    assert_eq!(blocks[0].content, "body\n");
    assert_eq!(blocks[0].start_line, 2);
    assert_eq!(blocks[0].end_line, 3);
}

#[test]
fn test_unclosed_block_is_discarded() {
    let highlighter = SyntaxHighlighter::new();
    let output = "```rust\nfn main() {}\n";
    let blocks = highlighter.detect_code_blocks(output);
    assert_eq!(blocks.len(), 0);
}
