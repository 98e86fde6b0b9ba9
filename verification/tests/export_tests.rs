use immaterium::{Block, ExportedSession, Session};

#[test]
fn test_markdown_export() {
    let mut session = Session::new("test".to_string(), "/tmp".to_string());
    let mut block = Block::new("echo hello".to_string(), "/tmp".to_string());
    block.start_execution();
    block.append_output("hello\n".to_string());
    block.complete_execution(0);
    session.blocks.push(block);

    let exported = ExportedSession::new(session);
    let markdown = exported.to_markdown();

    assert!(markdown.contains("# Session: test"));
    assert!(markdown.contains("echo hello"));
    assert!(markdown.contains("hello"));
}

#[test]
fn test_text_export() {
    let mut session = Session::new("test".to_string(), "/tmp".to_string());
    let mut block = Block::new("ls".to_string(), "/tmp".to_string());
    block.start_execution();
    block.append_output("file1\nfile2\n".to_string());
    block.complete_execution(0);
    session.blocks.push(block);

    let exported = ExportedSession::new(session);
    let text = exported.to_text();

    assert!(text.contains("Session: test"));
    assert!(text.contains("$ ls"));
    assert!(text.contains("file1"));
    assert!(text.contains("file2"));
}

#[test]
fn test_markdown_export_sections() {
    let mut session = Session::new("demo".to_string(), "/home".to_string());
    let mut block = Block::new("false".to_string(), "/home".to_string());
    block.start_execution();
    block.complete_execution(1);
    session.blocks.push(block);

    let exported = ExportedSession::new(session);
    let markdown = exported.to_markdown();

    assert!(markdown.contains("**Working Directory:** `/home`"));
    assert!(markdown.contains("## Commands"));
    assert!(markdown.contains("### Block 1 - "));
    assert!(markdown.contains("**Status:** Failed (exit code: 1)"));
    assert!(markdown.contains("**Duration:** "));
    assert!(markdown.contains("---"));
}

#[test]
fn test_text_export_without_blocks() {
    let session = Session::new("empty".to_string(), "/".to_string());
    let exported = ExportedSession::new(session);
    let text = exported.to_text();
    assert!(text.contains("Session: empty"));
    assert!(text.contains("Working Directory: /"));
    assert!(!text.contains("[Block"));
}

#[test]
fn test_markdown_export_exact_values() {
    let mut session = Session::new("fixed".to_string(), "/tmp".to_string());
    // Pin every timestamp so the rendering is exact.
    session.created_at = 0;
    session.updated_at = 0;
    let mut block = Block::new("true".to_string(), "/tmp".to_string());
    block.timestamp = 3_600_000; // 01:00:00 UTC
    block.start_execution();
    block.complete_execution(0);
    block.metadata.started_at = Some(3_600_000);
    block.metadata.completed_at = Some(3_602_500);
    block.metadata.duration = Some(2_500);
    session.blocks.push(block);

    let exported = ExportedSession::new(session);
    let markdown = exported.to_markdown();
    assert!(markdown.contains("**Created:** 1970-01-01 00:00:00"));
    assert!(markdown.contains("### Block 1 - 01:00:00"));
    assert!(markdown.contains("**Status:** Completed (exit code: 0)"));
    assert!(markdown.contains("**Duration:** 2.50s"));
}
