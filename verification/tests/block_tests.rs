use immaterium::{Block, BlockState};

#[test]
fn test_block_creation() {
    let block = Block::new("echo test".to_string(), "/tmp".to_string());
    assert_eq!(block.command, "echo test");
    assert_eq!(block.state, BlockState::Editing);
    assert!(!block.is_collapsed);
    assert!(!block.is_selected);
}

#[test]
fn test_block_execution_lifecycle() {
    let mut block = Block::new("echo test".to_string(), "/tmp".to_string());

    block.start_execution();
    assert_eq!(block.state, BlockState::Running);
    assert!(block.metadata.started_at.is_some());

    block.complete_execution(0);
    assert_eq!(block.state, BlockState::Completed);
    assert_eq!(block.exit_code, Some(0));
    assert!(block.metadata.completed_at.is_some());
    assert!(block.metadata.duration.is_some());
}

#[test]
fn test_block_failed_execution() {
    let mut block = Block::new("false".to_string(), "/tmp".to_string());
    block.start_execution();
    block.complete_execution(1);

    assert_eq!(block.state, BlockState::Failed);
    assert_eq!(block.exit_code, Some(1));
}

#[test]
fn test_block_collapse() {
    let mut block = Block::new("echo test".to_string(), "/tmp".to_string());
    block.output = "test output".to_string();

    assert!(!block.is_collapsed);
    assert_eq!(block.get_display_output(), "test output");

    block.toggle_collapsed();
    assert!(block.is_collapsed);
    assert_eq!(block.get_display_output(), "");

    block.toggle_collapsed();
    assert!(!block.is_collapsed);
    assert_eq!(block.get_display_output(), "test output");
}

#[test]
fn test_block_cancel_leaves_exit_code_unset() {
    let mut block = Block::new("sleep 100".to_string(), "/tmp".to_string());
    block.start_execution();
    block.cancel();
    assert_eq!(block.state, BlockState::Cancelled);
    assert_eq!(block.exit_code, None);
}

#[test]
fn test_duration_never_negative() {
    let mut block = Block::new("true".to_string(), "/tmp".to_string());
    block.start_execution();
    block.complete_execution(0);
    let started = block.metadata.started_at.unwrap();
    let completed = block.metadata.completed_at.unwrap();
    let duration = block.metadata.duration.unwrap();
    assert!(completed >= started);
    assert_eq!(duration, completed - started);
    assert!(duration >= 0);
}

#[test]
fn test_pending_approval_entry_state() {
    let mut block = Block::new_pending_approval(
        "ls -la".to_string(),
        "/tmp".to_string(),
        "list all files".to_string(),
    );
    assert_eq!(block.state, BlockState::PendingApproval);
    assert_eq!(block.original_input, Some("list all files".to_string()));
    block.start_execution();
    assert_eq!(block.state, BlockState::Running);
}

#[test]
fn test_append_output_accumulates() {
    let mut block = Block::new("echo hi".to_string(), "/tmp".to_string());
    block.start_execution();
    block.append_output("line one\n".to_string());
    block.append_output("line two\n".to_string());
    assert_eq!(block.output, "line one\nline two\n");
}

#[test]
fn test_display_command_truncation() {
    let long = "x".repeat(150);
    let block = Block::new(long.clone(), "/tmp".to_string());
    let shown = block.get_display_command();
    assert_eq!(shown, format!("{}...", &long[..97]));

    let short = Block::new("pwd".to_string(), "/tmp".to_string());
    assert_eq!(short.get_display_command(), "pwd");
}

#[test]
fn test_format_duration_rendering() {
    let mut block = Block::new("true".to_string(), "/tmp".to_string());
    block.metadata.started_at = Some(1_000);
    block.metadata.completed_at = Some(3_500);
    block.metadata.duration = Some(2_500);
    assert_eq!(block.format_duration(), "2s");

    block.metadata.completed_at = Some(1_250);
    block.metadata.duration = Some(250);
    assert_eq!(block.format_duration(), "250ms");

    block.metadata.started_at = None;
    block.metadata.completed_at = None;
    block.metadata.duration = None;
    assert_eq!(block.format_duration(), "");
}

#[test]
fn test_is_running_and_is_completed() {
    let mut block = Block::new("true".to_string(), "/tmp".to_string());
    assert!(!block.is_running());
    assert!(!block.is_completed());
    block.start_execution();
    assert!(block.is_running());
    assert!(!block.is_completed());
    block.complete_execution(0);
    assert!(!block.is_running());
    assert!(block.is_completed());
}
