use immaterium::{LineBuffer, ShellExecutor};
use immaterium::executor::{bashrc_prefix, combine_output, exit_code_or_default, FLUSH_THRESHOLD};

#[test]
fn test_shell_executor_creation() {
    let mut executor = ShellExecutor::new("/bin/bash".to_string(), "/tmp".to_string());
    assert_eq!(executor.get_working_directory(), "/tmp");
    assert_eq!(executor.get_shell_path(), "/bin/bash");
    executor.set_working_directory("/home".to_string());
    assert_eq!(executor.get_working_directory(), "/home");
}

#[test]
fn test_wrap_command_sources_bashrc() {
    let executor = ShellExecutor::new("/bin/bash".to_string(), "/tmp".to_string());
    let wrapped = executor.wrap_command("echo hi");
    assert_eq!(
        wrapped,
        "[ -f ~/.bashrc ] && source ~/.bashrc 2>/dev/null; echo hi"
    );
    assert_eq!(bashrc_prefix(), "[ -f ~/.bashrc ] && source ~/.bashrc 2>/dev/null; ");
}

#[test]
fn test_line_buffer_cuts_complete_lines() {
    let mut buf = LineBuffer::new();
    let lines = buf.push_bytes(b"one\ntwo\npart");
    assert_eq!(lines.len(), 2);
    assert_eq!(lines[0], b"one\n");
    assert_eq!(lines[1], b"two\n");
    // The partial tail stays buffered until its newline arrives.
    let more = buf.push_bytes(b"ial\n");
    assert_eq!(more.len(), 1);
    assert_eq!(more[0], b"partial\n");
    assert!(buf.finish().is_none());
}

#[test]
fn test_line_buffer_flushes_oversized_partial() {
    let mut buf = LineBuffer::new();
    let big = vec![b'x'; FLUSH_THRESHOLD + 1];
    let lines = buf.push_bytes(&big);
    // No newline anywhere, but the chunk outgrew the threshold: flushed whole.
    assert_eq!(lines.len(), 1);
    assert_eq!(lines[0].len(), FLUSH_THRESHOLD + 1);
    assert!(buf.finish().is_none());
}

#[test]
fn test_line_buffer_finish_hands_out_tail() {
    let mut buf = LineBuffer::new();
    let lines = buf.push_bytes(b"no newline here");
    assert_eq!(lines.len(), 0);
    let rest = buf.finish().unwrap();
    assert_eq!(rest, b"no newline here");
    assert!(buf.finish().is_none());
}

#[test]
fn test_line_buffer_loses_no_bytes() {
    let mut buf = LineBuffer::new();
    let mut emitted: Vec<u8> = Vec::new();
    for chunk in [&b"ab\ncd"[..], &b"ef\n\n"[..], &b"tail"[..]] {
        for line in buf.push_bytes(chunk) {
            emitted.extend_from_slice(&line);
        }
    }
    if let Some(rest) = buf.finish() {
        emitted.extend_from_slice(&rest);
    }
    assert_eq!(emitted, b"ab\ncdef\n\ntail");
}

#[test]
fn test_exit_code_defaults_to_minus_one() {
    assert_eq!(exit_code_or_default(Some(3)), 3);
    assert_eq!(exit_code_or_default(Some(0)), 0);
    assert_eq!(exit_code_or_default(None), -1);
}

#[test]
fn test_combine_output_keeps_order() {
    let combined = combine_output("out".to_string(), "err");
    assert_eq!(combined, "outerr");
}
