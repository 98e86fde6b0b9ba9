use std::io::Read;

use immaterium::{Block, BlockState, LineBuffer, ShellExecutor};
use immaterium::executor::exit_code_or_default;
use portable_pty::{native_pty_system, CommandBuilder, PtySize};

/// Run a command inside a pseudo-terminal, stream its output through the
/// line buffer into a block, and complete the block with the exit code:
/// the executor's read loop, driven to completion.
fn run_in_block(command: &str) -> Block {
    let executor = ShellExecutor::new("/bin/bash".to_string(), "/tmp".to_string());
    let mut block = Block::new(command.to_string(), executor.get_working_directory().clone());
    block.start_execution();

    let pty_system = native_pty_system();
    let pair = pty_system
        .openpty(PtySize { rows: 24, cols: 80, pixel_width: 0, pixel_height: 0 })
        .expect("pty");
    let mut cmd = CommandBuilder::new(executor.get_shell_path());
    cmd.arg("-c");
    cmd.arg(executor.wrap_command(command));
    cmd.cwd(executor.get_working_directory());
    let mut child = pair.slave.spawn_command(cmd).expect("spawn");
    drop(pair.slave);

    let mut reader = pair.master.try_clone_reader().expect("reader");
    let mut buffer = LineBuffer::new();
    let mut temp = [0u8; 8192];
    loop {
        match reader.read(&mut temp) {
            Ok(0) => break,
            Ok(n) => {
                for line in buffer.push_bytes(&temp[..n]) {
                    if let Ok(text) = String::from_utf8(line) {
                        block.append_output(text);
                    }
                }
            }
            Err(_) => break,
        }
    }
    if let Some(rest) = buffer.finish() {
        if let Ok(text) = String::from_utf8(rest) {
            block.append_output(text);
        }
    }
    let status = child.wait().expect("wait");
    let code = exit_code_or_default(Some(status.exit_code() as i32));
    block.complete_execution(code);
    block
}

#[test]
fn test_echo_command_completes() {
    let block = run_in_block("echo 'Hello, World!'");
    assert!(block.output.contains("Hello, World!"), "output: {}", block.output);
    assert_eq!(block.exit_code, Some(0));
    assert_eq!(block.state, BlockState::Completed);
}

#[test]
fn test_failing_command_is_failed() {
    let block = run_in_block("false");
    assert!(block.exit_code.is_some());
    assert!(block.exit_code.unwrap() != 0);
    assert_eq!(block.state, BlockState::Failed);
}
