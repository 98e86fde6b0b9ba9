//! A block-oriented terminal core: every executed shell command becomes a
//! persistent, stateful block with its own lifecycle, output buffer and
//! metadata. This crate holds the verified heart of that design: the block
//! state machine, the output-stream accumulator behind the shell executor,
//! the in-memory block manager, and the session persistence model.

pub mod clock;
pub mod digits;
pub mod block;
pub mod manager;
pub mod executor;
pub mod process;
pub mod session;
pub mod records;
pub mod store;
pub mod autosave;
pub mod theme;
pub mod config;
pub mod ai;
pub mod panel;
pub mod export;
pub mod syntax;
pub mod dispatch;

pub use block::{Block, BlockMetadata, BlockState};
pub use manager::BlockManager;
pub use executor::{LineBuffer, OutputLine, ShellExecutor};
pub use process::{ProcessHandle, ProcessStatus};
pub use session::Session;
pub use store::SessionStore;
pub use autosave::AutoSavePolicy;
pub use theme::{Color, ColorScheme, SyntaxColors};
pub use config::{AiConfig, AiProviderConfig, GeneralConfig, KeybindingsConfig, McpConfig, McpServerConfig, OperationMode};
pub use ai::{AiError, ChatResponse, Message, Usage};
pub use panel::{AiAction, AiPanel, AiPanelMode, BlockResponse};
pub use export::ExportedSession;
pub use syntax::{CodeBlock, SyntaxHighlighter};
pub use dispatch::{classify_input, InputDisposition};
