use std::time::Instant;

use immaterium::{
    AiError, AiPanel, AiPanelMode, AutoSavePolicy, Color, GeneralConfig, KeybindingsConfig,
    McpConfig, Message, ProcessHandle, ProcessStatus,
};
use immaterium::ai::MessageRole;
use immaterium::theme::{default_alpha, default_font_family};
use immaterium::{classify_input, InputDisposition, OperationMode};

#[test]
fn test_message_roles() {
    let system = Message {
        role: MessageRole::System,
        content: "test".to_string(),
    };
    let user = Message {
        role: MessageRole::User,
        content: "test".to_string(),
    };
    let assistant = Message {
        role: MessageRole::Assistant,
        content: "test".to_string(),
    };

    assert_eq!(system.role, MessageRole::System);
    assert_eq!(user.role, MessageRole::User);
    assert_eq!(assistant.role, MessageRole::Assistant);
}

#[test]
fn test_unopened_menu_duration() {
    let opened_at: Option<Instant> = None;
    let duration = opened_at.map(|t| t.elapsed().as_millis()).unwrap_or(0);

    assert_eq!(duration, 0, "Unopened menu should have 0 duration");
    assert!(duration <= 100, "Unopened menu should be treated as in debounce");
}

#[test]
fn test_color_hex_round_trip() {
    let c = Color::rgb(30, 30, 46);
    assert_eq!(c.to_hex(), "#1e1e2e");
    assert_eq!(Color::from_hex("#1e1e2e"), Some(c));

    let translucent = Color::rgba(137, 180, 250, 50);
    assert_eq!(translucent.to_hex(), "#89b4fa32");
    assert_eq!(Color::from_hex("#89b4fa32"), Some(translucent));
}

#[test]
fn test_color_from_hex_rejects_garbage() {
    assert_eq!(Color::from_hex(""), None);
    assert_eq!(Color::from_hex("#12345"), None);
    assert_eq!(Color::from_hex("#1234567"), None);
    assert_eq!(Color::from_hex("#gggggg"), None);
    assert_eq!(Color::from_hex("not a color"), None);
    // Upper case and a missing hash are accepted.
    assert_eq!(Color::from_hex("FFFFFF"), Some(Color::rgb(255, 255, 255)));
    assert_eq!(default_alpha(), 255);
    assert_eq!(default_font_family(), "monospace");
}

#[test]
fn test_general_config_defaults() {
    let config = GeneralConfig::default();
    assert_eq!(config.default_shell, "/bin/bash");
    assert!(config.save_history);
    assert_eq!(config.max_history_size, 10000);
    assert_eq!(config.auto_save_interval, 30);
    assert_eq!(KeybindingsConfig::default().new_block, "Ctrl+Enter");
    assert_eq!(McpConfig::default().servers.len(), 0);
}

#[test]
fn test_ai_config_defaults() {
    let config = immaterium::AiConfig::default();
    assert_eq!(config.default_provider, "ollama");
    assert!(config.enable_suggestions);
    assert_eq!(config.operation_mode, immaterium::OperationMode::Hybrid);
    assert!(config.providers.contains_key("ollama"));
    assert!(config.providers.contains_key("openai"));
    assert!(config.providers.contains_key("groq"));
}

#[test]
fn test_ai_error_messages() {
    assert_eq!(
        AiError::NotConfigured("groq".to_string()).message(),
        "Provider not configured: groq"
    );
    assert_eq!(AiError::RateLimitExceeded.message(), "Rate limit exceeded");
    assert_eq!(
        AiError::NetworkError("timeout".to_string()).message(),
        "Network error: timeout"
    );
}

#[test]
fn test_process_handle_lifecycle() {
    let mut handle = ProcessHandle::new("sleep 10".to_string());
    assert!(handle.is_running());
    assert_eq!(handle.get_status(), ProcessStatus::Running);
    assert!(!handle.should_cancel);

    handle.cancel();
    assert!(handle.should_cancel);
    assert_eq!(handle.get_status(), ProcessStatus::Killed);
    assert!(!handle.is_running());

    let mut finished = ProcessHandle::new("true".to_string());
    finished.set_status(ProcessStatus::Completed(0));
    assert_eq!(finished.get_status(), ProcessStatus::Completed(0));
}

#[test]
fn test_autosave_cycle() {
    let mut policy = AutoSavePolicy::new(30, 0);
    // Nothing changed yet: no save is due, however long it has been.
    assert!(!policy.should_save(1_000_000));

    // A change marks the policy dirty, but the interval still gates the save.
    policy.mark_dirty();
    assert!(!policy.should_save(29_999));
    assert!(policy.should_save(30_000));

    // A completed round resets the flag and the timer.
    policy.mark_saved(30_000);
    assert!(!policy.should_save(59_999));
    // Another save comes only once dirty again and the interval elapsed.
    policy.mark_dirty();
    assert!(!policy.should_save(59_999));
    assert!(policy.should_save(60_000));
}

#[test]
fn test_panel_mode_transitions() {
    let mut panel = AiPanel::new();
    assert!(!panel.is_open());
    panel.toggle_sidebar();
    assert!(panel.is_open());
    assert_eq!(*panel.mode(), AiPanelMode::Sidebar);
    panel.toggle_sidebar();
    assert!(!panel.is_open());
    panel.set_mode(AiPanelMode::FullPanel);
    panel.toggle_sidebar();
    assert_eq!(*panel.mode(), AiPanelMode::Sidebar);
}

#[test]
fn test_panel_streaming_response() {
    let mut panel = AiPanel::new();
    panel.start_streaming();
    panel.append_response("Hel".to_string());
    panel.append_response("lo".to_string());
    panel.stop_streaming();
    panel.add_user_message("hi".to_string());
    panel.add_assistant_message("Hello".to_string());
    panel.set_selected_provider("groq".to_string());
    assert_eq!(panel.selected_provider(), "groq");
    panel.set_available_models(vec!["m1".to_string(), "m2".to_string()]);
    assert_eq!(panel.selected_model(), "m1");
    panel.clear_conversation();
}

#[test]
fn test_number_rendering() {
    assert_eq!(immaterium::digits::u64_string(0), "0");
    assert_eq!(immaterium::digits::u64_string(90210), "90210");
    assert_eq!(immaterium::digits::i64_string(-42), "-42");
    assert_eq!(immaterium::digits::i64_string(7), "7");
}

#[test]
fn test_input_dispatch() {
    // Blank input and a busy executor are always ignored.
    assert_eq!(
        classify_input(OperationMode::Hybrid, true, false, true, false),
        InputDisposition::Ignore
    );
    assert_eq!(
        classify_input(OperationMode::TerminalOnly, true, true, false, false),
        InputDisposition::Ignore
    );
    // The operation mode rules otherwise.
    assert_eq!(
        classify_input(OperationMode::TerminalOnly, true, false, false, true),
        InputDisposition::RunShell
    );
    assert_eq!(
        classify_input(OperationMode::AiPromptOnly, false, false, false, false),
        InputDisposition::GenerateCommand
    );
    assert_eq!(
        classify_input(OperationMode::Hybrid, true, false, false, true),
        InputDisposition::GenerateCommand
    );
    assert_eq!(
        classify_input(OperationMode::Hybrid, true, false, false, false),
        InputDisposition::RunShell
    );
    assert_eq!(
        classify_input(OperationMode::Hybrid, false, false, false, true),
        InputDisposition::RunShell
    );
}
