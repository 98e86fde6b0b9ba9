//! Configuration schema: the plain settings the terminal core reads.
//!
//! Loading, saving and environment-variable expansion live with the embedding
//! layer; here stand the setting types themselves and their defaults.

use vstd::prelude::*;
use std::collections::HashMap;

verus! {

/// General behaviour: the shell to spawn, history, and the auto-save timer.
#[derive(Debug, Clone)]
pub struct GeneralConfig {
    pub default_shell: String,
    pub save_history: bool,
    pub max_history_size: usize,
    /// Seconds between auto-save rounds.
    pub auto_save_interval: u64,
}

impl Default for GeneralConfig {
    /// Bash, history on, ten thousand entries, a save every thirty seconds.
    fn default() -> (c: GeneralConfig)
        ensures
            c.default_shell@ == "/bin/bash"@,
            c.save_history,
            c.max_history_size == 10000,
            c.auto_save_interval == 30,
    {
        GeneralConfig {
            default_shell: String::from_str("/bin/bash"),
            save_history: true,
            max_history_size: 10000,
            auto_save_interval: 30,
        }
    }
}

/// How typed input is interpreted.
#[derive(Debug, Clone, Copy, PartialEq, Eq, Structural)]
pub enum OperationMode {
    /// Every input is a shell command.
    TerminalOnly,
    /// Every input is a prompt for command generation.
    AiPromptOnly,
    /// Natural language is detected and converted; the rest runs as typed.
    Hybrid,
}

/// One model provider's connection settings.
#[derive(Debug, Clone)]
pub struct AiProviderConfig {
    pub base_url: Option<String>,
    pub api_key: Option<String>,
    pub model: String,
    pub enabled: bool,
}

/// The assistant settings: which provider answers by default and how input is
/// interpreted.
#[derive(Debug, Clone)]
pub struct AiConfig {
    pub default_provider: String,
    pub enable_suggestions: bool,
    pub operation_mode: OperationMode,
    pub providers: HashMap<String, AiProviderConfig>,
    pub selected_model: Option<String>,
}

impl Default for AiConfig {
    /// A local provider by default, suggestions on, hybrid input handling.
    fn default() -> (c: AiConfig)
        ensures
            c.default_provider@ == "ollama"@,
            c.enable_suggestions,
            c.operation_mode == OperationMode::Hybrid,
            c.selected_model is None,
    {
        let mut providers: HashMap<String, AiProviderConfig> = HashMap::new();
        providers.insert(
            String::from_str("ollama"),
            AiProviderConfig {
                base_url: Some(String::from_str("http://localhost:11434")),
                api_key: None,
                model: String::from_str("codellama"),
                enabled: true,
            },
        );
        providers.insert(
            String::from_str("openai"),
            AiProviderConfig {
                base_url: None,
                api_key: Some(String::from_str("${OPENAI_API_KEY}")),
                model: String::from_str("gpt-4"),
                enabled: false,
            },
        );
        providers.insert(
            String::from_str("groq"),
            AiProviderConfig {
                base_url: Some(String::from_str("https://api.groq.com/openai/v1")),
                api_key: Some(String::from_str("${GROQ_API_KEY}")),
                model: String::from_str("mixtral-8x7b-32768"),
                enabled: false,
            },
        );
        AiConfig {
            default_provider: String::from_str("ollama"),
            enable_suggestions: true,
            operation_mode: OperationMode::Hybrid,
            providers,
            selected_model: None,
        }
    }
}

/// One tool server: its command line and environment.
#[derive(Debug, Clone)]
pub struct McpServerConfig {
    pub name: String,
    pub command: String,
    pub args: Vec<String>,
    pub env: HashMap<String, String>,
    pub auto_start: bool,
}

/// The configured tool servers.
#[derive(Debug, Clone)]
pub struct McpConfig {
    pub servers: Vec<McpServerConfig>,
}

impl Default for McpConfig {
    /// No tool servers configured.
    fn default() -> (c: McpConfig)
        ensures
            c.servers@.len() == 0,
    {
        McpConfig { servers: Vec::new() }
    }
}

/// The key chords bound to the interface actions.
#[derive(Debug, Clone)]
pub struct KeybindingsConfig {
    pub new_block: String,
    pub ai_suggest: String,
    pub search: String,
    pub history: String,
    pub split_horizontal: String,
    pub split_vertical: String,
    pub close_pane: String,
    pub settings: String,
}

impl Default for KeybindingsConfig {
    /// The stock bindings.
    fn default() -> (c: KeybindingsConfig)
        ensures
            c.new_block@ == "Ctrl+Enter"@,
            c.ai_suggest@ == "Ctrl+Space"@,
            c.search@ == "Ctrl+F"@,
            c.history@ == "Ctrl+R"@,
            c.split_horizontal@ == "Ctrl+Shift+H"@,
            c.split_vertical@ == "Ctrl+Shift+V"@,
            c.close_pane@ == "Ctrl+Shift+W"@,
            c.settings@ == "Ctrl+,"@,
    {
        KeybindingsConfig {
            new_block: String::from_str("Ctrl+Enter"),
            ai_suggest: String::from_str("Ctrl+Space"),
            search: String::from_str("Ctrl+F"),
            history: String::from_str("Ctrl+R"),
            split_horizontal: String::from_str("Ctrl+Shift+H"),
            split_vertical: String::from_str("Ctrl+Shift+V"),
            close_pane: String::from_str("Ctrl+Shift+W"),
            settings: String::from_str("Ctrl+,"),
        }
    }
}

} // verus!
