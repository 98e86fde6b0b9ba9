//! The assistant panel's state machine.
//!
//! Drawing is the embedding layer's affair; the panel's state — its mode, the
//! prompt, the streaming response, the chosen provider and model, and the
//! conversation history — changes only through the operations here.

use vstd::prelude::*;
use crate::clock::now_millis;

verus! {

/// How the assistant panel is shown.
#[derive(Debug, Clone, Copy, PartialEq, Eq, Structural)]
pub enum AiPanelMode {
    Closed,
    Sidebar,
    FullPanel,
}

/// Who said one entry of the panel's conversation.
#[derive(Debug, Clone, Copy, PartialEq, Eq, Structural)]
pub enum MessageRole {
    User,
    Assistant,
    System,
}

/// One entry of the panel's conversation, stamped in milliseconds since the
/// epoch.
#[derive(Debug, Clone)]
pub struct ConversationMessage {
    pub role: MessageRole,
    pub content: String,
    pub timestamp: i64,
}

/// What the interface asks the application to do on the panel's behalf.
#[derive(Debug, Clone)]
pub enum AiAction {
    ProviderChanged(String),
    LoadModels,
    SendPrompt(String),
}

/// What interacting with one drawn block asked for.
#[derive(Debug, Default)]
pub struct BlockResponse {
    pub selected: bool,
    pub toggle_collapsed: bool,
    pub show_context_menu: bool,
    pub approve_command: bool,
    pub reject_command: bool,
    pub edit_command: bool,
    pub regenerate_command: bool,
}

/// The assistant panel's state.
#[derive(Debug)]
pub struct AiPanel {
    mode: AiPanelMode,
    prompt: String,
    response: String,
    is_streaming: bool,
    selected_provider: String,
    selected_model: String,
    available_models: Vec<String>,
    pub include_context: bool,
    pub context_blocks: usize,
    conversation: Vec<ConversationMessage>,
}

impl AiPanel {
    /// The display mode.
    pub closed spec fn spec_mode(self) -> AiPanelMode {
        self.mode
    }

    /// The accumulated response text.
    pub closed spec fn spec_response(self) -> Seq<char> {
        self.response@
    }

    /// Whether a response is streaming in.
    pub closed spec fn spec_streaming(self) -> bool {
        self.is_streaming
    }

    /// The chosen provider's name.
    pub closed spec fn spec_provider(self) -> Seq<char> {
        self.selected_provider@
    }

    /// The chosen model's name.
    pub closed spec fn spec_model(self) -> Seq<char> {
        self.selected_model@
    }

    /// The models offered for the chosen provider.
    pub closed spec fn spec_models(self) -> Seq<String> {
        self.available_models@
    }

    /// The conversation so far.
    pub closed spec fn spec_conversation(self) -> Seq<ConversationMessage> {
        self.conversation@
    }

    /// The prompt being typed.
    pub closed spec fn spec_prompt(self) -> Seq<char> {
        self.prompt@
    }

    /// Whether recent blocks are offered as context.
    pub closed spec fn spec_include_context(self) -> bool {
        self.include_context
    }

    /// How many recent blocks are offered as context.
    pub closed spec fn spec_context_blocks(self) -> int {
        self.context_blocks as int
    }

    /// A closed panel with an empty conversation, pointed at the local
    /// provider, including the five most recent blocks as context.
    pub fn new() -> (p: AiPanel)
        ensures
            p.spec_mode() == AiPanelMode::Closed,
            p.spec_response() == Seq::<char>::empty(),
            !p.spec_streaming(),
            p.spec_provider() == "ollama"@,
            p.spec_model() == Seq::<char>::empty(),
            p.spec_models() == Seq::<String>::empty(),
            p.spec_include_context(),
            p.spec_context_blocks() == 5,
            p.spec_conversation() == Seq::<ConversationMessage>::empty(),
    {
        AiPanel {
            mode: AiPanelMode::Closed,
            prompt: String::new(),
            response: String::new(),
            is_streaming: false,
            selected_provider: String::from_str("ollama"),
            selected_model: String::new(),
            available_models: Vec::new(),
            include_context: true,
            context_blocks: 5,
            conversation: Vec::new(),
        }
    }

    /// The display mode.
    pub fn mode(&self) -> (r: &AiPanelMode)
        ensures
            *r == self.spec_mode(),
    {
        &self.mode
    }

    /// Set the display mode.
    pub fn set_mode(&mut self, mode: AiPanelMode)
        ensures
            final(self).spec_mode() == mode,
            final(self).unchanged_but_mode(*old(self)),
    {
        self.mode = mode;
    }

    /// Everything but the mode is as in `other`.
    pub open spec fn unchanged_but_mode(self, other: AiPanel) -> bool {
        &&& self.spec_response() == other.spec_response()
        &&& self.spec_streaming() == other.spec_streaming()
        &&& self.spec_provider() == other.spec_provider()
        &&& self.spec_model() == other.spec_model()
        &&& self.spec_models() == other.spec_models()
        &&& self.spec_conversation() == other.spec_conversation()
        &&& self.spec_include_context() == other.spec_include_context()
        &&& self.spec_context_blocks() == other.spec_context_blocks()
    }

    /// Flip between closed and sidebar; a full panel shrinks to the sidebar.
    pub fn toggle_sidebar(&mut self)
        ensures
            final(self).spec_mode() == (match old(self).spec_mode() {
                AiPanelMode::Closed => AiPanelMode::Sidebar,
                AiPanelMode::Sidebar => AiPanelMode::Closed,
                AiPanelMode::FullPanel => AiPanelMode::Sidebar,
            }),
            final(self).unchanged_but_mode(*old(self)),
    {
        self.mode = match self.mode {
            AiPanelMode::Closed => AiPanelMode::Sidebar,
            AiPanelMode::Sidebar => AiPanelMode::Closed,
            AiPanelMode::FullPanel => AiPanelMode::Sidebar,
        };
    }

    /// True unless the panel is closed.
    pub fn is_open(&self) -> (r: bool)
        ensures
            r == (self.spec_mode() != AiPanelMode::Closed),
    {
        match self.mode {
            AiPanelMode::Closed => false,
            _ => true,
        }
    }

    /// Replace the prompt being typed.
    pub fn set_prompt(&mut self, prompt: String)
        ensures
            final(self).spec_prompt() == prompt@,
            final(self).spec_mode() == old(self).spec_mode(),
            final(self).spec_conversation() == old(self).spec_conversation(),
    {
        self.prompt = prompt;
    }

    /// Take the typed prompt to send it, leaving the input empty.
    pub fn take_prompt(&mut self) -> (r: String)
        ensures
            r@ == old(self).spec_prompt(),
            final(self).spec_prompt() == Seq::<char>::empty(),
            final(self).spec_mode() == old(self).spec_mode(),
            final(self).spec_conversation() == old(self).spec_conversation(),
    {
        let prompt = self.prompt.clone();
        self.prompt = String::new();
        prompt
    }

    /// The chosen provider's name.
    pub fn selected_provider(&self) -> (r: &String)
        ensures
            r@ == self.spec_provider(),
    {
        &self.selected_provider
    }

    /// The chosen model's name.
    pub fn selected_model(&self) -> (r: &String)
        ensures
            r@ == self.spec_model(),
    {
        &self.selected_model
    }

    /// Point the panel at another provider; its model list must be fetched
    /// anew.
    pub fn set_selected_provider(&mut self, provider: String)
        ensures
            final(self).spec_provider() == provider@,
            final(self).spec_models() == Seq::<String>::empty(),
            final(self).spec_mode() == old(self).spec_mode(),
            final(self).spec_conversation() == old(self).spec_conversation(),
    {
        self.selected_provider = provider;
        self.available_models.clear();
    }

    /// Offer a fetched model list; the first entry becomes the chosen model
    /// if none was chosen yet.
    pub fn set_available_models(&mut self, models: Vec<String>)
        ensures
            final(self).spec_models() == models@,
            (models@.len() > 0 && old(self).spec_model().len() == 0 ==> final(self).spec_model()
                == models@[0]@),
            (old(self).spec_model().len() > 0 ==> final(self).spec_model() == old(
                self,
            ).spec_model()),
    {
        self.available_models = models;
        if self.available_models.len() > 0 && self.selected_model.as_str().is_empty() {
            self.selected_model = self.available_models[0].clone();
        }
    }

    /// Append what the user said to the conversation.
    pub fn add_user_message(&mut self, content: String)
        ensures
            final(self).spec_conversation().len() == old(self).spec_conversation().len() + 1,
            final(self).spec_conversation().last().role == MessageRole::User,
            final(self).spec_conversation().last().content == content,
            final(self).spec_conversation().take(old(self).spec_conversation().len() as int)
                == old(self).spec_conversation(),
    {
        self.conversation.push(
            ConversationMessage { role: MessageRole::User, content, timestamp: now_millis() },
        );
        proof {
            assert(self.conversation@.take(self.conversation@.len() - 1) =~= old(
                self,
            ).conversation@);
        }
    }

    /// Append what the assistant answered to the conversation.
    pub fn add_assistant_message(&mut self, content: String)
        ensures
            final(self).spec_conversation().len() == old(self).spec_conversation().len() + 1,
            final(self).spec_conversation().last().role == MessageRole::Assistant,
            final(self).spec_conversation().last().content == content,
            final(self).spec_conversation().take(old(self).spec_conversation().len() as int)
                == old(self).spec_conversation(),
    {
        self.conversation.push(
            ConversationMessage { role: MessageRole::Assistant, content, timestamp: now_millis() },
        );
        proof {
            assert(self.conversation@.take(self.conversation@.len() - 1) =~= old(
                self,
            ).conversation@);
        }
    }

    /// Drop the conversation and the response text together.
    pub fn clear_conversation(&mut self)
        ensures
            final(self).spec_conversation() == Seq::<ConversationMessage>::empty(),
            final(self).spec_response() == Seq::<char>::empty(),
            final(self).spec_mode() == old(self).spec_mode(),
    {
        self.conversation.clear();
        self.response = String::new();
    }

    /// Replace the response with a complete answer; streaming ends.
    pub fn set_response(&mut self, response: String)
        ensures
            final(self).spec_response() == response@,
            !final(self).spec_streaming(),
    {
        self.response = response;
        self.is_streaming = false;
    }

    /// Append one streamed chunk to the response.
    pub fn append_response(&mut self, chunk: String)
        ensures
            final(self).spec_response() == old(self).spec_response() + chunk@,
            final(self).spec_streaming() == old(self).spec_streaming(),
    {
        self.response.append(chunk.as_str());
    }

    /// A fresh answer starts streaming in: the old response clears.
    pub fn start_streaming(&mut self)
        ensures
            final(self).spec_streaming(),
            final(self).spec_response() == Seq::<char>::empty(),
    {
        self.is_streaming = true;
        self.response = String::new();
    }

    /// The stream ended; the response stays.
    pub fn stop_streaming(&mut self)
        ensures
            !final(self).spec_streaming(),
            final(self).spec_response() == old(self).spec_response(),
            final(self).spec_mode() == old(self).spec_mode(),
    {
        self.is_streaming = false;
    }
}

impl Default for AiPanel {
    /// The default panel is the fresh closed one.
    fn default() -> (p: AiPanel)
        ensures
            p.spec_mode() == AiPanelMode::Closed,
            !p.spec_streaming(),
            p.spec_conversation() == Seq::<ConversationMessage>::empty(),
    {
        AiPanel::new()
    }
}

} // verus!
