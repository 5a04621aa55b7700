//! Slash commands: parsing, completion, the registry and the commands.

use vstd::prelude::*;

use crate::commands::completion::{item_views, opt_string_view, CompletionItem, CompletionItemView};
use crate::text::views;

pub mod builtin;
pub mod command_laws;
pub mod completion;
pub mod mcp;
pub mod parser;
pub mod registry;
pub mod skill;
pub mod source_laws;

verus! {

/// What the agent may do.
#[derive(Clone, Copy, Debug, PartialEq, Eq, Structural)]
pub enum AgentMode {
    Research,
    Plan,
    Agent,
}

/// What an inspector shows.
#[derive(Clone, Copy, Debug, PartialEq, Eq, Structural)]
pub enum InspectorKind {
    Skills,
    Subagents,
    Peers,
    Context,
    Tools,
    Mcp,
}

/// What the front end does at once when a command was entered.
#[derive(Debug, PartialEq, Eq)]
pub enum ImmediateAction {
    Abort,
    ClearChat,
    NewConversation,
    Quit,
    RefreshSkills,
    OpenInspector { kind: InspectorKind },
    McpAuth { server: String },
    /// Ask a server for a prompt, with values for the prompt's arguments.
    FetchPrompt { server: String, prompt: String, arguments: Vec<(String, String)> },
}

pub enum ImmediateActionView {
    Abort,
    ClearChat,
    NewConversation,
    Quit,
    RefreshSkills,
    OpenInspector { kind: InspectorKind },
    McpAuth { server: Seq<char> },
    FetchPrompt { server: Seq<char>, prompt: Seq<char>, arguments: Seq<(Seq<char>, Seq<char>)> },
}

impl View for ImmediateAction {
    type V = ImmediateActionView;

    open spec fn view(&self) -> ImmediateActionView {
        match *self {
            ImmediateAction::Abort => ImmediateActionView::Abort,
            ImmediateAction::ClearChat => ImmediateActionView::ClearChat,
            ImmediateAction::NewConversation => ImmediateActionView::NewConversation,
            ImmediateAction::Quit => ImmediateActionView::Quit,
            ImmediateAction::RefreshSkills => ImmediateActionView::RefreshSkills,
            ImmediateAction::OpenInspector { kind } => ImmediateActionView::OpenInspector { kind },
            ImmediateAction::McpAuth { server } => ImmediateActionView::McpAuth { server: server@ },
            ImmediateAction::FetchPrompt { server, prompt, arguments } => {
                ImmediateActionView::FetchPrompt {
                    server: server@,
                    prompt: prompt@,
                    arguments: crate::chat::markdown::pair_views(arguments@),
                }
            },
        }
    }
}

/// What a command asks for.
#[derive(Debug, PartialEq, Eq)]
pub struct CommandResult {
    pub model_override: Option<String>,
    pub mode_override: Option<AgentMode>,
    pub message_to_send: Option<String>,
    pub immediate_action: Option<ImmediateAction>,
}

pub struct CommandResultView {
    pub model_override: Option<Seq<char>>,
    pub mode_override: Option<AgentMode>,
    pub message_to_send: Option<Seq<char>>,
    pub immediate_action: Option<ImmediateActionView>,
}

impl View for CommandResult {
    type V = CommandResultView;

    open spec fn view(&self) -> CommandResultView {
        CommandResultView {
            model_override: opt_string_view(self.model_override),
            mode_override: self.mode_override,
            message_to_send: opt_string_view(self.message_to_send),
            immediate_action: match self.immediate_action {
                Some(a) => Some(a@),
                None => None,
            },
        }
    }
}

/// The result that asks for nothing.
pub open spec fn no_result() -> CommandResultView {
    CommandResultView {
        model_override: None,
        mode_override: None,
        message_to_send: None,
        immediate_action: None,
    }
}

/// The result that asks for an immediate action only.
pub open spec fn action_result(action: ImmediateActionView) -> CommandResultView {
    CommandResultView { immediate_action: Some(action), ..no_result() }
}

/// The result that asks for a message to be sent only.
pub open spec fn message_result(message: Seq<char>) -> CommandResultView {
    CommandResultView { message_to_send: Some(message), ..no_result() }
}

impl Default for CommandResult {
    fn default() -> (r: CommandResult)
        ensures
            r@ == no_result(),
    {
        CommandResult {
            model_override: None,
            mode_override: None,
            message_to_send: None,
            immediate_action: None,
        }
    }
}

impl CommandResult {
    /// Asks for an immediate action only.
    pub fn action(action: ImmediateAction) -> (r: CommandResult)
        ensures
            r@ == action_result(action@),
    {
        CommandResult {
            model_override: None,
            mode_override: None,
            message_to_send: None,
            immediate_action: Some(action),
        }
    }

    /// Asks for a message to be sent only.
    pub fn message(message: String) -> (r: CommandResult)
        ensures
            r@ == message_result(message@),
    {
        CommandResult {
            model_override: None,
            mode_override: None,
            message_to_send: Some(message),
            immediate_action: None,
        }
    }
}

/// An argument of a command.
#[derive(Debug, PartialEq, Eq)]
pub struct CommandArgument {
    pub name: String,
    pub description: String,
    pub required: bool,
}

pub struct CommandArgumentView {
    pub name: Seq<char>,
    pub description: Seq<char>,
    pub required: bool,
}

impl View for CommandArgument {
    type V = CommandArgumentView;

    open spec fn view(&self) -> CommandArgumentView {
        CommandArgumentView {
            name: self.name@,
            description: self.description@,
            required: self.required,
        }
    }
}

/// The views of a list of arguments.
pub open spec fn argument_views(v: Seq<CommandArgument>) -> Seq<CommandArgumentView> {
    v.map_values(|a: CommandArgument| a@)
}

impl CommandArgument {
    /// An argument that has to be given.
    pub fn required(name: &str, description: &str) -> (r: CommandArgument)
        ensures
            r@ == (CommandArgumentView { name: name@, description: description@, required: true }),
    {
        CommandArgument {
            name: name.to_owned(),
            description: description.to_owned(),
            required: true,
        }
    }

    /// An argument that may be left out.
    pub fn optional(name: &str, description: &str) -> (r: CommandArgument)
        ensures
            r@ == (CommandArgumentView { name: name@, description: description@, required: false }),
    {
        CommandArgument {
            name: name.to_owned(),
            description: description.to_owned(),
            required: false,
        }
    }
}

/// A provider that the user has configured: its name, the driver behind it and
/// its model.
#[derive(Debug, PartialEq, Eq)]
pub struct ProviderEntry {
    pub name: String,
    pub provider: String,
    pub model: String,
}

/// A model of the built-in catalog.
#[derive(Debug, PartialEq, Eq)]
pub struct CatalogEntry {
    pub provider: String,
    pub id: String,
    pub description: String,
    pub context_window: u32,
    pub max_output_tokens: u32,
}

/// A built-in provider driver.
#[derive(Debug, PartialEq, Eq)]
pub struct DriverEntry {
    pub id: String,
    pub name: String,
    pub description: String,
}

/// What commands know of the session and the configuration.
#[derive(Debug, PartialEq, Eq)]
pub struct CommandContext {
    pub providers: Vec<ProviderEntry>,
    pub catalog: Vec<CatalogEntry>,
    pub drivers: Vec<DriverEntry>,
    pub mcp_servers: Vec<String>,
    pub current_model_provider: String,
    pub current_model_name: String,
}

pub struct ProviderView {
    pub name: Seq<char>,
    pub provider: Seq<char>,
    pub model: Seq<char>,
}

pub struct CatalogView {
    pub provider: Seq<char>,
    pub id: Seq<char>,
    pub description: Seq<char>,
    pub context_window: u32,
    pub max_output_tokens: u32,
}

pub struct DriverView {
    pub id: Seq<char>,
    pub name: Seq<char>,
    pub description: Seq<char>,
}

pub struct ContextView {
    pub providers: Seq<ProviderView>,
    pub catalog: Seq<CatalogView>,
    pub drivers: Seq<DriverView>,
    pub mcp_servers: Seq<Seq<char>>,
    pub current_model_provider: Seq<char>,
    pub current_model_name: Seq<char>,
}

impl View for ProviderEntry {
    type V = ProviderView;

    open spec fn view(&self) -> ProviderView {
        ProviderView { name: self.name@, provider: self.provider@, model: self.model@ }
    }
}

impl View for CatalogEntry {
    type V = CatalogView;

    open spec fn view(&self) -> CatalogView {
        CatalogView {
            provider: self.provider@,
            id: self.id@,
            description: self.description@,
            context_window: self.context_window,
            max_output_tokens: self.max_output_tokens,
        }
    }
}

impl View for DriverEntry {
    type V = DriverView;

    open spec fn view(&self) -> DriverView {
        DriverView { id: self.id@, name: self.name@, description: self.description@ }
    }
}

impl View for CommandContext {
    type V = ContextView;

    open spec fn view(&self) -> ContextView {
        ContextView {
            providers: self.providers@.map_values(|p: ProviderEntry| p@),
            catalog: self.catalog@.map_values(|c: CatalogEntry| c@),
            drivers: self.drivers@.map_values(|d: DriverEntry| d@),
            mcp_servers: views(self.mcp_servers@),
            current_model_provider: self.current_model_provider@,
            current_model_name: self.current_model_name@,
        }
    }
}

/// A slash command. The specification functions say what the executable ones
/// return.
pub trait SlashCommand {
    spec fn name_view(&self) -> Seq<char>;

    spec fn description_view(&self) -> Seq<char>;

    spec fn arguments_view(&self) -> Seq<CommandArgumentView>;

    spec fn completions(&self, arg_index: nat, partial: Seq<char>, ctx: ContextView) -> Seq<
        CompletionItemView,
    >;

    spec fn outcome(&self, args: Seq<Seq<char>>) -> CommandResultView;

    /// The name, without the slash.
    fn name(&self) -> (r: &str)
        ensures
            r@ == self.name_view(),
    ;

    /// One line on what the command does.
    fn description(&self) -> (r: &str)
        ensures
            r@ == self.description_view(),
    ;

    /// The arguments that the command takes.
    fn arguments(&self) -> (r: Vec<CommandArgument>)
        ensures
            argument_views(r@) == self.arguments_view(),
    ;

    /// The completions for an argument that is being typed.
    fn complete(&self, arg_index: usize, partial: &str, ctx: &CommandContext) -> (r: Vec<
        CompletionItem,
    >)
        ensures
            item_views(r@) == self.completions(arg_index as nat, partial@, ctx@),
    ;

    /// What the command asks for.
    fn execute(&self, args: Vec<String>) -> (r: CommandResult)
        ensures
            r@ == self.outcome(views(args@)),
    ;
}

} // verus!
