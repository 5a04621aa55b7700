//! Slash commands for the prompts of MCP servers.

use vstd::prelude::*;

use crate::chat::markdown::pair_views;
use crate::commands::builtin::{no_arguments, no_completions};
use crate::commands::completion::{item_views, CompletionItem, CompletionItemView};
use crate::commands::{
    action_result, message_result, no_result, CommandArgument, CommandArgumentView, CommandContext,
    CommandResult, CommandResultView, ContextView, ImmediateAction, ImmediateActionView, SlashCommand,
};
use crate::text::views;

verus! {

/// An argument of a prompt.
#[derive(Debug, PartialEq, Eq)]
pub struct McpPromptArgInfo {
    pub name: String,
    pub description: String,
}

pub struct McpPromptArgView {
    pub name: Seq<char>,
    pub description: Seq<char>,
}

impl View for McpPromptArgInfo {
    type V = McpPromptArgView;

    open spec fn view(&self) -> McpPromptArgView {
        McpPromptArgView { name: self.name@, description: self.description@ }
    }
}

/// The views of the arguments of a prompt.
pub open spec fn arg_info_views(v: Seq<McpPromptArgInfo>) -> Seq<McpPromptArgView> {
    v.map_values(|a: McpPromptArgInfo| a@)
}

/// A prompt that a server offers.
#[derive(Debug, PartialEq, Eq)]
pub struct McpPromptInfo {
    /// `<server>/<prompt>`.
    pub slash_path: String,
    pub description: String,
    pub arguments: Vec<McpPromptArgInfo>,
    pub server_name: String,
    pub prompt_name: String,
}

/// A slash command that fetches a prompt and sends it. Values for the prompt's
/// arguments are given by position.
#[derive(Debug, PartialEq, Eq)]
pub struct McpPromptCommand {
    pub name: String,
    pub description: String,
    pub args: Vec<McpPromptArgInfo>,
    pub server_name: String,
    pub prompt_name: String,
}

/// Names and values of arguments, as far as there are both.
pub open spec fn paired(defs: Seq<McpPromptArgView>, args: Seq<Seq<char>>) -> Seq<
    (Seq<char>, Seq<char>),
> {
    Seq::new(
        if defs.len() <= args.len() {
            defs.len()
        } else {
            args.len()
        },
        |i: int| (defs[i].name, args[i]),
    )
}

/// The entry that names an argument.
pub open spec fn hint_item(arg: McpPromptArgView) -> CompletionItemView {
    CompletionItemView {
        value: "<"@ + arg.name + ">"@,
        display: "<"@ + arg.name + ">"@,
        description: if arg.description.len() == 0 {
            None
        } else {
            Some(arg.description)
        },
        score: 0,
    }
}

/// What follows from the answer of the server: a prompt is sent, an empty one
/// is not, and a failure is reported in a message.
pub open spec fn prompt_outcome(
    name: Seq<char>,
    answer: Result<Seq<char>, Seq<char>>,
) -> CommandResultView {
    match answer {
        Ok(text) => if text.len() > 0 {
            message_result(text)
        } else {
            no_result()
        },
        Err(e) => message_result("Error fetching MCP prompt `"@ + name + "`: "@ + e),
    }
}

/// The command of a prompt.
pub open spec fn prompt_command(info: McpPromptInfo) -> McpPromptCommand {
    McpPromptCommand {
        name: info.slash_path,
        description: info.description,
        args: info.arguments,
        server_name: info.server_name,
        prompt_name: info.prompt_name,
    }
}

impl McpPromptCommand {
    /// The command of a prompt.
    pub fn from_info(info: McpPromptInfo) -> (r: McpPromptCommand)
        ensures
            r == prompt_command(info),
    {
        McpPromptCommand {
            name: info.slash_path,
            description: info.description,
            args: info.arguments,
            server_name: info.server_name,
            prompt_name: info.prompt_name,
        }
    }

    /// What follows from the answer of the server.
    pub fn prompt_result(&self, answer: Result<String, String>) -> (r: CommandResult)
        ensures
            r@ == prompt_outcome(
                self.name@,
                match answer {
                    Ok(text) => Ok(text@),
                    Err(e) => Err(e@),
                },
            ),
    {
        match answer {
            Ok(text) => {
                if text.as_str().is_empty() {
                    CommandResult::default()
                } else {
                    CommandResult::message(text)
                }
            },
            Err(e) => {
                let mut out = "Error fetching MCP prompt `".to_owned();
                out.append(self.name.as_str());
                out.append("`: ");
                out.append(e.as_str());
                CommandResult::message(out)
            },
        }
    }

    /// Pairs argument names with the values given.
    fn pair_arguments(&self, args: &Vec<String>) -> (r: Vec<(String, String)>)
        ensures
            pair_views(r@) == paired(arg_info_views(self.args@), views(args@)),
    {
        let mut out: Vec<(String, String)> = Vec::new();
        let mut i: usize = 0;
        while i < self.args.len() && i < args.len()
            invariant
                i <= self.args@.len(),
                i <= args@.len(),
                out@.len() == i,
                forall|k: int|
                    0 <= k < i ==> (#[trigger] out@[k]).0@ == self.args@[k].name@ && out@[k].1@
                        == args@[k]@,
            decreases args.len() - i,
        {
            out.push((self.args[i].name.clone(), args[i].clone()));
            i += 1;
        }
        assert(pair_views(out@) =~= paired(arg_info_views(self.args@), views(args@)));
        out
    }
}

impl SlashCommand for McpPromptCommand {
    open spec fn name_view(&self) -> Seq<char> {
        self.name@
    }

    open spec fn description_view(&self) -> Seq<char> {
        self.description@
    }

    open spec fn arguments_view(&self) -> Seq<CommandArgumentView> {
        seq![]
    }

    open spec fn completions(&self, arg_index: nat, partial: Seq<char>, ctx: ContextView) -> Seq<
        CompletionItemView,
    > {
        if arg_index < self.args@.len() && partial.len() == 0 {
            seq![hint_item(self.args@[arg_index as int]@)]
        } else {
            seq![]
        }
    }

    open spec fn outcome(&self, args: Seq<Seq<char>>) -> CommandResultView {
        action_result(
            ImmediateActionView::FetchPrompt {
                server: self.server_name@,
                prompt: self.prompt_name@,
                arguments: paired(arg_info_views(self.args@), args),
            },
        )
    }

    fn name(&self) -> (r: &str) {
        self.name.as_str()
    }

    fn description(&self) -> (r: &str) {
        self.description.as_str()
    }

    fn arguments(&self) -> (r: Vec<CommandArgument>) {
        no_arguments()
    }

    fn complete(&self, arg_index: usize, partial: &str, ctx: &CommandContext) -> (r: Vec<
        CompletionItem,
    >) {
        let mut out = no_completions();
        if arg_index < self.args.len() && partial.is_empty() {
            let arg = &self.args[arg_index];
            let mut value = "<".to_owned();
            value.append(arg.name.as_str());
            value.append(">");
            let description = if arg.description.as_str().is_empty() {
                None
            } else {
                Some(arg.description.clone())
            };
            let display = value.clone();
            let item = CompletionItem { value, display, description, score: 0 };
            out.push(item);
            assert(item_views(out@) =~= seq![item@]);
            assert(item@ == hint_item(arg@));
        }
        out
    }

    fn execute(&self, args: Vec<String>) -> (r: CommandResult) {
        let arguments = self.pair_arguments(&args);
        CommandResult::action(
            ImmediateAction::FetchPrompt {
                server: self.server_name.clone(),
                prompt: self.prompt_name.clone(),
                arguments,
            },
        )
    }
}

/// The commands of the prompts that the servers offer.
pub fn discover_mcp_prompts(infos: Vec<McpPromptInfo>) -> (r: Vec<McpPromptCommand>)
    ensures
        r@ == infos@.map_values(|i: McpPromptInfo| prompt_command(i)),
{
    let ghost all = infos@;
    let mut rest = infos;
    let mut out: Vec<McpPromptCommand> = Vec::new();
    while rest.len() > 0
        invariant
            out@.len() + rest@.len() == all.len(),
            rest@ == all.skip(out@.len() as int),
            forall|k: int| 0 <= k < out@.len() ==> out@[k] == prompt_command(#[trigger] all[k]),
        decreases rest.len(),
    {
        let ghost n = out@.len() as int;
        let info = rest.remove(0);
        assert(info == all[n]);
        out.push(McpPromptCommand::from_info(info));
        assert(rest@ =~= all.skip(n + 1));
    }
    assert(out@ =~= all.map_values(|i: McpPromptInfo| prompt_command(i)));
    out
}

} // verus!
