//! The registry of slash commands.

use vstd::prelude::*;

use crate::commands::builtin::{
    AbortCommand, ClearCommand, ContextCommand, McpCommand, ModeCommand, ModelCommand, NewCommand,
    PeersCommand, ProviderCommand, QuitCommand, RefreshCommand, SkillsCommand, SubagentsCommand,
    ToolsCommand,
};
use crate::commands::completion::{CompletionItem, CompletionItemView};
use crate::commands::mcp::{discover_mcp_prompts, prompt_command, McpPromptCommand, McpPromptInfo};
use crate::commands::skill::{
    make_agent_slash_commands, make_command_slash_commands, AgentCommand, AgentInfo, SkillCommand, SkillInfo,
};
use crate::commands::{
    CommandArgument, CommandArgumentView, CommandContext, CommandResult, CommandResultView, ContextView,
    SlashCommand,
};
use crate::order::{indices, key_views, sorted_order, SortKey, SortKeyView};
use crate::text::str_eq;

verus! {

/// Any of the commands.
#[derive(Debug)]
pub enum Command {
    Abort(AbortCommand),
    Clear(ClearCommand),
    Model(ModelCommand),
    Provider(ProviderCommand),
    Mode(ModeCommand),
    Quit(QuitCommand),
    Refresh(RefreshCommand),
    New(NewCommand),
    Skills(SkillsCommand),
    Subagents(SubagentsCommand),
    Peers(PeersCommand),
    Context(ContextCommand),
    Tools(ToolsCommand),
    Mcp(McpCommand),
    Skill(SkillCommand),
    Agent(AgentCommand),
    McpPrompt(McpPromptCommand),
}

impl SlashCommand for Command {
    open spec fn name_view(&self) -> Seq<char> {
        match self {
            Command::Abort(c) => c.name_view(),
            Command::Clear(c) => c.name_view(),
            Command::Model(c) => c.name_view(),
            Command::Provider(c) => c.name_view(),
            Command::Mode(c) => c.name_view(),
            Command::Quit(c) => c.name_view(),
            Command::Refresh(c) => c.name_view(),
            Command::New(c) => c.name_view(),
            Command::Skills(c) => c.name_view(),
            Command::Subagents(c) => c.name_view(),
            Command::Peers(c) => c.name_view(),
            Command::Context(c) => c.name_view(),
            Command::Tools(c) => c.name_view(),
            Command::Mcp(c) => c.name_view(),
            Command::Skill(c) => c.name_view(),
            Command::Agent(c) => c.name_view(),
            Command::McpPrompt(c) => c.name_view(),
        }
    }

    open spec fn description_view(&self) -> Seq<char> {
        match self {
            Command::Abort(c) => c.description_view(),
            Command::Clear(c) => c.description_view(),
            Command::Model(c) => c.description_view(),
            Command::Provider(c) => c.description_view(),
            Command::Mode(c) => c.description_view(),
            Command::Quit(c) => c.description_view(),
            Command::Refresh(c) => c.description_view(),
            Command::New(c) => c.description_view(),
            Command::Skills(c) => c.description_view(),
            Command::Subagents(c) => c.description_view(),
            Command::Peers(c) => c.description_view(),
            Command::Context(c) => c.description_view(),
            Command::Tools(c) => c.description_view(),
            Command::Mcp(c) => c.description_view(),
            Command::Skill(c) => c.description_view(),
            Command::Agent(c) => c.description_view(),
            Command::McpPrompt(c) => c.description_view(),
        }
    }

    open spec fn arguments_view(&self) -> Seq<CommandArgumentView> {
        match self {
            Command::Abort(c) => c.arguments_view(),
            Command::Clear(c) => c.arguments_view(),
            Command::Model(c) => c.arguments_view(),
            Command::Provider(c) => c.arguments_view(),
            Command::Mode(c) => c.arguments_view(),
            Command::Quit(c) => c.arguments_view(),
            Command::Refresh(c) => c.arguments_view(),
            Command::New(c) => c.arguments_view(),
            Command::Skills(c) => c.arguments_view(),
            Command::Subagents(c) => c.arguments_view(),
            Command::Peers(c) => c.arguments_view(),
            Command::Context(c) => c.arguments_view(),
            Command::Tools(c) => c.arguments_view(),
            Command::Mcp(c) => c.arguments_view(),
            Command::Skill(c) => c.arguments_view(),
            Command::Agent(c) => c.arguments_view(),
            Command::McpPrompt(c) => c.arguments_view(),
        }
    }

    open spec fn completions(&self, arg_index: nat, partial: Seq<char>, ctx: ContextView) -> Seq<
        CompletionItemView,
    > {
        match self {
            Command::Abort(c) => c.completions(arg_index, partial, ctx),
            Command::Clear(c) => c.completions(arg_index, partial, ctx),
            Command::Model(c) => c.completions(arg_index, partial, ctx),
            Command::Provider(c) => c.completions(arg_index, partial, ctx),
            Command::Mode(c) => c.completions(arg_index, partial, ctx),
            Command::Quit(c) => c.completions(arg_index, partial, ctx),
            Command::Refresh(c) => c.completions(arg_index, partial, ctx),
            Command::New(c) => c.completions(arg_index, partial, ctx),
            Command::Skills(c) => c.completions(arg_index, partial, ctx),
            Command::Subagents(c) => c.completions(arg_index, partial, ctx),
            Command::Peers(c) => c.completions(arg_index, partial, ctx),
            Command::Context(c) => c.completions(arg_index, partial, ctx),
            Command::Tools(c) => c.completions(arg_index, partial, ctx),
            Command::Mcp(c) => c.completions(arg_index, partial, ctx),
            Command::Skill(c) => c.completions(arg_index, partial, ctx),
            Command::Agent(c) => c.completions(arg_index, partial, ctx),
            Command::McpPrompt(c) => c.completions(arg_index, partial, ctx),
        }
    }

    open spec fn outcome(&self, args: Seq<Seq<char>>) -> CommandResultView {
        match self {
            Command::Abort(c) => c.outcome(args),
            Command::Clear(c) => c.outcome(args),
            Command::Model(c) => c.outcome(args),
            Command::Provider(c) => c.outcome(args),
            Command::Mode(c) => c.outcome(args),
            Command::Quit(c) => c.outcome(args),
            Command::Refresh(c) => c.outcome(args),
            Command::New(c) => c.outcome(args),
            Command::Skills(c) => c.outcome(args),
            Command::Subagents(c) => c.outcome(args),
            Command::Peers(c) => c.outcome(args),
            Command::Context(c) => c.outcome(args),
            Command::Tools(c) => c.outcome(args),
            Command::Mcp(c) => c.outcome(args),
            Command::Skill(c) => c.outcome(args),
            Command::Agent(c) => c.outcome(args),
            Command::McpPrompt(c) => c.outcome(args),
        }
    }

    fn name(&self) -> (r: &str) {
        match self {
            Command::Abort(c) => c.name(),
            Command::Clear(c) => c.name(),
            Command::Model(c) => c.name(),
            Command::Provider(c) => c.name(),
            Command::Mode(c) => c.name(),
            Command::Quit(c) => c.name(),
            Command::Refresh(c) => c.name(),
            Command::New(c) => c.name(),
            Command::Skills(c) => c.name(),
            Command::Subagents(c) => c.name(),
            Command::Peers(c) => c.name(),
            Command::Context(c) => c.name(),
            Command::Tools(c) => c.name(),
            Command::Mcp(c) => c.name(),
            Command::Skill(c) => c.name(),
            Command::Agent(c) => c.name(),
            Command::McpPrompt(c) => c.name(),
        }
    }

    fn description(&self) -> (r: &str) {
        match self {
            Command::Abort(c) => c.description(),
            Command::Clear(c) => c.description(),
            Command::Model(c) => c.description(),
            Command::Provider(c) => c.description(),
            Command::Mode(c) => c.description(),
            Command::Quit(c) => c.description(),
            Command::Refresh(c) => c.description(),
            Command::New(c) => c.description(),
            Command::Skills(c) => c.description(),
            Command::Subagents(c) => c.description(),
            Command::Peers(c) => c.description(),
            Command::Context(c) => c.description(),
            Command::Tools(c) => c.description(),
            Command::Mcp(c) => c.description(),
            Command::Skill(c) => c.description(),
            Command::Agent(c) => c.description(),
            Command::McpPrompt(c) => c.description(),
        }
    }

    fn arguments(&self) -> (r: Vec<CommandArgument>) {
        match self {
            Command::Abort(c) => c.arguments(),
            Command::Clear(c) => c.arguments(),
            Command::Model(c) => c.arguments(),
            Command::Provider(c) => c.arguments(),
            Command::Mode(c) => c.arguments(),
            Command::Quit(c) => c.arguments(),
            Command::Refresh(c) => c.arguments(),
            Command::New(c) => c.arguments(),
            Command::Skills(c) => c.arguments(),
            Command::Subagents(c) => c.arguments(),
            Command::Peers(c) => c.arguments(),
            Command::Context(c) => c.arguments(),
            Command::Tools(c) => c.arguments(),
            Command::Mcp(c) => c.arguments(),
            Command::Skill(c) => c.arguments(),
            Command::Agent(c) => c.arguments(),
            Command::McpPrompt(c) => c.arguments(),
        }
    }

    fn complete(&self, arg_index: usize, partial: &str, ctx: &CommandContext) -> (r: Vec<
        CompletionItem,
    >) {
        match self {
            Command::Abort(c) => c.complete(arg_index, partial, ctx),
            Command::Clear(c) => c.complete(arg_index, partial, ctx),
            Command::Model(c) => c.complete(arg_index, partial, ctx),
            Command::Provider(c) => c.complete(arg_index, partial, ctx),
            Command::Mode(c) => c.complete(arg_index, partial, ctx),
            Command::Quit(c) => c.complete(arg_index, partial, ctx),
            Command::Refresh(c) => c.complete(arg_index, partial, ctx),
            Command::New(c) => c.complete(arg_index, partial, ctx),
            Command::Skills(c) => c.complete(arg_index, partial, ctx),
            Command::Subagents(c) => c.complete(arg_index, partial, ctx),
            Command::Peers(c) => c.complete(arg_index, partial, ctx),
            Command::Context(c) => c.complete(arg_index, partial, ctx),
            Command::Tools(c) => c.complete(arg_index, partial, ctx),
            Command::Mcp(c) => c.complete(arg_index, partial, ctx),
            Command::Skill(c) => c.complete(arg_index, partial, ctx),
            Command::Agent(c) => c.complete(arg_index, partial, ctx),
            Command::McpPrompt(c) => c.complete(arg_index, partial, ctx),
        }
    }

    fn execute(&self, args: Vec<String>) -> (r: CommandResult) {
        match self {
            Command::Abort(c) => c.execute(args),
            Command::Clear(c) => c.execute(args),
            Command::Model(c) => c.execute(args),
            Command::Provider(c) => c.execute(args),
            Command::Mode(c) => c.execute(args),
            Command::Quit(c) => c.execute(args),
            Command::Refresh(c) => c.execute(args),
            Command::New(c) => c.execute(args),
            Command::Skills(c) => c.execute(args),
            Command::Subagents(c) => c.execute(args),
            Command::Peers(c) => c.execute(args),
            Command::Context(c) => c.execute(args),
            Command::Tools(c) => c.execute(args),
            Command::Mcp(c) => c.execute(args),
            Command::Skill(c) => c.execute(args),
            Command::Agent(c) => c.execute(args),
            Command::McpPrompt(c) => c.execute(args),
        }
    }
}

/// The commands that are available, each under its own name.
pub struct CommandRegistry {
    commands: Vec<Command>,
}

/// The last command of a list with each name.
pub open spec fn by_name(list: Seq<Command>) -> Map<Seq<char>, Command>
    decreases list.len(),
{
    if list.len() == 0 {
        Map::empty()
    } else {
        by_name(list.drop_last()).insert(list.last().name_view(), list.last())
    }
}

/// No two commands of a list have the same name.
pub open spec fn names_differ(list: Seq<Command>) -> bool {
    forall|i: int, j: int|
        0 <= i < j < list.len() ==> (#[trigger] list[i]).name_view() != (
        #[trigger] list[j]).name_view()
}

/// A command of a list is found under its name.
pub proof fn lemma_by_name(list: Seq<Command>, i: int)
    requires
        names_differ(list),
        0 <= i < list.len(),
    ensures
        by_name(list).contains_key(list[i].name_view()),
        by_name(list)[list[i].name_view()] == list[i],
    decreases list.len(),
{
    let init = list.drop_last();
    if i < list.len() - 1 {
        assert forall|a: int, b: int| 0 <= a < b < init.len() implies (
        #[trigger] init[a]).name_view() != (#[trigger] init[b]).name_view() by {
            assert(list[a] == init[a] && list[b] == init[b]);
        }
        lemma_by_name(init, i);
        assert(init[i] == list[i]);
        assert(list[i].name_view() != list[list.len() - 1].name_view());
    }
}

/// What is found under a name is a command of the list.
pub proof fn lemma_by_name_only(list: Seq<Command>, name: Seq<char>)
    ensures
        by_name(list).contains_key(name) ==> exists|i: int|
            0 <= i < list.len() && (#[trigger] list[i]).name_view() == name && by_name(list)[name]
                == list[i],
    decreases list.len(),
{
    if list.len() > 0 {
        let init = list.drop_last();
        lemma_by_name_only(init, name);
        if by_name(list).contains_key(name) {
            if name == list.last().name_view() {
                assert(list[list.len() - 1].name_view() == name);
            } else {
                let i = choose|i: int|
                    0 <= i < init.len() && (#[trigger] init[i]).name_view() == name && by_name(
                        init,
                    )[name] == init[i];
                assert(list[i] == init[i]);
            }
        }
    }
}

/// Replacing the command at an index by one of the same name.
proof fn lemma_by_name_update(list: Seq<Command>, i: int, cmd: Command)
    requires
        names_differ(list),
        0 <= i < list.len(),
        list[i].name_view() == cmd.name_view(),
    ensures
        names_differ(list.update(i, cmd)),
        by_name(list.update(i, cmd)) == by_name(list).insert(cmd.name_view(), cmd),
    decreases list.len(),
{
    let new = list.update(i, cmd);
    assert forall|a: int, b: int| 0 <= a < b < new.len() implies (#[trigger] new[a]).name_view() != (
    #[trigger] new[b]).name_view() by {
        assert(list[a].name_view() != list[b].name_view());
    }
    let init = list.drop_last();
    if i == list.len() - 1 {
        assert(new.drop_last() =~= init);
        assert(by_name(new) =~= by_name(list).insert(cmd.name_view(), cmd));
    } else {
        assert forall|a: int, b: int| 0 <= a < b < init.len() implies (
        #[trigger] init[a]).name_view() != (#[trigger] init[b]).name_view() by {
            assert(list[a] == init[a] && list[b] == init[b]);
        }
        assert(init[i] == list[i]);
        lemma_by_name_update(init, i, cmd);
        assert(new.drop_last() =~= init.update(i, cmd));
        assert(list[i].name_view() != list[list.len() - 1].name_view());
        assert(by_name(new) =~= by_name(list).insert(cmd.name_view(), cmd));
    }
}

/// The registry after a list of registrations.
pub open spec fn registered(m: Map<Seq<char>, Command>, cmds: Seq<Command>) -> Map<
    Seq<char>,
    Command,
>
    decreases cmds.len(),
{
    if cmds.len() == 0 {
        m
    } else {
        registered(m, cmds.drop_last()).insert(cmds.last().name_view(), cmds.last())
    }
}

/// Skill commands among all commands.
pub open spec fn skills_as_commands(cmds: Seq<SkillCommand>) -> Seq<Command> {
    cmds.map_values(|c: SkillCommand| Command::Skill(c))
}

/// Agent commands among all commands.
pub open spec fn agents_as_commands(cmds: Seq<AgentCommand>) -> Seq<Command> {
    cmds.map_values(|c: AgentCommand| Command::Agent(c))
}

/// The built-in commands.
pub open spec fn builtins() -> Seq<Command> {
    seq![
        Command::Abort(AbortCommand),
        Command::Clear(ClearCommand),
        Command::New(NewCommand),
        Command::Model(ModelCommand),
        Command::Provider(ProviderCommand),
        Command::Mode(ModeCommand),
        Command::Quit(QuitCommand),
        Command::Refresh(RefreshCommand),
        Command::Skills(SkillsCommand),
        Command::Subagents(SubagentsCommand),
        Command::Peers(PeersCommand),
        Command::Context(ContextCommand),
        Command::Tools(ToolsCommand),
        Command::Mcp(McpCommand),
    ]
}

impl View for CommandRegistry {
    type V = Map<Seq<char>, Command>;

    closed spec fn view(&self) -> Map<Seq<char>, Command> {
        by_name(self.commands@)
    }
}

impl CommandRegistry {
    #[verifier::type_invariant]
    spec fn well_formed(self) -> bool {
        names_differ(self.commands@)
    }

    /// A registry without commands.
    pub fn empty() -> (r: CommandRegistry)
        ensures
            r@ == Map::<Seq<char>, Command>::empty(),
    {
        CommandRegistry { commands: Vec::new() }
    }

    /// A registry with all built-in commands.
    pub fn with_builtins() -> (r: CommandRegistry)
        ensures
            r@ == registered(Map::empty(), builtins()),
    {
        let mut reg = CommandRegistry::empty();
        reg.register(Command::Abort(AbortCommand));
        reg.register(Command::Clear(ClearCommand));
        reg.register(Command::New(NewCommand));
        reg.register(Command::Model(ModelCommand));
        reg.register(Command::Provider(ProviderCommand));
        reg.register(Command::Mode(ModeCommand));
        reg.register(Command::Quit(QuitCommand));
        reg.register(Command::Refresh(RefreshCommand));
        reg.register(Command::Skills(SkillsCommand));
        reg.register(Command::Subagents(SubagentsCommand));
        reg.register(Command::Peers(PeersCommand));
        reg.register(Command::Context(ContextCommand));
        reg.register(Command::Tools(ToolsCommand));
        reg.register(Command::Mcp(McpCommand));
        proof {
            let all = builtins();
            reveal_with_fuel(registered, 15);
            assert(all.drop_last() =~= all.take(13));
            assert(all.take(13).drop_last() =~= all.take(12));
            assert(all.take(12).drop_last() =~= all.take(11));
            assert(all.take(11).drop_last() =~= all.take(10));
            assert(all.take(10).drop_last() =~= all.take(9));
            assert(all.take(9).drop_last() =~= all.take(8));
            assert(all.take(8).drop_last() =~= all.take(7));
            assert(all.take(7).drop_last() =~= all.take(6));
            assert(all.take(6).drop_last() =~= all.take(5));
            assert(all.take(5).drop_last() =~= all.take(4));
            assert(all.take(4).drop_last() =~= all.take(3));
            assert(all.take(3).drop_last() =~= all.take(2));
            assert(all.take(2).drop_last() =~= all.take(1));
            assert(all.take(1).drop_last() =~= seq![]);
        }
        reg
    }

    /// The index of the command with a name.
    fn index_of(&self, name: &str) -> (r: Option<usize>)
        ensures
            match r {
                Some(i) => i < self.commands@.len() && self.commands@[i as int].name_view()
                    == name@,
                None => forall|i: int|
                    0 <= i < self.commands@.len() ==> (#[trigger] self.commands@[i]).name_view()
                        != name@,
            },
    {
        let mut i: usize = 0;
        while i < self.commands.len()
            invariant
                i <= self.commands@.len(),
                forall|k: int|
                    0 <= k < i ==> (#[trigger] self.commands@[k]).name_view() != name@,
            decreases self.commands.len() - i,
        {
            if str_eq(self.commands[i].name(), name) {
                return Some(i);
            }
            i += 1;
        }
        None
    }

    /// Registers a command; one of the same name is replaced.
    pub fn register(&mut self, cmd: Command)
        ensures
            final(self)@ == old(self)@.insert(cmd.name_view(), cmd),
    {
        proof {
            use_type_invariant(&*self);
        }
        let found = self.index_of(cmd.name());
        let mut list: Vec<Command> = Vec::new();
        core::mem::swap(&mut list, &mut self.commands);
        match found {
            Some(i) => {
                proof {
                    lemma_by_name_update(list@, i as int, cmd);
                }
                list.set(i, cmd);
            },
            None => {
                let ghost before = list@;
                list.push(cmd);
                assert(list@.drop_last() =~= before);
            },
        }
        core::mem::swap(&mut list, &mut self.commands);
    }

    /// Looks up a command by its exact name.
    pub fn get(&self, name: &str) -> (r: Option<&Command>)
        ensures
            match r {
                Some(cmd) => self@.contains_key(name@) && *cmd == self@[name@] && cmd.name_view()
                    == name@,
                None => !self@.contains_key(name@),
            },
    {
        proof {
            use_type_invariant(self);
            lemma_by_name_only(self.commands@, name@);
        }
        match self.index_of(name) {
            Some(i) => {
                proof {
                    lemma_by_name(self.commands@, i as int);
                }
                Some(&self.commands[i])
            },
            None => None,
        }
    }

    /// All commands, each once.
    pub fn iter(&self) -> (r: &Vec<Command>)
        ensures
            names_differ(r@),
            by_name(r@) == self@,
    {
        proof {
            use_type_invariant(self);
        }
        &self.commands
    }

    /// The names of all commands, sorted.
    pub fn names(&self) -> (r: Vec<&str>)
        ensures
            forall|n: Seq<char>|
                self@.contains_key(n) <==> exists|i: int| 0 <= i < r@.len() && #[trigger] r@[i]@ == n,
            forall|i: int, j: int|
                0 <= i < j < r@.len() ==> crate::order::lex_less(
                    (#[trigger] r@[i])@,
                    (#[trigger] r@[j])@,
                ),
    {
        proof {
            use_type_invariant(self);
        }
        let ghost list = self.commands@;
        let mut keys: Vec<SortKey> = Vec::new();
        let mut i: usize = 0;
        while i < self.commands.len()
            invariant
                list == self.commands@,
                i <= self.commands@.len(),
                keys@.len() == i,
                forall|k: int|
                    0 <= k < i ==> (#[trigger] keys@[k])@ == (SortKeyView {
                        rank: 0,
                        first: list[k].name_view(),
                        second: seq![],
                    }),
            decreases self.commands.len() - i,
        {
            let second = String::new();
            assert(second@ =~= seq![]);
            keys.push(SortKey { rank: 0, first: self.commands[i].name().to_owned(), second });
            i += 1;
        }
        let order = sorted_order(&keys);
        let mut out: Vec<&str> = Vec::new();
        let mut j: usize = 0;
        while j < order.len()
            invariant
                list == self.commands@,
                j <= order@.len(),
                out@.len() == j,
                forall|k: int| 0 <= k < order@.len() ==> #[trigger] order@[k] < list.len(),
                forall|k: int|
                    0 <= k < j ==> (#[trigger] out@[k])@ == list[order@[k] as int].name_view(),
            decreases order.len() - j,
        {
            out.push(self.commands[order[j]].name());
            j += 1;
        }
        proof {
            let kv = key_views(keys@);
            let idx = indices(order@);
            crate::order::law_stable_order(kv);
            assert forall|n: Seq<char>|
                self@.contains_key(n) <==> exists|i: int|
                    0 <= i < out@.len() && #[trigger] out@[i]@ == n by {
                lemma_by_name_only(list, n);
                if self@.contains_key(n) {
                    let k = choose|k: int|
                        0 <= k < list.len() && (#[trigger] list[k]).name_view() == n
                            && by_name(list)[n] == list[k];
                    crate::order::lemma_covers_hits(idx, kv.len(), k);
                    let i = choose|i: int| 0 <= i < idx.len() && #[trigger] idx[i] == k;
                    assert(order@[i] == k);
                    assert(out@[i]@ == n);
                }
                if exists|i: int| 0 <= i < out@.len() && #[trigger] out@[i]@ == n {
                    let i = choose|i: int| 0 <= i < out@.len() && #[trigger] out@[i]@ == n;
                    lemma_by_name(list, order@[i] as int);
                }
            }
            assert forall|i: int, j: int| 0 <= i < j < out@.len() implies crate::order::lex_less(
                (#[trigger] out@[i])@,
                (#[trigger] out@[j])@,
            ) by {
                let a = order@[i] as int;
                let b = order@[j] as int;
                assert(idx[i] == a && idx[j] == b);
                assert(a != b);
                assert(kv[a] == keys@[a]@ && kv[b] == keys@[b]@);
                assert(list[a].name_view() != list[b].name_view()) by {
                    if a < b {
                        assert(list[a].name_view() != list[b].name_view());
                    } else {
                        assert(list[b].name_view() != list[a].name_view());
                    }
                }
                assert(!crate::order::key_less(kv[b], kv[a]));
                crate::order::lemma_lex_total(list[a].name_view(), list[b].name_view());
            }
        }
        out
    }

    /// Registers a command for each user command found.
    pub fn register_commands(&mut self, commands: &Vec<SkillInfo>)
        ensures
            exists|cmds: Seq<SkillCommand>|
                {
                    &&& cmds.map_values(|c: SkillCommand| c@)
                        == crate::commands::skill::skill_commands(
                        commands@.map_values(|i: SkillInfo| i@),
                    )
                    &&& final(self)@ == #[trigger] registered(
                        old(self)@,
                        skills_as_commands(cmds),
                    )
                },
    {
        let mut found = make_command_slash_commands(commands);
        let ghost cmds = found@;
        let ghost wrapped = skills_as_commands(cmds);
        let ghost mut done: int = 0;
        assert(wrapped.take(0) =~= seq![]);
        assert(found@ =~= cmds.skip(0));
        while found.len() > 0
            invariant
                wrapped == skills_as_commands(cmds),
                0 <= done <= cmds.len(),
                found@ == cmds.skip(done),
                self@ == registered(old(self)@, wrapped.take(done)),
            decreases found.len(),
        {
            let cmd = found.remove(0);
            self.register(Command::Skill(cmd));
            proof {
                assert(wrapped.take(done + 1).drop_last() =~= wrapped.take(done));
                assert(wrapped.take(done + 1).last() == Command::Skill(cmd));
                assert(found@ =~= cmds.skip(done + 1));
                done = done + 1;
            }
        }
        assert(wrapped.take(done) =~= wrapped);
        assert(self@ == registered(old(self)@, wrapped));
    }

    /// Registers a command for each subagent found.
    pub fn register_agents(&mut self, agents: &Vec<AgentInfo>)
        ensures
            exists|cmds: Seq<AgentCommand>|
                {
                    &&& cmds.map_values(|c: AgentCommand| c@)
                        == crate::commands::skill::agent_commands(
                        agents@.map_values(|i: AgentInfo| i@),
                    )
                    &&& final(self)@ == #[trigger] registered(
                        old(self)@,
                        agents_as_commands(cmds),
                    )
                },
    {
        let mut found = make_agent_slash_commands(agents);
        let ghost cmds = found@;
        let ghost wrapped = agents_as_commands(cmds);
        let ghost mut done: int = 0;
        assert(wrapped.take(0) =~= seq![]);
        assert(found@ =~= cmds.skip(0));
        while found.len() > 0
            invariant
                wrapped == agents_as_commands(cmds),
                0 <= done <= cmds.len(),
                found@ == cmds.skip(done),
                self@ == registered(old(self)@, wrapped.take(done)),
            decreases found.len(),
        {
            let cmd = found.remove(0);
            self.register(Command::Agent(cmd));
            proof {
                assert(wrapped.take(done + 1).drop_last() =~= wrapped.take(done));
                assert(wrapped.take(done + 1).last() == Command::Agent(cmd));
                assert(found@ =~= cmds.skip(done + 1));
                done = done + 1;
            }
        }
        assert(wrapped.take(done) =~= wrapped);
        assert(self@ == registered(old(self)@, wrapped));
    }

    /// Registers the commands of the prompts that the servers offer.
    pub fn discover_mcp_prompts(&mut self, infos: Vec<McpPromptInfo>)
        ensures
            final(self)@ == registered(
                old(self)@,
                infos@.map_values(|i: McpPromptInfo| Command::McpPrompt(prompt_command(i))),
            ),
    {
        let ghost given = infos@;
        let prompts = discover_mcp_prompts(infos);
        let ghost cmds = prompts@;
        let mut found = prompts;
        let ghost wrapped = cmds.map_values(|c: McpPromptCommand| Command::McpPrompt(c));
        let ghost mut done: int = 0;
        assert(wrapped.take(0) =~= seq![]);
        assert(found@ =~= cmds.skip(0));
        while found.len() > 0
            invariant
                wrapped == cmds.map_values(|c: McpPromptCommand| Command::McpPrompt(c)),
                0 <= done <= cmds.len(),
                found@ == cmds.skip(done),
                self@ == registered(old(self)@, wrapped.take(done)),
            decreases found.len(),
        {
            let cmd = found.remove(0);
            self.register(Command::McpPrompt(cmd));
            proof {
                assert(wrapped.take(done + 1).drop_last() =~= wrapped.take(done));
                assert(wrapped.take(done + 1).last() == Command::McpPrompt(cmd));
                assert(found@ =~= cmds.skip(done + 1));
                done = done + 1;
            }
        }
        assert(wrapped.take(done) =~= wrapped);
        assert(wrapped =~= given.map_values(
            |i: McpPromptInfo| Command::McpPrompt(prompt_command(i)),
        ));
    }
}

proof fn lemma_registered_all(m: Map<Seq<char>, Command>, cmds: Seq<Command>, i: int)
    requires
        names_differ(cmds),
        0 <= i < cmds.len(),
    ensures
        registered(m, cmds).contains_key(cmds[i].name_view()),
        registered(m, cmds)[cmds[i].name_view()] == cmds[i],
    decreases cmds.len(),
{
    if i < cmds.len() - 1 {
        let init = cmds.drop_last();
        assert(init[i] == cmds[i]);
        assert(cmds[i].name_view() != cmds[cmds.len() - 1].name_view());
        lemma_registered_all(m, init, i);
    }
}

proof fn lemma_builtin_names()
    ensures
        names_differ(builtins()),
{
    reveal_strlit("abort");
    reveal_strlit("clear");
    reveal_strlit("new");
    reveal_strlit("model");
    reveal_strlit("provider");
    reveal_strlit("mode");
    reveal_strlit("quit");
    reveal_strlit("refresh");
    reveal_strlit("skills");
    reveal_strlit("subagents");
    reveal_strlit("peers");
    reveal_strlit("context");
    reveal_strlit("tools");
    reveal_strlit("mcp");
    let all = builtins();
    assert forall|i: int, j: int| 0 <= i < j < all.len() implies (#[trigger] all[i]).name_view()
        != (#[trigger] all[j]).name_view() by {
        let (a, b) = (all[i].name_view(), all[j].name_view());
        assert(a.len() != b.len() || a[0] != b[0]);
    }
}

/// A registry with the built-in commands has each of them, under its name.
pub proof fn law_builtins_are_found(i: int)
    requires
        0 <= i < builtins().len(),
    ensures
        registered(Map::empty(), builtins()).contains_key(builtins()[i].name_view()),
        registered(Map::empty(), builtins())[builtins()[i].name_view()] == builtins()[i],
{
    lemma_builtin_names();
    lemma_registered_all(Map::empty(), builtins(), i);
}

/// A command that was registered is found under its name, and no other command
/// is touched.
pub proof fn law_register_then_get(
    m: Map<Seq<char>, Command>,
    cmd: Command,
    name: Seq<char>,
)
    ensures
        registered(m, seq![cmd]).contains_key(cmd.name_view()),
        registered(m, seq![cmd])[cmd.name_view()] == cmd,
        name != cmd.name_view() ==> (registered(m, seq![cmd]).contains_key(name)
            <==> m.contains_key(name)) && (m.contains_key(name) ==> registered(
            m,
            seq![cmd],
        )[name] == m[name]),
{
    assert(seq![cmd].drop_last() =~= seq![]);
    reveal_with_fuel(registered, 2);
}

} // verus!
