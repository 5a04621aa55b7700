//! What the sources of commands promise: the commands of files, of subagents and
//! of servers, and what the registry makes of them.

use vstd::prelude::*;

use crate::app::steps_send::entered_command;
use crate::commands::builtin::{
    catalog_item, current_item, driver_item, provider_item, AbortCommand, ClearCommand,
    ContextCommand, McpCommand, ModeCommand, ModelCommand, NewCommand, PeersCommand,
    ProviderCommand, QuitCommand, RefreshCommand, SkillsCommand, SubagentsCommand, ToolsCommand,
};
use crate::commands::command_laws::{is_word, law_words_are_read_one_by_one};
use crate::commands::completion::name_item;
use crate::commands::mcp::{prompt_command, McpPromptCommand, McpPromptInfo};
use crate::commands::parser::tokens;
use crate::commands::registry::{by_name, registered, Command};
use crate::commands::skill::{
    agent_commands, normalised, short_description, skill_commands, unique_name, unique_names,
    AgentCommand, AgentInfoView, SkillCommand, SkillInfoView,
};
use crate::commands::{CatalogView, ContextView, DriverView, ProviderView, SlashCommand};
use crate::text::{decimal, join, lowercase, split_on};

verus! {

/// Every file found becomes a command, in order: with its content, its directory
/// and its description, cut to a hundred characters. The last part of its path is
/// its name in lower case.
pub proof fn law_files_become_commands(infos: Seq<SkillInfoView>, k: int)
    requires
        0 <= k < infos.len(),
    ensures
        ({
            let r = skill_commands(infos);
            &&& r.len() == infos.len()
            &&& r[k].content == infos[k].content
            &&& r[k].skill_dir == infos[k].skill_dir
            &&& r[k].description == short_description(infos[k].description, 100)
            &&& r[k].name == unique_names(
                infos.map_values(|i: SkillInfoView| normalised(i.command)),
            )[k]
        }),
{
}

/// Every subagent found becomes a command, in order: with its prompt, its
/// description and the model that it asks for, under its name in lower case.
pub proof fn law_subagents_become_commands(infos: Seq<AgentInfoView>, k: int)
    requires
        0 <= k < infos.len(),
    ensures
        ({
            let r = agent_commands(infos);
            &&& r.len() == infos.len()
            &&& r[k].content == infos[k].content
            &&& r[k].model_override == infos[k].model
            &&& r[k].description == short_description(infos[k].description, 100)
            &&& r[k].name == unique_names(
                infos.map_values(|i: AgentInfoView| lowercase(i.name)),
            )[k]
        }),
{
}

/// Each name is made unique among those before it, with a hyphen before its
/// number.
pub proof fn law_names_are_made_unique_in_turn(bases: Seq<Seq<char>>, base: Seq<char>)
    ensures
        unique_names(seq![]) == Seq::<Seq<char>>::empty(),
        unique_names(bases.push(base)) == unique_names(bases).push(
            unique_name(base, '-', unique_names(bases).to_set()),
        ),
        !unique_names(bases).contains(base) ==> unique_names(bases.push(base)).last() == base,
{
    assert(bases.push(base).drop_last() =~= bases);
    if !unique_names(bases).contains(base) {
        assert(!unique_names(bases).to_set().contains(base));
        crate::commands::skill::law_free_name_is_kept(base, '-', unique_names(bases).to_set());
    }
}

/// Of the path of a command only the last part is put into lower case.
pub proof fn law_directories_keep_their_case(path: Seq<char>)
    ensures
        ({
            let parts = split_on(path, '/');
            let n = parts.len() as int;
            &&& n == 1 ==> normalised(path) == lowercase(parts[0])
            &&& n > 1 ==> normalised(path) == join(parts.subrange(0, n - 1), "/"@) + "/"@
                + lowercase(parts[n - 1])
        }),
{
    let parts = split_on(path, '/');
    let n = parts.len() as int;
    crate::text::lemma_split_on_len(path, '/');
    let named = parts.drop_last().push(lowercase(parts.last()));
    assert(named.drop_last() =~= parts.subrange(0, n - 1));
    if n == 1 {
        assert(named =~= seq![lowercase(parts[0])]);
    }
}

/// A prompt of a server becomes a command under its path, with its description
/// and its arguments.
pub proof fn law_prompts_become_commands(info: McpPromptInfo)
    ensures
        prompt_command(info).name == info.slash_path,
        prompt_command(info).description == info.description,
        prompt_command(info).args == info.arguments,
        prompt_command(info).server_name == info.server_name,
        prompt_command(info).prompt_name == info.prompt_name,
        prompt_command(info).name_view() == info.slash_path@,
        prompt_command(info).description_view() == info.description@,
{
}

/// Before a value is typed for an argument of a prompt, the name of the argument
/// is offered in brackets; while one is typed nothing is.
pub proof fn law_arguments_of_prompts_are_named(
    c: McpPromptCommand,
    i: nat,
    partial: Seq<char>,
    ctx: ContextView,
)
    ensures
        i < c.args@.len() && partial.len() == 0 ==> {
            let r = c.completions(i, partial, ctx);
            &&& r.len() == 1
            &&& r[0].value == seq!['<'] + c.args@[i as int].name@ + seq!['>']
            &&& r[0].display == r[0].value
            &&& c.args@[i as int].description@.len() == 0 ==> r[0].description is None
            &&& c.args@[i as int].description@.len() > 0 ==> r[0].description == Some(
                c.args@[i as int].description@,
            )
        },
        i >= c.args@.len() || partial.len() > 0 ==> c.completions(i, partial, ctx).len() == 0,
{
    reveal_strlit("<");
    reveal_strlit(">");
    assert("<"@ =~= seq!['<']);
    assert(">"@ =~= seq!['>']);
}

/// Commands of files and of subagents go by the name and the description that
/// they have, and have nothing to complete.
pub proof fn law_found_commands_go_by_their_names(
    s: SkillCommand,
    a: AgentCommand,
    i: nat,
    partial: Seq<char>,
    ctx: ContextView,
)
    ensures
        s.name_view() == s.name@,
        s.description_view() == s.description@,
        s.completions(i, partial, ctx).len() == 0,
        a.name_view() == a.name@,
        a.description_view() == a.description@,
        a.completions(i, partial, ctx).len() == 0,
{
}

/// Among all commands each does what it does on its own.
pub proof fn law_commands_keep_their_ways(
    s: SkillCommand,
    a: AgentCommand,
    p: McpPromptCommand,
    args: Seq<Seq<char>>,
)
    ensures
        Command::Abort(AbortCommand).outcome(args) == AbortCommand.outcome(args),
        Command::Clear(ClearCommand).outcome(args) == ClearCommand.outcome(args),
        Command::New(NewCommand).outcome(args) == NewCommand.outcome(args),
        Command::Model(ModelCommand).outcome(args) == ModelCommand.outcome(args),
        Command::Provider(ProviderCommand).outcome(args) == ProviderCommand.outcome(args),
        Command::Mode(ModeCommand).outcome(args) == ModeCommand.outcome(args),
        Command::Quit(QuitCommand).outcome(args) == QuitCommand.outcome(args),
        Command::Refresh(RefreshCommand).outcome(args) == RefreshCommand.outcome(args),
        Command::Skills(SkillsCommand).outcome(args) == SkillsCommand.outcome(args),
        Command::Subagents(SubagentsCommand).outcome(args) == SubagentsCommand.outcome(args),
        Command::Peers(PeersCommand).outcome(args) == PeersCommand.outcome(args),
        Command::Context(ContextCommand).outcome(args) == ContextCommand.outcome(args),
        Command::Tools(ToolsCommand).outcome(args) == ToolsCommand.outcome(args),
        Command::Mcp(McpCommand).outcome(args) == McpCommand.outcome(args),
        Command::Skill(s).outcome(args) == s.outcome(args),
        Command::Agent(a).outcome(args) == a.outcome(args),
        Command::McpPrompt(p).outcome(args) == p.outcome(args),
        Command::Model(ModelCommand).name_view() == "model"@,
        Command::Quit(QuitCommand).name_view() == "quit"@,
        Command::Skill(s).name_view() == s.name@,
        Command::Agent(a).name_view() == a.name@,
        Command::McpPrompt(p).name_view() == p.name@,
{
}

/// Among all commands each completes its arguments as it does on its own.
pub proof fn law_commands_complete_as_they_do(
    p: McpPromptCommand,
    i: nat,
    partial: Seq<char>,
    ctx: ContextView,
)
    ensures
        Command::Model(ModelCommand).completions(i, partial, ctx) == ModelCommand.completions(
            i,
            partial,
            ctx,
        ),
        Command::Provider(ProviderCommand).completions(i, partial, ctx)
            == ProviderCommand.completions(i, partial, ctx),
        Command::Mode(ModeCommand).completions(i, partial, ctx) == ModeCommand.completions(
            i,
            partial,
            ctx,
        ),
        Command::Mcp(McpCommand).completions(i, partial, ctx) == McpCommand.completions(
            i,
            partial,
            ctx,
        ),
        Command::McpPrompt(p).completions(i, partial, ctx) == p.completions(i, partial, ctx),
        Command::Quit(QuitCommand).completions(i, partial, ctx).len() == 0,
{
}

/// Commands are registered one after the other; a later one takes the place of
/// an earlier one of its name, and leaves the others alone.
pub proof fn law_commands_are_registered_in_turn(
    m: Map<Seq<char>, Command>,
    cmds: Seq<Command>,
    c: Command,
)
    ensures
        registered(m, seq![]) == m,
        registered(m, cmds.push(c)) == registered(m, cmds).insert(c.name_view(), c),
        by_name(seq![]) == Map::<Seq<char>, Command>::empty(),
        by_name(cmds.push(c)) == by_name(cmds).insert(c.name_view(), c),
{
    assert(cmds.push(c).drop_last() =~= cmds);
}

/// A text that begins with a slash names a command with its first word, and the
/// words behind it are its arguments.
pub proof fn law_entered_words_are_name_and_arguments(w: Seq<char>, rest: Seq<char>, t: Seq<char>)
    requires
        is_word(w),
    ensures
        entered_command(seq!['/'] + w) == Some((w, Seq::<Seq<char>>::empty())),
        entered_command(seq!['/'] + (w + (seq![' '] + rest))) == Some((w, tokens(rest))),
        t.len() > 0 && t[0] != '/' ==> entered_command(t) is None,
        entered_command(seq![]) is None,
{
    law_words_are_read_one_by_one(w, rest, ' ');
    assert((seq!['/'] + w).skip(1) =~= w);
    let line = w + (seq![' '] + rest);
    assert((seq!['/'] + line).skip(1) =~= line);
    assert(seq![w].skip(1) =~= seq![]);
    assert((seq![w] + tokens(rest)).skip(1) =~= tokens(rest));
}

/// The model in use is marked as such; a model of the catalog is shown with its
/// description and its limits, a configured provider with what it stands for, a
/// built-in one with its name, and a command behind a slash.
pub proof fn law_entries_say_what_they_are(
    ctx: ContextView,
    c: CatalogView,
    p: ProviderView,
    d: DriverView,
    cmd: Command,
)
    ensures
        ({
            let now = ctx.current_model_provider + seq!['/'] + ctx.current_model_name;
            let id = c.provider + seq!['/'] + c.id;
            &&& current_item(ctx).value == now
            &&& current_item(ctx).display == now + " (current)"@
            &&& catalog_item(c).value == id
            &&& c.description.len() == 0 ==> catalog_item(c).display == id
            &&& c.description.len() > 0 ==> catalog_item(c).display == id + " — "@ + c.description
            &&& catalog_item(c).description == Some(
                "ctx:"@ + decimal(c.context_window as nat) + " max_out:"@ + decimal(
                    c.max_output_tokens as nat,
                ),
            )
            &&& provider_item(p).value == p.name
            &&& provider_item(p).display == p.name + " (custom: "@ + p.provider + "  "@ + p.model
                + ")"@
            &&& driver_item(d).value == d.id
            &&& driver_item(d).display == d.id + " — "@ + d.name
            &&& driver_item(d).description == Some(d.description)
            &&& name_item(cmd).value == cmd.name_view()
            &&& name_item(cmd).display == seq!['/'] + cmd.name_view()
            &&& name_item(cmd).description == Some(cmd.description_view())
        }),
{
    reveal_strlit("/");
    assert("/"@ =~= seq!['/']);
}

/// The commands that take an argument say so: the model, the provider and the
/// mode need one, and the task of a file or of a subagent may be left out.
pub proof fn law_commands_name_their_arguments(s: SkillCommand, a: AgentCommand)
    ensures
        ModelCommand.arguments_view().len() == 1 && ModelCommand.arguments_view()[0].name
            == "model"@,
        ProviderCommand.arguments_view().len() == 1 && ProviderCommand.arguments_view()[0].name
            == "provider"@ && ProviderCommand.arguments_view()[0].required,
        ModeCommand.arguments_view().len() == 1 && ModeCommand.arguments_view()[0].name == "mode"@,
        s.arguments_view().len() == 1 && s.arguments_view()[0].name == "task"@
            && !s.arguments_view()[0].required,
        a.arguments_view().len() == 1 && a.arguments_view()[0].name == "task"@
            && !a.arguments_view()[0].required,
        QuitCommand.arguments_view().len() == 0,
        AbortCommand.arguments_view().len() == 0,
{
}

} // verus!
