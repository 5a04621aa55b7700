//! What the commands promise: how they are read, what they ask for, and what is
//! offered while they are typed.

use vstd::prelude::*;

use crate::commands::builtin::{
    catalog_item, catalog_items, catalog_order, current_model, driver_item, mode_items,
    model_candidates, provider_item, provider_items, provider_order, specifier, words_with_prefix,
    AbortCommand, ClearCommand, ContextCommand, McpCommand, ModeCommand, ModelCommand, NewCommand,
    PeersCommand, ProviderCommand, QuitCommand, RefreshCommand, SkillsCommand, SubagentsCommand,
    ToolsCommand,
};
use crate::commands::completion::{
    completions_for, filtered, fuzzy, item_matches, law_empty_filter_keeps_all,
    law_filter_keeps_matches, law_filter_ranks, law_fuzzy_matches_subsequences, match_points,
    name_item, occurs_at, points_from, position, score_of, with_score, CompletionItemView,
};
use crate::commands::mcp::{prompt_outcome, McpPromptCommand};
use crate::commands::parser::{parse_view, tokens, tokens_from, ParsedView};
use crate::commands::registry::{lemma_by_name, Command};
use crate::commands::skill::{
    numbered, short_description, unique_from, unique_name, AgentCommand, SkillCommand,
};
use crate::commands::{
    AgentMode, CatalogView, CommandResultView, ContextView, DriverView, ImmediateActionView,
    InspectorKind, ProviderView, SlashCommand,
};
use crate::order::{covers, in_order, law_stable_order, lemma_covers_hits, lex_less, SortKeyView};
use crate::text::{has_prefix, is_space, join, lowercase, trim, trim_end};

verus! {

// ── Reading commands ─────────────────────────────────────────────────────────

/// A word of a command: something without white space and quotes.
pub open spec fn is_word(w: Seq<char>) -> bool {
    w.len() > 0 && forall|i: int| 0 <= i < w.len() ==> !is_space(#[trigger] w[i]) && w[i] != '"'
}

proof fn lemma_word_is_read(w: Seq<char>, rest: Seq<char>, token: Seq<char>, quoted: bool)
    requires
        forall|i: int|
            0 <= i < w.len() ==> #[trigger] w[i] != '"' && (quoted || !is_space(w[i])),
    ensures
        tokens_from(w + rest, token, quoted) == tokens_from(rest, token + w, quoted),
    decreases w.len(),
{
    if w.len() == 0 {
        assert(w + rest =~= rest);
        assert(token + w =~= token);
    } else {
        let t = w.skip(1);
        assert((w + rest).skip(1) =~= t + rest);
        assert((w + rest)[0] == w[0]);
        assert forall|i: int| 0 <= i < t.len() implies #[trigger] t[i] != '"' && (quoted
            || !is_space(t[i])) by {
            assert(t[i] == w[i + 1]);
        }
        lemma_word_is_read(t, rest, token.push(w[0]), quoted);
        assert(token.push(w[0]) + t =~= token + w);
    }
}

/// Words are read one by one: white space separates them, and counts for nothing
/// else. What stands in double quotes is one argument, with its spaces.
pub proof fn law_words_are_read_one_by_one(w: Seq<char>, rest: Seq<char>, space: char)
    requires
        is_word(w),
        is_space(space),
    ensures
        tokens(Seq::<char>::empty()).len() == 0,
        tokens(w) == seq![w],
        tokens(w + (seq![space] + rest)) == seq![w] + tokens(rest),
        tokens(seq![space] + rest) == tokens(rest),
{
    let none = Seq::<char>::empty();
    lemma_word_is_read(w, none, none, false);
    assert(w + none =~= w);
    assert(none + w =~= w);
    assert(tokens(w) =~= seq![w]);
    let s = seq![space] + rest;
    assert(s.skip(1) =~= rest);
    assert(s[0] == space);
    assert(space != '"') by {
        assert(!is_space('"'));
    }
    assert(tokens(s) =~= tokens(rest));
    lemma_word_is_read(w, s, none, false);
    assert(tokens_from(s, w, false) =~= seq![w] + tokens(rest));
}

/// An argument in double quotes is one argument, whatever white space is in it.
pub proof fn law_quoted_arguments_are_read_whole(arg: Seq<char>, rest: Seq<char>, space: char)
    requires
        arg.len() > 0,
        !arg.contains('"'),
        is_space(space),
    ensures
        tokens(seq!['"'] + (arg + (seq!['"'] + (seq![space] + rest)))) == seq![arg] + tokens(rest),
{
    let none = Seq::<char>::empty();
    let d = seq![space] + rest;
    let c = seq!['"'] + d;
    let b = arg + c;
    let a = seq!['"'] + b;
    assert(a.skip(1) =~= b);
    assert forall|i: int| 0 <= i < arg.len() implies #[trigger] arg[i] != '"' by {
        assert(arg.contains(arg[i]));
    }
    lemma_word_is_read(arg, c, none, true);
    assert(none + arg =~= arg);
    assert(c.skip(1) =~= d);
    assert(d.skip(1) =~= rest);
    assert(d[0] == space);
    assert(space != '"') by {
        assert(!is_space('"'));
    }
    assert(tokens_from(d, arg, false) =~= seq![arg] + tokens(rest));
}

/// At which stage a command is: the name is typed until a space follows, then
/// the arguments are typed one after the other, and a space behind an argument
/// makes the command complete. What does not begin with a slash is no command.
pub proof fn law_stages_of_a_command(w: Seq<char>, a: Seq<char>, b: Seq<char>, text: Seq<char>)
    requires
        is_word(w),
        is_word(a),
        is_word(b),
        text.len() > 0,
        text[0] != '/',
    ensures
        parse_view(seq![]) is NotCommand,
        parse_view(text) is NotCommand,
        parse_view(seq!['/']) == (ParsedView::PartialCommand { partial: seq![] }),
        parse_view(seq!['/'] + w) == (ParsedView::PartialCommand { partial: w }),
        parse_view(seq!['/'] + (w + seq![' '])) == (ParsedView::CompletingArgs {
            command: w,
            arg_index: 0,
            partial: seq![],
        }),
        parse_view(seq!['/'] + (w + (seq![' '] + a))) == (ParsedView::CompletingArgs {
            command: w,
            arg_index: 0,
            partial: a,
        }),
        parse_view(seq!['/'] + (w + (seq![' '] + (a + (seq![' '] + b)))))
            == (ParsedView::CompletingArgs { command: w, arg_index: 1, partial: b }),
        parse_view(seq!['/'] + (w + (seq![' '] + (a + seq![' '])))) == (ParsedView::Complete {
            command: w,
            args: seq![a],
        }),
{
    let none = Seq::<char>::empty();
    assert(is_space(' '));
    law_words_are_read_one_by_one(w, none, ' ');
    law_words_are_read_one_by_one(a, none, ' ');
    law_words_are_read_one_by_one(b, none, ' ');
    assert(seq!['/'].skip(1) =~= none);
    let t1 = w;
    assert((seq!['/'] + t1).skip(1) =~= t1);
    assert(w.last() == w[w.len() - 1]);
    assert(w.last() != ' ');
    let sp = seq![' '];
    assert(sp + none =~= sp);
    let t2 = w + sp;
    assert((seq!['/'] + t2).skip(1) =~= t2);
    assert(t2.last() == ' ');
    assert(seq![w] + tokens(none) =~= seq![w]);
    let t3 = w + (sp + a);
    law_words_are_read_one_by_one(w, a, ' ');
    assert((seq!['/'] + t3).skip(1) =~= t3);
    assert(t3.last() == a.last());
    assert(a.last() == a[a.len() - 1]);
    assert(tokens(t3) =~= seq![w, a]);
    let ab = a + (sp + b);
    law_words_are_read_one_by_one(a, b, ' ');
    assert(tokens(ab) =~= seq![a, b]);
    let t4 = w + (sp + ab);
    law_words_are_read_one_by_one(w, ab, ' ');
    assert((seq!['/'] + t4).skip(1) =~= t4);
    assert(t4.last() == b.last());
    assert(b.last() == b[b.len() - 1]);
    assert(tokens(t4) =~= seq![w, a, b]);
    let asp = a + sp;
    assert(tokens(asp) =~= seq![a]);
    let t5 = w + (sp + asp);
    law_words_are_read_one_by_one(w, asp, ' ');
    assert((seq!['/'] + t5).skip(1) =~= t5);
    assert(t5.last() == ' ');
    assert(tokens(t5) =~= seq![w, a]);
    assert(tokens(t5).skip(1) =~= seq![a]);
}

// ── What commands ask for ────────────────────────────────────────────────────

/// Each of the commands that ask for one action asks for exactly that, whatever
/// stands behind it.
pub proof fn law_simple_commands_ask_for_one_action(args: Seq<Seq<char>>)
    ensures
        ({
            let asks = |a: ImmediateActionView|
                CommandResultView {
                    model_override: None,
                    mode_override: None,
                    message_to_send: None,
                    immediate_action: Some(a),
                };
            let opens = |kind: InspectorKind| asks(ImmediateActionView::OpenInspector { kind });
            &&& AbortCommand.outcome(args) == asks(ImmediateActionView::Abort)
            &&& ClearCommand.outcome(args) == asks(ImmediateActionView::ClearChat)
            &&& NewCommand.outcome(args) == asks(ImmediateActionView::NewConversation)
            &&& QuitCommand.outcome(args) == asks(ImmediateActionView::Quit)
            &&& RefreshCommand.outcome(args) == asks(ImmediateActionView::RefreshSkills)
            &&& SkillsCommand.outcome(args) == opens(InspectorKind::Skills)
            &&& SubagentsCommand.outcome(args) == opens(InspectorKind::Subagents)
            &&& PeersCommand.outcome(args) == opens(InspectorKind::Peers)
            &&& ContextCommand.outcome(args) == opens(InspectorKind::Context)
            &&& ToolsCommand.outcome(args) == opens(InspectorKind::Tools)
        }),
{
}

/// The built-in commands go by their names, and no two go by the same one.
pub proof fn law_builtin_commands_go_by_their_names()
    ensures
        AbortCommand.name_view() == "abort"@,
        ClearCommand.name_view() == "clear"@,
        NewCommand.name_view() == "new"@,
        ModelCommand.name_view() == "model"@,
        ProviderCommand.name_view() == "provider"@,
        ModeCommand.name_view() == "mode"@,
        QuitCommand.name_view() == "quit"@,
        RefreshCommand.name_view() == "refresh"@,
        SkillsCommand.name_view() == "skills"@,
        SubagentsCommand.name_view() == "subagents"@,
        PeersCommand.name_view() == "peers"@,
        ContextCommand.name_view() == "context"@,
        ToolsCommand.name_view() == "tools"@,
        McpCommand.name_view() == "mcp"@,
{
}

/// The model or the provider that is asked for is the first argument; without
/// one nothing is asked for.
pub proof fn law_models_are_switched_to(args: Seq<Seq<char>>)
    ensures
        ({
            let none = CommandResultView {
                model_override: None,
                mode_override: None,
                message_to_send: None,
                immediate_action: None,
            };
            let named = args.len() > 0 && args[0].len() > 0;
            let wanted = CommandResultView { model_override: Some(args[0]), ..none };
            &&& named ==> ModelCommand.outcome(args) == wanted && ProviderCommand.outcome(args)
                == wanted
            &&& !named ==> ModelCommand.outcome(args) == none && ProviderCommand.outcome(args)
                == none
        }),
{
}

/// The mode that is asked for goes by its name; any other name asks for none.
pub proof fn law_modes_go_by_their_names(args: Seq<Seq<char>>)
    requires
        args.len() > 0,
    ensures
        args[0] == "research"@ ==> ModeCommand.outcome(args).mode_override == Some(
            AgentMode::Research,
        ),
        args[0] == "plan"@ ==> ModeCommand.outcome(args).mode_override == Some(AgentMode::Plan),
        args[0] == "agent"@ ==> ModeCommand.outcome(args).mode_override == Some(AgentMode::Agent),
        args[0] != "research"@ && args[0] != "plan"@ && args[0] != "agent"@ ==> ModeCommand.outcome(
            args,
        ).mode_override is None,
        ModeCommand.outcome(args).model_override is None,
        ModeCommand.outcome(args).message_to_send is None,
        ModeCommand.outcome(args).immediate_action is None,
        ModeCommand.outcome(seq![]).mode_override is None,
{
    reveal_strlit("research");
    reveal_strlit("plan");
    reveal_strlit("agent");
    assert("research"@.len() == 8 && "plan"@.len() == 4 && "agent"@.len() == 5);
}

/// A server is signed in to where its name is given, and otherwise the servers
/// are shown.
pub proof fn law_servers_are_shown_or_signed_in_to(args: Seq<Seq<char>>)
    ensures
        args.len() > 1 && args[0] == "auth"@ && args[1].len() > 0 ==> McpCommand.outcome(
            args,
        ).immediate_action == Some(ImmediateActionView::McpAuth { server: args[1] }),
        args.len() < 2 || args[0] != "auth"@ || args[1].len() == 0 ==> McpCommand.outcome(
            args,
        ).immediate_action == Some(
            ImmediateActionView::OpenInspector { kind: InspectorKind::Mcp },
        ),
        McpCommand.outcome(args).message_to_send is None,
        McpCommand.outcome(args).model_override is None,
{
    reveal_strlit("auth");
    assert("auth"@.len() == 4);
}

/// A skill sends its content. A task that is given with it follows behind, its
/// words apart by a space. A subagent sends its prompt in the same way, with the
/// model that it asks for.
pub proof fn law_skills_send_their_content(
    skill: SkillCommand,
    agent: AgentCommand,
    task: Seq<char>,
    more: Seq<char>,
)
    requires
        trim(task).len() > 0,
        trim(task + seq![' '] + more).len() > 0,
    ensures
        skill.outcome(seq![]).message_to_send == Some(trim_end(skill.content@)),
        skill.outcome(seq![task]).message_to_send == Some(
            trim_end(skill.content@) + "\n\nTask: "@ + trim(task),
        ),
        skill.outcome(seq![task, more]).message_to_send == Some(
            trim_end(skill.content@) + "\n\nTask: "@ + trim(task + seq![' '] + more),
        ),
        skill.outcome(seq![task]).model_override is None,
        skill.outcome(seq![task]).immediate_action is None,
        agent.outcome(seq![]).message_to_send == Some(trim_end(agent.content@)),
        agent.outcome(seq![task]).message_to_send == Some(
            trim_end(agent.content@) + "\n\nTask: "@ + trim(task),
        ),
        agent.model_override matches Some(m) ==> agent.outcome(seq![task]).model_override == Some(
            m@,
        ),
        agent.model_override is None ==> agent.outcome(seq![task]).model_override is None,
{
    reveal_strlit(" ");
    assert(" "@ =~= seq![' ']);
    let two = seq![task, more];
    assert(two.drop_last() =~= seq![task]);
    assert(join(two, " "@) == task + seq![' '] + more);
    let nothing = Seq::<Seq<char>>::empty();
    assert(join(nothing, " "@) == Seq::<char>::empty());
    assert(trim(Seq::<char>::empty()) =~= Seq::<char>::empty());
}

/// The prompt of a server is fetched with the values that were given, by
/// position, under the names of its arguments; more values than names, or the
/// other way round, are passed over.
pub proof fn law_prompts_are_fetched_with_their_arguments(
    c: McpPromptCommand,
    args: Seq<Seq<char>>,
    i: int,
)
    ensures
        ({
            let a = c.outcome(args).immediate_action;
            let n = if c.args@.len() < args.len() {
                c.args@.len()
            } else {
                args.len()
            };
            &&& a is Some
            &&& a->0 is FetchPrompt
            &&& a->0->FetchPrompt_server == c.server_name@
            &&& a->0->FetchPrompt_prompt == c.prompt_name@
            &&& a->0->FetchPrompt_arguments.len() == n
            &&& 0 <= i < n ==> a->0->FetchPrompt_arguments[i] == (c.args@[i].name@, args[i])
            &&& c.outcome(args).message_to_send is None
        }),
{
}

/// A prompt that was fetched is sent as it came; an empty one is not sent, and a
/// failure is said in a message that names the prompt and the reason.
pub proof fn law_fetched_prompts_are_sent(name: Seq<char>, text: Seq<char>)
    ensures
        text.len() > 0 ==> prompt_outcome(name, Ok(text)).message_to_send == Some(text),
        text.len() == 0 ==> prompt_outcome(name, Ok(text)).message_to_send is None,
        prompt_outcome(name, Ok(text)).immediate_action is None,
        prompt_outcome(name, Err(text)).message_to_send == Some(
            "Error fetching MCP prompt `"@ + name + "`: "@ + text,
        ),
{
}

// ── What is offered ──────────────────────────────────────────────────────────

/// All that was typed occurs in a text in order, without regard to case.
pub open spec fn typed_in(partial: Seq<char>, text: Seq<char>) -> bool {
    exists|at: Seq<int>| occurs_at(lowercase(partial), lowercase(text), 0, at)
}

/// What was typed occurs in the value or in the label of an entry.
pub open spec fn meets(partial: Seq<char>, item: CompletionItemView) -> bool {
    typed_in(partial, item.value) || typed_in(partial, item.display)
}

proof fn lemma_meets(partial: Seq<char>, item: CompletionItemView)
    requires
        partial.len() > 0,
    ensures
        item_matches(partial, item) == meets(partial, item),
{
    law_fuzzy_matches_subsequences(partial, item.value);
    law_fuzzy_matches_subsequences(partial, item.display);
}

/// What is shown of an entry.
pub open spec fn same_entry(a: CompletionItemView, b: CompletionItemView) -> bool {
    a.value == b.value && a.display == b.display && a.description == b.description
}

proof fn lemma_filtered_meets(items: Seq<CompletionItemView>, partial: Seq<char>, i: int)
    requires
        0 <= i < filtered(items, partial).len(),
    ensures
        partial.len() > 0 ==> meets(partial, filtered(items, partial)[i]),
        exists|k: int|
            0 <= k < items.len() && same_entry(#[trigger] items[k], filtered(items, partial)[i]),
{
    let x = filtered(items, partial)[i];
    assert(filtered(items, partial).contains(x));
    if partial.len() > 0 {
        law_filter_keeps_matches(items, partial, x);
        let k = choose|k: int|
            0 <= k < items.len() && item_matches(partial, #[trigger] items[k]) && x == with_score(
                partial,
                items[k],
            );
        lemma_meets(partial, items[k]);
        assert(same_entry(items[k], x));
    } else {
        assert(partial =~= seq![]);
        law_empty_filter_keeps_all(items, x);
        assert(items.contains(x));
        let k = choose|k: int| 0 <= k < items.len() && items[k] == x;
        assert(same_entry(items[k], x));
    }
}

proof fn lemma_filtered_offers(items: Seq<CompletionItemView>, partial: Seq<char>, k: int)
    requires
        0 <= k < items.len(),
        partial.len() == 0 || meets(partial, items[k]),
    ensures
        exists|i: int|
            0 <= i < filtered(items, partial).len() && same_entry(
                #[trigger] filtered(items, partial)[i],
                items[k],
            ),
{
    if partial.len() > 0 {
        lemma_meets(partial, items[k]);
        let x = with_score(partial, items[k]);
        law_filter_keeps_matches(items, partial, x);
        assert(filtered(items, partial).contains(x));
        let i = choose|i: int| 0 <= i < filtered(items, partial).len() && filtered(items, partial)[i] == x;
        assert(same_entry(filtered(items, partial)[i], items[k]));
    } else {
        assert(partial =~= seq![]);
        law_empty_filter_keeps_all(items, items[k]);
        assert(items.contains(items[k]));
        assert(filtered(items, partial).contains(items[k]));
        let i = choose|i: int|
            0 <= i < filtered(items, partial).len() && filtered(items, partial)[i] == items[k];
        assert(same_entry(filtered(items, partial)[i], items[k]));
    }
}

proof fn lemma_provider_items(
    order: Seq<int>,
    ps: Seq<ProviderView>,
    current: Option<Seq<char>>,
    n: int,
)
    requires
        0 <= n < order.len(),
        current != Some(specifier(ps[order[n]].provider, ps[order[n]].model)),
    ensures
        provider_items(order, ps, current).contains(provider_item(ps[order[n]])),
    decreases order.len(),
{
    let init = order.drop_last();
    let all = provider_items(order, ps, current);
    let x = provider_item(ps[order[n]]);
    if n == order.len() - 1 {
        assert(all.last() == x);
        assert(all[all.len() - 1] == x);
    } else {
        assert(init[n] == order[n]);
        lemma_provider_items(init, ps, current, n);
        let part = provider_items(init, ps, current);
        let i = choose|i: int| 0 <= i < part.len() && part[i] == x;
        assert(all[i] == x);
    }
}

proof fn lemma_provider_items_only(
    order: Seq<int>,
    ps: Seq<ProviderView>,
    current: Option<Seq<char>>,
    i: int,
)
    requires
        0 <= i < provider_items(order, ps, current).len(),
    ensures
        exists|n: int|
            0 <= n < order.len() && provider_items(order, ps, current)[i] == provider_item(
                ps[#[trigger] order[n]],
            ) && current != Some(specifier(ps[order[n]].provider, ps[order[n]].model)),
    decreases order.len(),
{
    let init = order.drop_last();
    let part = provider_items(init, ps, current);
    if i < part.len() {
        lemma_provider_items_only(init, ps, current, i);
        let n = choose|n: int|
            0 <= n < init.len() && part[i] == provider_item(ps[#[trigger] init[n]]) && current
                != Some(specifier(ps[init[n]].provider, ps[init[n]].model));
        assert(order[n] == init[n]);
    } else {
        assert(order[order.len() - 1] == order.last());
    }
}

proof fn lemma_catalog_items(order: Seq<int>, cs: Seq<CatalogView>, current: Seq<char>, n: int)
    requires
        0 <= n < order.len(),
        specifier(cs[order[n]].provider, cs[order[n]].id) != current,
    ensures
        catalog_items(order, cs, current).contains(catalog_item(cs[order[n]])),
    decreases order.len(),
{
    let init = order.drop_last();
    let all = catalog_items(order, cs, current);
    let x = catalog_item(cs[order[n]]);
    if n == order.len() - 1 {
        assert(all.last() == x);
        assert(all[all.len() - 1] == x);
    } else {
        assert(init[n] == order[n]);
        lemma_catalog_items(init, cs, current, n);
        let part = catalog_items(init, cs, current);
        let i = choose|i: int| 0 <= i < part.len() && part[i] == x;
        assert(all[i] == x);
    }
}

proof fn lemma_catalog_items_only(order: Seq<int>, cs: Seq<CatalogView>, current: Seq<char>, i: int)
    requires
        0 <= i < catalog_items(order, cs, current).len(),
    ensures
        exists|n: int|
            0 <= n < order.len() && catalog_items(order, cs, current)[i] == catalog_item(
                cs[#[trigger] order[n]],
            ) && specifier(cs[order[n]].provider, cs[order[n]].id) != current,
    decreases order.len(),
{
    let init = order.drop_last();
    let part = catalog_items(init, cs, current);
    if i < part.len() {
        lemma_catalog_items_only(init, cs, current, i);
        let n = choose|n: int|
            0 <= n < init.len() && part[i] == catalog_item(cs[#[trigger] init[n]]) && specifier(
                cs[init[n]].provider,
                cs[init[n]].id,
            ) != current;
        assert(order[n] == init[n]);
    } else {
        assert(order[order.len() - 1] == order.last());
    }
}

/// Every model of the catalog and every configured provider can be chosen, but
/// for the one in use; and nothing else can.
pub proof fn law_every_model_is_a_candidate(ctx: ContextView, k: int, p: int, i: int)
    ensures
        ({
            let now = ctx.current_model_provider + seq!['/'] + ctx.current_model_name;
            let all = model_candidates(ctx);
            &&& 0 <= k < ctx.catalog.len() && ctx.catalog[k].provider + seq!['/']
                + ctx.catalog[k].id != now ==> exists|n: int|
                0 <= n < all.len() && (#[trigger] all[n]).value == ctx.catalog[k].provider
                    + seq!['/'] + ctx.catalog[k].id
            &&& 0 <= p < ctx.providers.len() && ctx.providers[p].provider + seq!['/']
                + ctx.providers[p].model != now ==> exists|n: int|
                0 <= n < all.len() && (#[trigger] all[n]).value == ctx.providers[p].name
            &&& 0 <= i < all.len() ==> (exists|n: int|
                0 <= n < ctx.catalog.len() && all[i].value == (#[trigger] ctx.catalog[n]).provider
                    + seq!['/'] + ctx.catalog[n].id && all[i].value != now) || (exists|n: int|
                0 <= n < ctx.providers.len() && all[i].value == (
                #[trigger] ctx.providers[n]).name && ctx.providers[n].provider + seq!['/']
                    + ctx.providers[n].model != now)
        }),
{
    reveal_strlit("/");
    assert("/"@ =~= seq!['/']);
    let now = current_model(ctx);
    let po = provider_order(ctx.providers);
    let co = catalog_order(ctx.catalog);
    lemma_orders_cover(ctx);
    let ps = provider_items(po, ctx.providers, Some(now));
    let cs = catalog_items(co, ctx.catalog, now);
    let all = model_candidates(ctx);
    if 0 <= k < ctx.catalog.len() && specifier(ctx.catalog[k].provider, ctx.catalog[k].id) != now {
        lemma_covers_hits(co, ctx.catalog.len(), k);
        let n = choose|n: int| 0 <= n < co.len() && co[n] == k;
        lemma_catalog_items(co, ctx.catalog, now, n);
        let j = choose|j: int| 0 <= j < cs.len() && cs[j] == catalog_item(ctx.catalog[k]);
        assert(all[ps.len() + j] == cs[j]);
    }
    if 0 <= p < ctx.providers.len() && specifier(
        ctx.providers[p].provider,
        ctx.providers[p].model,
    ) != now {
        lemma_covers_hits(po, ctx.providers.len(), p);
        let n = choose|n: int| 0 <= n < po.len() && po[n] == p;
        lemma_provider_items(po, ctx.providers, Some(now), n);
        let j = choose|j: int| 0 <= j < ps.len() && ps[j] == provider_item(ctx.providers[p]);
        assert(all[j] == ps[j]);
    }
    if 0 <= i < all.len() {
        if i < ps.len() {
            assert(all[i] == ps[i]);
            lemma_provider_items_only(po, ctx.providers, Some(now), i);
            let n = choose|n: int|
                0 <= n < po.len() && ps[i] == provider_item(ctx.providers[#[trigger] po[n]])
                    && Some(now) != Some(
                    specifier(ctx.providers[po[n]].provider, ctx.providers[po[n]].model),
                );
            assert(all[i].value == ctx.providers[po[n]].name);
        } else {
            let j = i - ps.len();
            assert(all[i] == cs[j]);
            lemma_catalog_items_only(co, ctx.catalog, now, j);
            let n = choose|n: int|
                0 <= n < co.len() && cs[j] == catalog_item(ctx.catalog[#[trigger] co[n]])
                    && specifier(ctx.catalog[co[n]].provider, ctx.catalog[co[n]].id) != now;
            assert(all[i].value == ctx.catalog[co[n]].provider + seq!['/'] + ctx.catalog[co[n]].id);
        }
    }
}

proof fn lemma_orders_cover(ctx: ContextView)
    ensures
        covers(provider_order(ctx.providers), ctx.providers.len()),
        covers(catalog_order(ctx.catalog), ctx.catalog.len()),
{
    law_stable_order(
        ctx.providers.map_values(
            |p: ProviderView|
                crate::order::SortKeyView { rank: 0, first: p.name, second: seq![] },
        ),
    );
    law_stable_order(
        ctx.catalog.map_values(
            |c: CatalogView|
                crate::order::SortKeyView { rank: 0, first: c.provider, second: c.id },
        ),
    );
}

proof fn lemma_provider_items_two(
    order: Seq<int>,
    ps: Seq<ProviderView>,
    current: Option<Seq<char>>,
    i: int,
    j: int,
)
    requires
        0 <= i < j < provider_items(order, ps, current).len(),
    ensures
        exists|a: int, b: int|
            0 <= a < b < order.len() && provider_items(order, ps, current)[i] == provider_item(
                ps[#[trigger] order[a]],
            ) && provider_items(order, ps, current)[j] == provider_item(ps[#[trigger] order[b]]),
    decreases order.len(),
{
    let init = order.drop_last();
    let part = provider_items(init, ps, current);
    if j < part.len() {
        lemma_provider_items_two(init, ps, current, i, j);
        let (a, b) = choose|a: int, b: int|
            0 <= a < b < init.len() && part[i] == provider_item(ps[#[trigger] init[a]]) && part[j]
                == provider_item(ps[#[trigger] init[b]]);
        assert(order[a] == init[a] && order[b] == init[b]);
    } else {
        lemma_provider_items_only(init, ps, current, i);
        let a = choose|a: int|
            0 <= a < init.len() && part[i] == provider_item(ps[#[trigger] init[a]]) && current
                != Some(specifier(ps[init[a]].provider, ps[init[a]].model));
        assert(order[a] == init[a] && order[order.len() - 1] == order.last());
    }
}

proof fn lemma_catalog_items_two(
    order: Seq<int>,
    cs: Seq<CatalogView>,
    current: Seq<char>,
    i: int,
    j: int,
)
    requires
        0 <= i < j < catalog_items(order, cs, current).len(),
    ensures
        exists|a: int, b: int|
            0 <= a < b < order.len() && catalog_items(order, cs, current)[i] == catalog_item(
                cs[#[trigger] order[a]],
            ) && catalog_items(order, cs, current)[j] == catalog_item(cs[#[trigger] order[b]]),
    decreases order.len(),
{
    let init = order.drop_last();
    let part = catalog_items(init, cs, current);
    if j < part.len() {
        lemma_catalog_items_two(init, cs, current, i, j);
        let (a, b) = choose|a: int, b: int|
            0 <= a < b < init.len() && part[i] == catalog_item(cs[#[trigger] init[a]]) && part[j]
                == catalog_item(cs[#[trigger] init[b]]);
        assert(order[a] == init[a] && order[b] == init[b]);
    } else {
        lemma_catalog_items_only(init, cs, current, i);
        let a = choose|a: int|
            0 <= a < init.len() && part[i] == catalog_item(cs[#[trigger] init[a]]) && specifier(
                cs[init[a]].provider,
                cs[init[a]].id,
            ) != current;
        assert(order[a] == init[a] && order[order.len() - 1] == order.last());
    }
}

/// The configured providers come before the catalog, by their names. The catalog
/// comes by provider, and the models of one provider by their names.
pub proof fn law_models_are_listed_by_name(ctx: ContextView, current: Seq<char>, i: int, j: int)
    requires
        0 <= i < j,
    ensures
        ({
            let ps = provider_items(provider_order(ctx.providers), ctx.providers, Some(current));
            let cs = catalog_items(catalog_order(ctx.catalog), ctx.catalog, current);
            &&& current == ctx.current_model_provider + seq!['/'] + ctx.current_model_name
                ==> model_candidates(ctx) == ps + cs
            &&& j < ps.len() ==> !lex_less(ps[j].value, ps[i].value)
            &&& j < cs.len() ==> exists|a: int, b: int|
                0 <= a < ctx.catalog.len() && 0 <= b < ctx.catalog.len() && cs[i].value
                    == #[trigger] ctx.catalog[a].provider + seq!['/'] + ctx.catalog[a].id
                    && cs[j].value == #[trigger] ctx.catalog[b].provider + seq!['/']
                    + ctx.catalog[b].id && (ctx.catalog[a].provider == ctx.catalog[b].provider
                    ==> !lex_less(ctx.catalog[b].id, ctx.catalog[a].id)) && (
                ctx.catalog[a].provider != ctx.catalog[b].provider ==> !lex_less(
                    ctx.catalog[b].provider,
                    ctx.catalog[a].provider,
                ))
        }),
{
    reveal_strlit("/");
    assert("/"@ =~= seq!['/']);
    let po = provider_order(ctx.providers);
    let co = catalog_order(ctx.catalog);
    let ps = provider_items(po, ctx.providers, Some(current));
    let cs = catalog_items(co, ctx.catalog, current);
    lemma_orders_cover(ctx);
    if j < ps.len() {
        let keys = ctx.providers.map_values(
            |p: ProviderView| SortKeyView { rank: 0, first: p.name, second: seq![] },
        );
        law_stable_order(keys);
        lemma_provider_items_two(po, ctx.providers, Some(current), i, j);
        let (a, b) = choose|a: int, b: int|
            0 <= a < b < po.len() && ps[i] == provider_item(ctx.providers[#[trigger] po[a]])
                && ps[j] == provider_item(ctx.providers[#[trigger] po[b]]);
        assert(in_order(po, keys));
        assert(keys[po[a]].first == ps[i].value && keys[po[b]].first == ps[j].value);
        crate::order::lemma_lex_irreflexive(ps[i].value);
    }
    if j < cs.len() {
        let keys = ctx.catalog.map_values(
            |c: CatalogView| SortKeyView { rank: 0, first: c.provider, second: c.id },
        );
        law_stable_order(keys);
        lemma_catalog_items_two(co, ctx.catalog, current, i, j);
        let (a, b) = choose|a: int, b: int|
            0 <= a < b < co.len() && cs[i] == catalog_item(ctx.catalog[#[trigger] co[a]]) && cs[j]
                == catalog_item(ctx.catalog[#[trigger] co[b]]);
        assert(in_order(co, keys));
        let (x, y) = (co[a], co[b]);
        assert(keys[x].first == ctx.catalog[x].provider && keys[y].first
            == ctx.catalog[y].provider);
        assert(keys[x].second == ctx.catalog[x].id && keys[y].second == ctx.catalog[y].id);
        assert(cs[i].value == ctx.catalog[x].provider + seq!['/'] + ctx.catalog[x].id);
        assert(cs[j].value == ctx.catalog[y].provider + seq!['/'] + ctx.catalog[y].id);
    }
}

/// For a model that is being typed exactly those candidates are offered in whose
/// value or label the typed characters occur in order, the best score first. The
/// model in use comes before all others where its name is met. With nothing
/// typed all of them are offered.
pub proof fn law_models_are_offered_by_what_was_typed(
    partial: Seq<char>,
    ctx: ContextView,
    k: int,
    i: int,
    j: int,
)
    ensures
        ({
            let now = ctx.current_model_provider + seq!['/'] + ctx.current_model_name;
            let r = ModelCommand.completions(0, partial, ctx);
            let all = model_candidates(ctx);
            let first: int = if partial.len() == 0 || typed_in(partial, now) {
                1
            } else {
                0
            };
            &&& r.len() >= first
            &&& first == 1 ==> r[0].value == now
            &&& first <= i < r.len() && partial.len() > 0 ==> meets(partial, r[i])
            &&& first <= i < r.len() ==> exists|n: int|
                0 <= n < all.len() && same_entry(#[trigger] all[n], r[i])
            &&& 0 <= k < all.len() && (partial.len() == 0 || meets(partial, all[k])) ==> exists|
                n: int,
            |
                first <= n < r.len() && same_entry(#[trigger] r[n], all[k])
            &&& first <= i < j < r.len() && partial.len() > 0 ==> r[i].score >= r[j].score
        }),
        ModelCommand.completions(1, partial, ctx).len() == 0,
{
    reveal_strlit("/");
    assert("/"@ =~= seq!['/']);
    let now = current_model(ctx);
    if partial.len() > 0 {
        law_fuzzy_matches_subsequences(partial, now);
    }
    let all = model_candidates(ctx);
    let rest = filtered(all, partial);
    let r = ModelCommand.completions(0, partial, ctx);
    let first: int = if partial.len() == 0 || typed_in(partial, now) {
        1
    } else {
        0
    };
    assert(forall|n: int| 0 <= n < rest.len() ==> r[first + n] == rest[n]);
    assert(r.len() == first + rest.len());
    if first <= i < r.len() {
        lemma_filtered_meets(all, partial, i - first);
        assert(r[i] == rest[i - first]);
    }
    if 0 <= k < all.len() && (partial.len() == 0 || meets(partial, all[k])) {
        lemma_filtered_offers(all, partial, k);
        let n = choose|n: int| 0 <= n < rest.len() && same_entry(#[trigger] rest[n], all[k]);
        assert(same_entry(r[first + n], all[k]));
    }
    if first <= i < j < r.len() && partial.len() > 0 {
        law_filter_ranks(all, partial, i - first, j - first);
        assert(r[i] == rest[i - first] && r[j] == rest[j - first]);
    }
}

/// For a provider that is being typed the configured ones and the built-in ones
/// are offered that what was typed occurs in, and only those.
pub proof fn law_providers_are_offered_by_what_was_typed(
    partial: Seq<char>,
    ctx: ContextView,
    p: int,
    d: int,
    i: int,
)
    requires
        partial.len() > 0,
    ensures
        ({
            let r = ProviderCommand.completions(0, partial, ctx);
            &&& 0 <= i < r.len() ==> meets(partial, r[i])
            &&& 0 <= p < ctx.providers.len() && typed_in(partial, ctx.providers[p].name) ==> exists|
                n: int,
            |
                0 <= n < r.len() && (#[trigger] r[n]).value == ctx.providers[p].name
            &&& 0 <= d < ctx.drivers.len() && typed_in(partial, ctx.drivers[d].id) ==> exists|
                n: int,
            |
                0 <= n < r.len() && (#[trigger] r[n]).value == ctx.drivers[d].id
        }),
        ProviderCommand.completions(1, partial, ctx).len() == 0,
{
    let po = provider_order(ctx.providers);
    lemma_orders_cover(ctx);
    let ps = provider_items(po, ctx.providers, None);
    let ds = ctx.drivers.map_values(|d: DriverView| driver_item(d));
    let all = ps + ds;
    let r = ProviderCommand.completions(0, partial, ctx);
    assert(r == filtered(all, partial));
    if 0 <= i < r.len() {
        lemma_filtered_meets(all, partial, i);
    }
    if 0 <= p < ctx.providers.len() && typed_in(partial, ctx.providers[p].name) {
        lemma_covers_hits(po, ctx.providers.len(), p);
        let n = choose|n: int| 0 <= n < po.len() && po[n] == p;
        lemma_provider_items(po, ctx.providers, None, n);
        let j = choose|j: int| 0 <= j < ps.len() && ps[j] == provider_item(ctx.providers[p]);
        assert(all[j] == ps[j]);
        lemma_filtered_offers(all, partial, j);
        let m = choose|m: int| 0 <= m < r.len() && same_entry(#[trigger] r[m], all[j]);
        assert(r[m].value == ctx.providers[p].name);
    }
    if 0 <= d < ctx.drivers.len() && typed_in(partial, ctx.drivers[d].id) {
        let j = ps.len() + d;
        assert(all[j] == ds[d]);
        lemma_filtered_offers(all, partial, j);
        let m = choose|m: int| 0 <= m < r.len() && same_entry(#[trigger] r[m], all[j]);
        assert(r[m].value == ctx.drivers[d].id);
    }
}

/// For a mode that is being typed the three modes are offered that what was
/// typed occurs in; all of them where nothing was typed.
pub proof fn law_modes_are_offered_by_what_was_typed(
    partial: Seq<char>,
    ctx: ContextView,
    i: int,
)
    ensures
        ({
            let r = ModeCommand.completions(0, partial, ctx);
            let has = |v: Seq<char>|
                exists|n: int| 0 <= n < r.len() && (#[trigger] r[n]).value == v;
            &&& partial.len() == 0 || typed_in(partial, "research"@) ==> has("research"@)
            &&& partial.len() == 0 || typed_in(partial, "plan"@) ==> has("plan"@)
            &&& partial.len() == 0 || typed_in(partial, "agent"@) ==> has("agent"@)
            &&& 0 <= i < r.len() ==> {
                &&& r[i].value == "research"@ || r[i].value == "plan"@ || r[i].value == "agent"@
                &&& partial.len() > 0 ==> meets(partial, r[i])
            }
        }),
        ModeCommand.completions(1, partial, ctx).len() == 0,
{
    let all = mode_items();
    let r = ModeCommand.completions(0, partial, ctx);
    assert(all[0].value == "research"@ && all[1].value == "plan"@ && all[2].value == "agent"@);
    if partial.len() == 0 || typed_in(partial, "research"@) {
        lemma_filtered_offers(all, partial, 0);
        let m = choose|m: int| 0 <= m < r.len() && same_entry(#[trigger] r[m], all[0]);
        assert(r[m].value == "research"@);
    }
    if partial.len() == 0 || typed_in(partial, "plan"@) {
        lemma_filtered_offers(all, partial, 1);
        let m = choose|m: int| 0 <= m < r.len() && same_entry(#[trigger] r[m], all[1]);
        assert(r[m].value == "plan"@);
    }
    if partial.len() == 0 || typed_in(partial, "agent"@) {
        lemma_filtered_offers(all, partial, 2);
        let m = choose|m: int| 0 <= m < r.len() && same_entry(#[trigger] r[m], all[2]);
        assert(r[m].value == "agent"@);
    }
    if 0 <= i < r.len() {
        lemma_filtered_meets(all, partial, i);
        let k = choose|k: int| 0 <= k < all.len() && same_entry(#[trigger] all[k], r[i]);
        assert(k == 0 || k == 1 || k == 2);
    }
}

proof fn lemma_words_are_filtered(words: Seq<Seq<char>>, partial: Seq<char>)
    ensures
        words_with_prefix(words, partial) == words.filter(
            |w: Seq<char>| partial.is_prefix_of(w),
        ).map_values(
            |w: Seq<char>|
                CompletionItemView { value: w, display: w, description: None, score: 0 },
        ),
    decreases words.len(),
{
    reveal(Seq::filter);
    let begins = |w: Seq<char>| partial.is_prefix_of(w);
    let entry = |w: Seq<char>|
        CompletionItemView { value: w, display: w, description: None, score: 0 };
    if words.len() > 0 {
        let init = words.drop_last();
        lemma_words_are_filtered(init, partial);
        let w = words.last();
        assert(has_prefix(w, partial) == partial.is_prefix_of(w)) by {
            if partial.len() <= w.len() {
                assert(w.take(partial.len() as int) =~= w.subrange(0, partial.len() as int));
            }
        }
        if begins(w) {
            assert(init.filter(begins).push(w).map_values(entry) =~= init.filter(
                begins,
            ).map_values(entry).push(entry(w)));
        }
    }
    assert(words_with_prefix(words, partial) =~= words.filter(begins).map_values(entry));
}

/// For the command of the servers, what it can be told and the servers are
/// offered that begin with what was typed, in order.
pub proof fn law_servers_are_offered_by_their_beginning(partial: Seq<char>, ctx: ContextView)
    ensures
        ({
            let begins = |w: Seq<char>| partial.is_prefix_of(w);
            let entry = |w: Seq<char>|
                CompletionItemView { value: w, display: w, description: None, score: 0 };
            &&& McpCommand.completions(0, partial, ctx) == seq![
                "list"@,
                "enable"@,
                "disable"@,
                "auth"@,
            ].filter(begins).map_values(entry)
            &&& McpCommand.completions(1, partial, ctx) == ctx.mcp_servers.filter(
                begins,
            ).map_values(entry)
            &&& McpCommand.completions(2, partial, ctx).len() == 0
        }),
{
    lemma_words_are_filtered(seq!["list"@, "enable"@, "disable"@, "auth"@], partial);
    lemma_words_are_filtered(ctx.mcp_servers, partial);
}

/// While a name is typed the commands are offered in whose names what was typed
/// occurs, and while an argument is typed what the command itself offers.
pub proof fn law_commands_are_offered_by_what_was_typed(
    list: Seq<Command>,
    partial: Seq<char>,
    ctx: ContextView,
    k: int,
    i: int,
    arg_index: nat,
)
    requires
        0 <= k < list.len(),
        crate::commands::registry::names_differ(list),
    ensures
        ({
            let r = completions_for(ParsedView::PartialCommand { partial }, list, ctx);
            &&& partial.len() == 0 || typed_in(partial, list[k].name_view()) ==> exists|n: int|
                0 <= n < r.len() && (#[trigger] r[n]).value == list[k].name_view()
                    && r[n].description == Some(list[k].description_view())
            &&& 0 <= i < r.len() ==> {
                &&& partial.len() > 0 ==> meets(partial, r[i])
                &&& exists|n: int|
                    0 <= n < list.len() && r[i].value == (#[trigger] list[n]).name_view()
            }
        }),
        completions_for(
            ParsedView::CompletingArgs { command: list[k].name_view(), arg_index, partial },
            list,
            ctx,
        ) == list[k].completions(arg_index, partial, ctx),
        completions_for(ParsedView::NotCommand, list, ctx).len() == 0,
{
    lemma_by_name(list, k);
    let all = list.map_values(|c: Command| name_item(c));
    let r = completions_for(ParsedView::PartialCommand { partial }, list, ctx);
    if partial.len() == 0 || typed_in(partial, list[k].name_view()) {
        lemma_filtered_offers(all, partial, k);
        let m = choose|m: int| 0 <= m < r.len() && same_entry(#[trigger] r[m], all[k]);
        assert(r[m].value == list[k].name_view());
    }
    if 0 <= i < r.len() {
        lemma_filtered_meets(all, partial, i);
        let n = choose|n: int| 0 <= n < all.len() && same_entry(#[trigger] all[n], r[i]);
        assert(r[i].value == list[n].name_view());
    }
}

proof fn lemma_position_is(s: Seq<char>, from: int, c: char, i: int)
    requires
        0 <= from <= i < s.len(),
        s[i] == c,
        forall|k: int| from <= k < i ==> s[k] != c,
    ensures
        position(s, from, c) == Some(i),
    decreases i - from,
{
    if from < i {
        lemma_position_is(s, from + 1, c, i);
    }
}

/// What a match is worth: a point for each character, five more at the start of
/// the text, two more behind a slash, a hyphen, an underscore or a space, and
/// three more right behind the match before.
pub proof fn law_matches_are_worth_points(s: Seq<char>, a: char, b: char, i: int, j: int)
    requires
        0 <= i < j < s.len(),
        s[i] == a,
        forall|k: int| 0 <= k < i ==> s[k] != a,
        s[j] == b,
        forall|k: int| i < k < j ==> s[k] != b,
    ensures
        ({
            let begins = |n: int|
                n > 0 && (s[n - 1] == '/' || s[n - 1] == '-' || s[n - 1] == '_' || s[n - 1]
                    == ' ');
            let one = 1 + (if i == 0 {
                5int
            } else {
                0
            }) + (if begins(i) {
                2int
            } else {
                0
            });
            let two = one + 1 + (if j == i + 1 {
                3int
            } else {
                0
            }) + (if begins(j) {
                2int
            } else {
                0
            });
            &&& score_of(seq![a], s) == Some(one as usize)
            &&& score_of(seq![a, b], s) == Some(two as usize)
        }),
        score_of(seq![], s) == Some(0usize),
{
    lemma_position_is(s, 0, a, i);
    lemma_position_is(s, i + 1, b, j);
    assert(seq![a].skip(1) =~= seq![]);
    assert(seq![a, b].skip(1) =~= seq![b]);
    assert(seq![b].skip(1) =~= seq![]);
    assert(points_from(seq![], s, i + 1, true) == Some(0nat));
    assert(points_from(seq![], s, j + 1, true) == Some(0nat));
    assert(points_from(seq![b], s, i + 1, true) == Some(match_points(s, i + 1, j, true)));
}

/// Case does not matter to a match, and an empty pattern matches everything.
pub proof fn law_case_does_not_matter(pattern: Seq<char>, a: Seq<char>, b: Seq<char>)
    requires
        lowercase(a) == lowercase(b),
    ensures
        fuzzy(pattern, a) == fuzzy(pattern, b),
        fuzzy(seq![], a) == Some(0usize),
        pattern.len() > 0 ==> fuzzy(pattern, a) == score_of(lowercase(pattern), lowercase(a)),
{
}

// ── Names and descriptions ───────────────────────────────────────────────────

proof fn lemma_first_free(base: Seq<char>, sep: char, used: Set<Seq<char>>, i: nat, n: nat)
    requires
        1 <= i <= n < 1000,
        forall|k: nat| i <= k < n ==> used.contains(#[trigger] numbered(base, sep, k)),
        !used.contains(numbered(base, sep, n)),
    ensures
        unique_from(base, sep, used, i) == numbered(base, sep, n),
    decreases n - i,
{
    if i < n {
        assert(used.contains(numbered(base, sep, i)));
        lemma_first_free(base, sep, used, i + 1, n);
    }
}

/// A name that is in use gets the first number, from two on, that makes it new.
pub proof fn law_names_are_numbered_from_two(
    base: Seq<char>,
    sep: char,
    used: Set<Seq<char>>,
    n: nat,
)
    requires
        2 <= n < 1000,
        used.contains(base),
        forall|k: nat|
            2 <= k < n ==> used.contains(base + seq![sep] + #[trigger] crate::text::decimal(k)),
        !used.contains(base + seq![sep] + crate::text::decimal(n)),
    ensures
        unique_name(base, sep, used) == base + seq![sep] + crate::text::decimal(n),
{
    assert forall|k: nat| 1 <= k < n implies used.contains(#[trigger] numbered(base, sep, k)) by {
        if k >= 2 {
            assert(used.contains(base + seq![sep] + crate::text::decimal(k)));
        }
    }
    lemma_first_free(base, sep, used, 1, n);
}

/// A description is trimmed; where it is too long it is cut, and an ellipsis
/// stands at its end.
pub proof fn law_long_descriptions_are_cut(s: Seq<char>, max: nat)
    requires
        max > 0,
    ensures
        trim(s).len() <= max ==> short_description(s, max) == trim(s),
        trim(s).len() > max ==> {
            &&& short_description(s, max).len() == max
            &&& short_description(s, max).last() == '…'
            &&& short_description(s, max).drop_last() == trim(s).subrange(0, max - 1)
        },
{
    if trim(s).len() > max {
        assert(short_description(s, max).drop_last() =~= trim(s).subrange(0, max - 1));
    }
}

} // verus!
