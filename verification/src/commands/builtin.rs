//! The built-in commands.

use vstd::prelude::*;

use crate::commands::completion::{
    described_item, filter_and_rank, filtered, fuzzy, fuzzy_score, item_views, simple_item, CompletionItem,
    CompletionItemView,
};
use crate::commands::{
    action_result, argument_views, no_result, AgentMode, CatalogEntry, CatalogView, CommandArgument,
    CommandArgumentView, CommandContext, CommandResult, CommandResultView, ContextView, DriverView,
    ImmediateAction, ImmediateActionView, InspectorKind, ProviderEntry, ProviderView, SlashCommand,
};
use crate::order::{indices, key_views, sorted_order, stable_order, SortKey, SortKeyView};
use crate::text::{decimal, has_prefix, push_decimal, starts_with, str_eq, views};

verus! {

// ── Commands that ask for one action ─────────────────────────────────────────

/// An empty list of completions.
pub fn no_completions() -> (r: Vec<CompletionItem>)
    ensures
        item_views(r@) == Seq::<CompletionItemView>::empty(),
{
    let r: Vec<CompletionItem> = Vec::new();
    assert(item_views(r@) =~= seq![]);
    r
}

/// An empty list of arguments.
pub fn no_arguments() -> (r: Vec<CommandArgument>)
    ensures
        argument_views(r@) == Seq::<CommandArgumentView>::empty(),
{
    let r: Vec<CommandArgument> = Vec::new();
    assert(argument_views(r@) =~= seq![]);
    r
}

/// A list of one argument.
pub fn one_argument(argument: CommandArgument) -> (r: Vec<CommandArgument>)
    ensures
        argument_views(r@) == seq![argument@],
{
    let mut r: Vec<CommandArgument> = Vec::new();
    r.push(argument);
    assert(argument_views(r@) =~= seq![argument@]);
    r
}

/// Stops the run of the model.
#[derive(Clone, Copy, Debug)]
pub struct AbortCommand;

impl SlashCommand for AbortCommand {
    open spec fn name_view(&self) -> Seq<char> {
        "abort"@
    }

    open spec fn description_view(&self) -> Seq<char> {
        "Abort the current model run (preserves partial output; queued messages stay queued)"@
    }

    open spec fn arguments_view(&self) -> Seq<CommandArgumentView> {
        seq![]
    }

    open spec fn completions(&self, arg_index: nat, partial: Seq<char>, ctx: ContextView) -> Seq<
        CompletionItemView,
    > {
        seq![]
    }

    open spec fn outcome(&self, args: Seq<Seq<char>>) -> CommandResultView {
        action_result(ImmediateActionView::Abort)
    }

    fn name(&self) -> (r: &str) {
        "abort"
    }

    fn description(&self) -> (r: &str) {
        "Abort the current model run (preserves partial output; queued messages stay queued)"
    }

    fn arguments(&self) -> (r: Vec<CommandArgument>) {
        no_arguments()
    }

    fn complete(&self, arg_index: usize, partial: &str, ctx: &CommandContext) -> (r: Vec<
        CompletionItem,
    >) {
        no_completions()
    }

    fn execute(&self, args: Vec<String>) -> (r: CommandResult) {
        CommandResult::action(ImmediateAction::Abort)
    }
}

/// Clears the chat history.
#[derive(Clone, Copy, Debug)]
pub struct ClearCommand;

impl SlashCommand for ClearCommand {
    open spec fn name_view(&self) -> Seq<char> {
        "clear"@
    }

    open spec fn description_view(&self) -> Seq<char> {
        "Clear the chat history"@
    }

    open spec fn arguments_view(&self) -> Seq<CommandArgumentView> {
        seq![]
    }

    open spec fn completions(&self, arg_index: nat, partial: Seq<char>, ctx: ContextView) -> Seq<
        CompletionItemView,
    > {
        seq![]
    }

    open spec fn outcome(&self, args: Seq<Seq<char>>) -> CommandResultView {
        action_result(ImmediateActionView::ClearChat)
    }

    fn name(&self) -> (r: &str) {
        "clear"
    }

    fn description(&self) -> (r: &str) {
        "Clear the chat history"
    }

    fn arguments(&self) -> (r: Vec<CommandArgument>) {
        no_arguments()
    }

    fn complete(&self, arg_index: usize, partial: &str, ctx: &CommandContext) -> (r: Vec<
        CompletionItem,
    >) {
        no_completions()
    }

    fn execute(&self, args: Vec<String>) -> (r: CommandResult) {
        CommandResult::action(ImmediateAction::ClearChat)
    }
}

/// Starts a new conversation.
#[derive(Clone, Copy, Debug)]
pub struct NewCommand;

impl SlashCommand for NewCommand {
    open spec fn name_view(&self) -> Seq<char> {
        "new"@
    }

    open spec fn description_view(&self) -> Seq<char> {
        "Start a completely new conversation with a fresh JSONL file"@
    }

    open spec fn arguments_view(&self) -> Seq<CommandArgumentView> {
        seq![]
    }

    open spec fn completions(&self, arg_index: nat, partial: Seq<char>, ctx: ContextView) -> Seq<
        CompletionItemView,
    > {
        seq![]
    }

    open spec fn outcome(&self, args: Seq<Seq<char>>) -> CommandResultView {
        action_result(ImmediateActionView::NewConversation)
    }

    fn name(&self) -> (r: &str) {
        "new"
    }

    fn description(&self) -> (r: &str) {
        "Start a completely new conversation with a fresh JSONL file"
    }

    fn arguments(&self) -> (r: Vec<CommandArgument>) {
        no_arguments()
    }

    fn complete(&self, arg_index: usize, partial: &str, ctx: &CommandContext) -> (r: Vec<
        CompletionItem,
    >) {
        no_completions()
    }

    fn execute(&self, args: Vec<String>) -> (r: CommandResult) {
        CommandResult::action(ImmediateAction::NewConversation)
    }
}

/// Ends the program.
#[derive(Clone, Copy, Debug)]
pub struct QuitCommand;

impl SlashCommand for QuitCommand {
    open spec fn name_view(&self) -> Seq<char> {
        "quit"@
    }

    open spec fn description_view(&self) -> Seq<char> {
        "Exit sven"@
    }

    open spec fn arguments_view(&self) -> Seq<CommandArgumentView> {
        seq![]
    }

    open spec fn completions(&self, arg_index: nat, partial: Seq<char>, ctx: ContextView) -> Seq<
        CompletionItemView,
    > {
        seq![]
    }

    open spec fn outcome(&self, args: Seq<Seq<char>>) -> CommandResultView {
        action_result(ImmediateActionView::Quit)
    }

    fn name(&self) -> (r: &str) {
        "quit"
    }

    fn description(&self) -> (r: &str) {
        "Exit sven"
    }

    fn arguments(&self) -> (r: Vec<CommandArgument>) {
        no_arguments()
    }

    fn complete(&self, arg_index: usize, partial: &str, ctx: &CommandContext) -> (r: Vec<
        CompletionItem,
    >) {
        no_completions()
    }

    fn execute(&self, args: Vec<String>) -> (r: CommandResult) {
        CommandResult::action(ImmediateAction::Quit)
    }
}

/// Looks for skills again.
#[derive(Clone, Copy, Debug)]
pub struct RefreshCommand;

impl SlashCommand for RefreshCommand {
    open spec fn name_view(&self) -> Seq<char> {
        "refresh"@
    }

    open spec fn description_view(&self) -> Seq<char> {
        "Re-scan skill directories and update slash commands"@
    }

    open spec fn arguments_view(&self) -> Seq<CommandArgumentView> {
        seq![]
    }

    open spec fn completions(&self, arg_index: nat, partial: Seq<char>, ctx: ContextView) -> Seq<
        CompletionItemView,
    > {
        seq![]
    }

    open spec fn outcome(&self, args: Seq<Seq<char>>) -> CommandResultView {
        action_result(ImmediateActionView::RefreshSkills)
    }

    fn name(&self) -> (r: &str) {
        "refresh"
    }

    fn description(&self) -> (r: &str) {
        "Re-scan skill directories and update slash commands"
    }

    fn arguments(&self) -> (r: Vec<CommandArgument>) {
        no_arguments()
    }

    fn complete(&self, arg_index: usize, partial: &str, ctx: &CommandContext) -> (r: Vec<
        CompletionItem,
    >) {
        no_completions()
    }

    fn execute(&self, args: Vec<String>) -> (r: CommandResult) {
        CommandResult::action(ImmediateAction::RefreshSkills)
    }
}

/// Shows the skills.
#[derive(Clone, Copy, Debug)]
pub struct SkillsCommand;

impl SlashCommand for SkillsCommand {
    open spec fn name_view(&self) -> Seq<char> {
        "skills"@
    }

    open spec fn description_view(&self) -> Seq<char> {
        "Show all available skills as a browsable tree with paths and metadata."@
    }

    open spec fn arguments_view(&self) -> Seq<CommandArgumentView> {
        seq![]
    }

    open spec fn completions(&self, arg_index: nat, partial: Seq<char>, ctx: ContextView) -> Seq<
        CompletionItemView,
    > {
        seq![]
    }

    open spec fn outcome(&self, args: Seq<Seq<char>>) -> CommandResultView {
        action_result(ImmediateActionView::OpenInspector { kind: InspectorKind::Skills })
    }

    fn name(&self) -> (r: &str) {
        "skills"
    }

    fn description(&self) -> (r: &str) {
        "Show all available skills as a browsable tree with paths and metadata."
    }

    fn arguments(&self) -> (r: Vec<CommandArgument>) {
        no_arguments()
    }

    fn complete(&self, arg_index: usize, partial: &str, ctx: &CommandContext) -> (r: Vec<
        CompletionItem,
    >) {
        no_completions()
    }

    fn execute(&self, args: Vec<String>) -> (r: CommandResult) {
        CommandResult::action(ImmediateAction::OpenInspector { kind: InspectorKind::Skills })
    }
}

/// Shows the subagents.
#[derive(Clone, Copy, Debug)]
pub struct SubagentsCommand;

impl SlashCommand for SubagentsCommand {
    open spec fn name_view(&self) -> Seq<char> {
        "subagents"@
    }

    open spec fn description_view(&self) -> Seq<char> {
        "Show all configured subagents with their descriptions, models, and paths."@
    }

    open spec fn arguments_view(&self) -> Seq<CommandArgumentView> {
        seq![]
    }

    open spec fn completions(&self, arg_index: nat, partial: Seq<char>, ctx: ContextView) -> Seq<
        CompletionItemView,
    > {
        seq![]
    }

    open spec fn outcome(&self, args: Seq<Seq<char>>) -> CommandResultView {
        action_result(ImmediateActionView::OpenInspector { kind: InspectorKind::Subagents })
    }

    fn name(&self) -> (r: &str) {
        "subagents"
    }

    fn description(&self) -> (r: &str) {
        "Show all configured subagents with their descriptions, models, and paths."
    }

    fn arguments(&self) -> (r: Vec<CommandArgument>) {
        no_arguments()
    }

    fn complete(&self, arg_index: usize, partial: &str, ctx: &CommandContext) -> (r: Vec<
        CompletionItem,
    >) {
        no_completions()
    }

    fn execute(&self, args: Vec<String>) -> (r: CommandResult) {
        CommandResult::action(ImmediateAction::OpenInspector { kind: InspectorKind::Subagents })
    }
}

/// Shows subagents and their buffers.
#[derive(Clone, Copy, Debug)]
pub struct PeersCommand;

impl SlashCommand for PeersCommand {
    open spec fn name_view(&self) -> Seq<char> {
        "peers"@
    }

    open spec fn description_view(&self) -> Seq<char> {
        "Show configured subagents and active subprocess buffers (subagents spawned via the task tool)."@
    }

    open spec fn arguments_view(&self) -> Seq<CommandArgumentView> {
        seq![]
    }

    open spec fn completions(&self, arg_index: nat, partial: Seq<char>, ctx: ContextView) -> Seq<
        CompletionItemView,
    > {
        seq![]
    }

    open spec fn outcome(&self, args: Seq<Seq<char>>) -> CommandResultView {
        action_result(ImmediateActionView::OpenInspector { kind: InspectorKind::Peers })
    }

    fn name(&self) -> (r: &str) {
        "peers"
    }

    fn description(&self) -> (r: &str) {
        "Show configured subagents and active subprocess buffers (subagents spawned via the task tool)."
    }

    fn arguments(&self) -> (r: Vec<CommandArgument>) {
        no_arguments()
    }

    fn complete(&self, arg_index: usize, partial: &str, ctx: &CommandContext) -> (r: Vec<
        CompletionItem,
    >) {
        no_completions()
    }

    fn execute(&self, args: Vec<String>) -> (r: CommandResult) {
        CommandResult::action(ImmediateAction::OpenInspector { kind: InspectorKind::Peers })
    }
}

/// Shows the context of the agent.
#[derive(Clone, Copy, Debug)]
pub struct ContextCommand;

impl SlashCommand for ContextCommand {
    open spec fn name_view(&self) -> Seq<char> {
        "context"@
    }

    open spec fn description_view(&self) -> Seq<char> {
        "Show the current agent context: project root, skills/agents counts, and active output buffer handles."@
    }

    open spec fn arguments_view(&self) -> Seq<CommandArgumentView> {
        seq![]
    }

    open spec fn completions(&self, arg_index: nat, partial: Seq<char>, ctx: ContextView) -> Seq<
        CompletionItemView,
    > {
        seq![]
    }

    open spec fn outcome(&self, args: Seq<Seq<char>>) -> CommandResultView {
        action_result(ImmediateActionView::OpenInspector { kind: InspectorKind::Context })
    }

    fn name(&self) -> (r: &str) {
        "context"
    }

    fn description(&self) -> (r: &str) {
        "Show the current agent context: project root, skills/agents counts, and active output buffer handles."
    }

    fn arguments(&self) -> (r: Vec<CommandArgument>) {
        no_arguments()
    }

    fn complete(&self, arg_index: usize, partial: &str, ctx: &CommandContext) -> (r: Vec<
        CompletionItem,
    >) {
        no_completions()
    }

    fn execute(&self, args: Vec<String>) -> (r: CommandResult) {
        CommandResult::action(ImmediateAction::OpenInspector { kind: InspectorKind::Context })
    }
}

/// Shows the tools.
#[derive(Clone, Copy, Debug)]
pub struct ToolsCommand;

impl SlashCommand for ToolsCommand {
    open spec fn name_view(&self) -> Seq<char> {
        "tools"@
    }

    open spec fn description_view(&self) -> Seq<char> {
        "Show all available tools with descriptions and parameter counts. In node-proxy mode, fetches the tool list live from the connected node."@
    }

    open spec fn arguments_view(&self) -> Seq<CommandArgumentView> {
        seq![]
    }

    open spec fn completions(&self, arg_index: nat, partial: Seq<char>, ctx: ContextView) -> Seq<
        CompletionItemView,
    > {
        seq![]
    }

    open spec fn outcome(&self, args: Seq<Seq<char>>) -> CommandResultView {
        action_result(ImmediateActionView::OpenInspector { kind: InspectorKind::Tools })
    }

    fn name(&self) -> (r: &str) {
        "tools"
    }

    fn description(&self) -> (r: &str) {
        "Show all available tools with descriptions and parameter counts. In node-proxy mode, fetches the tool list live from the connected node."
    }

    fn arguments(&self) -> (r: Vec<CommandArgument>) {
        no_arguments()
    }

    fn complete(&self, arg_index: usize, partial: &str, ctx: &CommandContext) -> (r: Vec<
        CompletionItem,
    >) {
        no_completions()
    }

    fn execute(&self, args: Vec<String>) -> (r: CommandResult) {
        CommandResult::action(ImmediateAction::OpenInspector { kind: InspectorKind::Tools })
    }
}

// ── Arguments ────────────────────────────────────────────────────────────────

/// The first argument, empty where there is none.
pub open spec fn first_arg(args: Seq<Seq<char>>) -> Seq<char> {
    if args.len() > 0 {
        args[0]
    } else {
        seq![]
    }
}

/// Takes the argument at an index, empty where there is none.
fn arg_at(args: &Vec<String>, i: usize) -> (r: String)
    ensures
        r@ == (if i < args@.len() {
            views(args@)[i as int]
        } else {
            seq![]
        }),
{
    if i < args.len() {
        assert(views(args@)[i as int] == args@[i as int]@);
        args[i].clone()
    } else {
        let r = String::new();
        assert(r@ =~= seq![]);
        r
    }
}

/// The result that switches to a model.
pub open spec fn model_result(model: Seq<char>) -> CommandResultView {
    if model.len() == 0 {
        no_result()
    } else {
        CommandResultView { model_override: Some(model), ..no_result() }
    }
}

fn switch_model(model: String) -> (r: CommandResult)
    ensures
        r@ == model_result(model@),
{
    if model.as_str().is_empty() {
        return CommandResult::default();
    }
    CommandResult {
        model_override: Some(model),
        mode_override: None,
        message_to_send: None,
        immediate_action: None,
    }
}

// ── Modes ────────────────────────────────────────────────────────────────────

/// The modes to choose from.
pub open spec fn mode_items() -> Seq<CompletionItemView> {
    seq![
        described_item(
            "research"@,
            "research"@,
            "Read-only tools — explores and answers, no writes"@,
        ),
        described_item(
            "plan"@,
            "plan"@,
            "Generates a structured plan without making code changes"@,
        ),
        described_item("agent"@, "agent"@, "Full agent with read/write tools (default)"@),
    ]
}

/// The mode of a name.
pub open spec fn mode_of(name: Seq<char>) -> Option<AgentMode> {
    if name == "research"@ {
        Some(AgentMode::Research)
    } else if name == "plan"@ {
        Some(AgentMode::Plan)
    } else if name == "agent"@ {
        Some(AgentMode::Agent)
    } else {
        None
    }
}

/// Switches the mode of the agent.
#[derive(Clone, Copy, Debug)]
pub struct ModeCommand;

impl SlashCommand for ModeCommand {
    open spec fn name_view(&self) -> Seq<char> {
        "mode"@
    }

    open spec fn description_view(&self) -> Seq<char> {
        "Switch agent mode for the next message (research / plan / agent)"@
    }

    open spec fn arguments_view(&self) -> Seq<CommandArgumentView> {
        seq![
            CommandArgumentView {
                name: "mode"@,
                description: "Agent mode: research, plan, or agent"@,
                required: true,
            },
        ]
    }

    open spec fn completions(&self, arg_index: nat, partial: Seq<char>, ctx: ContextView) -> Seq<
        CompletionItemView,
    > {
        if arg_index != 0 {
            seq![]
        } else {
            filtered(mode_items(), partial)
        }
    }

    open spec fn outcome(&self, args: Seq<Seq<char>>) -> CommandResultView {
        CommandResultView { mode_override: mode_of(first_arg(args)), ..no_result() }
    }

    fn name(&self) -> (r: &str) {
        "mode"
    }

    fn description(&self) -> (r: &str) {
        "Switch agent mode for the next message (research / plan / agent)"
    }

    fn arguments(&self) -> (r: Vec<CommandArgument>) {
        one_argument(
            CommandArgument::required("mode", "Agent mode: research, plan, or agent"),
        )
    }

    fn complete(&self, arg_index: usize, partial: &str, ctx: &CommandContext) -> (r: Vec<
        CompletionItem,
    >) {
        if arg_index != 0 {
            return no_completions();
        }
        let mut items: Vec<CompletionItem> = Vec::new();
        items.push(
            CompletionItem::with_desc(
                "research",
                "research",
                "Read-only tools — explores and answers, no writes",
            ),
        );
        items.push(
            CompletionItem::with_desc(
                "plan",
                "plan",
                "Generates a structured plan without making code changes",
            ),
        );
        items.push(
            CompletionItem::with_desc(
                "agent",
                "agent",
                "Full agent with read/write tools (default)",
            ),
        );
        assert(item_views(items@) =~= mode_items());
        filter_and_rank(items, partial)
    }

    fn execute(&self, args: Vec<String>) -> (r: CommandResult) {
        let name = arg_at(&args, 0);
        let mode = if str_eq(name.as_str(), "research") {
            Some(AgentMode::Research)
        } else if str_eq(name.as_str(), "plan") {
            Some(AgentMode::Plan)
        } else if str_eq(name.as_str(), "agent") {
            Some(AgentMode::Agent)
        } else {
            None
        };
        CommandResult {
            model_override: None,
            mode_override: mode,
            message_to_send: None,
            immediate_action: None,
        }
    }
}

// ── Models and providers ─────────────────────────────────────────────────────

/// A provider and a model as one specifier.
pub open spec fn specifier(provider: Seq<char>, model: Seq<char>) -> Seq<char> {
    provider + "/"@ + model
}

fn format_specifier(provider: &str, model: &str) -> (r: String)
    ensures
        r@ == specifier(provider@, model@),
{
    let mut out = provider.to_owned();
    out.append("/");
    out.append(model);
    out
}

/// The entry of a configured provider.
pub open spec fn provider_item(p: ProviderView) -> CompletionItemView {
    described_item(
        p.name,
        p.name + " (custom: "@ + p.provider + "  "@ + p.model + ")"@,
        "custom provider from config"@,
    )
}

fn make_provider_item(p: &ProviderEntry) -> (r: CompletionItem)
    ensures
        r@ == provider_item(p@),
{
    let mut display = p.name.clone();
    display.append(" (custom: ");
    display.append(p.provider.as_str());
    display.append("  ");
    display.append(p.model.as_str());
    display.append(")");
    CompletionItem::with_desc(p.name.as_str(), display.as_str(), "custom provider from config")
}

/// The entry of a model of the catalog.
pub open spec fn catalog_item(c: CatalogView) -> CompletionItemView {
    let value = specifier(c.provider, c.id);
    described_item(
        value,
        if c.description.len() == 0 {
            value
        } else {
            value + " — "@ + c.description
        },
        "ctx:"@ + decimal(c.context_window as nat) + " max_out:"@ + decimal(
            c.max_output_tokens as nat,
        ),
    )
}

fn make_catalog_item(c: &CatalogEntry) -> (r: CompletionItem)
    ensures
        r@ == catalog_item(c@),
{
    let value = format_specifier(c.provider.as_str(), c.id.as_str());
    let mut display = value.clone();
    if !c.description.as_str().is_empty() {
        display.append(" — ");
        display.append(c.description.as_str());
    }
    let mut desc = "ctx:".to_owned();
    push_decimal(&mut desc, c.context_window as u64);
    desc.append(" max_out:");
    push_decimal(&mut desc, c.max_output_tokens as u64);
    CompletionItem::with_desc(value.as_str(), display.as_str(), desc.as_str())
}

/// The order of configured providers: by name.
pub open spec fn provider_order(ps: Seq<ProviderView>) -> Seq<int> {
    stable_order(
        ps.map_values(|p: ProviderView| SortKeyView { rank: 0, first: p.name, second: seq![] }),
    )
}

/// The order of catalog entries: by provider, then by identifier.
pub open spec fn catalog_order(cs: Seq<CatalogView>) -> Seq<int> {
    stable_order(
        cs.map_values(|c: CatalogView| SortKeyView { rank: 0, first: c.provider, second: c.id }),
    )
}

/// The entries of the providers at the indices `order`, without the one that is
/// `current`.
pub open spec fn provider_items(
    order: Seq<int>,
    ps: Seq<ProviderView>,
    current: Option<Seq<char>>,
) -> Seq<CompletionItemView>
    decreases order.len(),
{
    if order.len() == 0 {
        seq![]
    } else {
        let init = provider_items(order.drop_last(), ps, current);
        let p = ps[order.last()];
        if current == Some(specifier(p.provider, p.model)) {
            init
        } else {
            init.push(provider_item(p))
        }
    }
}

/// The entries of the models at the indices `order`, without the one that is
/// `current`.
pub open spec fn catalog_items(order: Seq<int>, cs: Seq<CatalogView>, current: Seq<char>) -> Seq<
    CompletionItemView,
>
    decreases order.len(),
{
    if order.len() == 0 {
        seq![]
    } else {
        let init = catalog_items(order.drop_last(), cs, current);
        let c = cs[order.last()];
        if specifier(c.provider, c.id) == current {
            init
        } else {
            init.push(catalog_item(c))
        }
    }
}

/// The specifier of the model in use.
pub open spec fn current_model(ctx: ContextView) -> Seq<char> {
    specifier(ctx.current_model_provider, ctx.current_model_name)
}

/// The entry of the model in use.
pub open spec fn current_item(ctx: ContextView) -> CompletionItemView {
    described_item(
        current_model(ctx),
        current_model(ctx) + " (current)"@,
        "currently active model"@,
    )
}

/// The models to choose from, but for the one in use.
pub open spec fn model_candidates(ctx: ContextView) -> Seq<CompletionItemView> {
    provider_items(provider_order(ctx.providers), ctx.providers, Some(current_model(ctx)))
        + catalog_items(catalog_order(ctx.catalog), ctx.catalog, current_model(ctx))
}

/// The completions of a model: the model in use comes first, if it matches.
pub open spec fn model_completions(partial: Seq<char>, ctx: ContextView) -> Seq<
    CompletionItemView,
> {
    let rest = filtered(model_candidates(ctx), partial);
    if partial.len() == 0 || fuzzy(partial, current_model(ctx)) is Some {
        seq![current_item(ctx)] + rest
    } else {
        rest
    }
}

/// The entry of a built-in driver.
pub open spec fn driver_item(d: DriverView) -> CompletionItemView {
    described_item(d.id, d.id + " — "@ + d.name, d.description)
}

fn push_provider_items(
    items: &mut Vec<CompletionItem>,
    ctx: &CommandContext,
    current: Option<&String>,
)
    ensures
        item_views(final(items)@) == item_views(old(items)@) + provider_items(
            provider_order(ctx@.providers),
            ctx@.providers,
            match current {
                Some(c) => Some(c@),
                None => None,
            },
        ),
{
    let ghost ps = ctx@.providers;
    let ghost f = |p: ProviderView| SortKeyView { rank: 0, first: p.name, second: seq![] };
    let ghost skip = match current {
        Some(c) => Some(c@),
        None => None,
    };
    let mut keys: Vec<SortKey> = Vec::new();
    let mut i: usize = 0;
    while i < ctx.providers.len()
        invariant
            ps == ctx@.providers,
            f == (|p: ProviderView| SortKeyView { rank: 0, first: p.name, second: seq![] }),
            i <= ctx.providers@.len(),
            keys@.len() == i,
            forall|k: int| 0 <= k < i ==> (#[trigger] keys@[k])@ == f(ps[k]),
        decreases ctx.providers.len() - i,
    {
        let second = String::new();
        assert(second@ =~= seq![]);
        keys.push(SortKey { rank: 0, first: ctx.providers[i].name.clone(), second });
        assert(ps[i as int] == ctx.providers@[i as int]@);
        i += 1;
    }
    assert(key_views(keys@) =~= ps.map_values(f));
    let order = sorted_order(&keys);
    let ghost idx = indices(order@);
    let mut j: usize = 0;
    assert(idx.take(0) =~= seq![]);
    assert(item_views(items@) + seq![] =~= item_views(items@));
    while j < order.len()
        invariant
            ps == ctx@.providers,
            idx == indices(order@),
            skip == (match current {
                Some(c) => Some(c@),
                None => None,
            }),
            j <= order@.len(),
            forall|k: int| 0 <= k < order@.len() ==> #[trigger] order@[k] < ctx.providers@.len(),
            item_views(items@) == item_views(old(items)@) + provider_items(
                idx.take(j as int),
                ps,
                skip,
            ),
        decreases order.len() - j,
    {
        let p = &ctx.providers[order[j]];
        let ghost before = items@;
        assert(ps[order@[j as int] as int] == p@);
        assert(idx.take(j + 1).drop_last() =~= idx.take(j as int));
        assert(idx.take(j + 1).last() == order@[j as int]);
        let value = format_specifier(p.provider.as_str(), p.model.as_str());
        let same = match current {
            Some(c) => value == *c,
            None => false,
        };
        if !same {
            items.push(make_provider_item(p));
            assert(item_views(items@) =~= item_views(before).push(provider_item(p@)));
        }
        j += 1;
        assert(item_views(items@) =~= item_views(old(items)@) + provider_items(
            idx.take(j as int),
            ps,
            skip,
        ));
    }
    assert(idx.take(order@.len() as int) =~= idx);
}

fn push_catalog_items(items: &mut Vec<CompletionItem>, ctx: &CommandContext, current: &String)
    ensures
        item_views(final(items)@) == item_views(old(items)@) + catalog_items(
            catalog_order(ctx@.catalog),
            ctx@.catalog,
            current@,
        ),
{
    let ghost cs = ctx@.catalog;
    let ghost f = |c: CatalogView| SortKeyView { rank: 0, first: c.provider, second: c.id };
    let mut keys: Vec<SortKey> = Vec::new();
    let mut i: usize = 0;
    while i < ctx.catalog.len()
        invariant
            cs == ctx@.catalog,
            f == (|c: CatalogView| SortKeyView { rank: 0, first: c.provider, second: c.id }),
            i <= ctx.catalog@.len(),
            keys@.len() == i,
            forall|k: int| 0 <= k < i ==> (#[trigger] keys@[k])@ == f(cs[k]),
        decreases ctx.catalog.len() - i,
    {
        let entry = &ctx.catalog[i];
        keys.push(SortKey { rank: 0, first: entry.provider.clone(), second: entry.id.clone() });
        assert(cs[i as int] == ctx.catalog@[i as int]@);
        i += 1;
    }
    assert(key_views(keys@) =~= cs.map_values(f));
    let order = sorted_order(&keys);
    let ghost idx = indices(order@);
    let mut j: usize = 0;
    assert(idx.take(0) =~= seq![]);
    assert(item_views(items@) + seq![] =~= item_views(items@));
    while j < order.len()
        invariant
            cs == ctx@.catalog,
            idx == indices(order@),
            j <= order@.len(),
            forall|k: int| 0 <= k < order@.len() ==> #[trigger] order@[k] < ctx.catalog@.len(),
            item_views(items@) == item_views(old(items)@) + catalog_items(
                idx.take(j as int),
                cs,
                current@,
            ),
        decreases order.len() - j,
    {
        let c = &ctx.catalog[order[j]];
        let ghost before = items@;
        assert(cs[order@[j as int] as int] == c@);
        assert(idx.take(j + 1).drop_last() =~= idx.take(j as int));
        assert(idx.take(j + 1).last() == order@[j as int]);
        let value = format_specifier(c.provider.as_str(), c.id.as_str());
        if value != *current {
            items.push(make_catalog_item(c));
            assert(item_views(items@) =~= item_views(before).push(catalog_item(c@)));
        }
        j += 1;
        assert(item_views(items@) =~= item_views(old(items)@) + catalog_items(
            idx.take(j as int),
            cs,
            current@,
        ));
    }
    assert(idx.take(order@.len() as int) =~= idx);
}

fn complete_model(partial: &str, ctx: &CommandContext) -> (r: Vec<CompletionItem>)
    ensures
        item_views(r@) == model_completions(partial@, ctx@),
{
    let current = format_specifier(
        ctx.current_model_provider.as_str(),
        ctx.current_model_name.as_str(),
    );
    let mut display = current.clone();
    display.append(" (current)");
    let item = CompletionItem::with_desc(
        current.as_str(),
        display.as_str(),
        "currently active model",
    );
    let mut candidates = no_completions();
    push_provider_items(&mut candidates, ctx, Some(&current));
    push_catalog_items(&mut candidates, ctx, &current);
    assert(item_views(candidates@) =~= model_candidates(ctx@));
    let mut ranked = filter_and_rank(candidates, partial);
    if partial.is_empty() || fuzzy_score(partial, current.as_str()).is_some() {
        let ghost before = ranked@;
        ranked.insert(0, item);
        assert(item_views(ranked@) =~= seq![current_item(ctx@)] + item_views(before));
    }
    ranked
}

/// Switches the model.
#[derive(Clone, Copy, Debug)]
pub struct ModelCommand;

impl SlashCommand for ModelCommand {
    open spec fn name_view(&self) -> Seq<char> {
        "model"@
    }

    open spec fn description_view(&self) -> Seq<char> {
        "Switch model permanently (e.g. /model anthropic/opus-4-6)"@
    }

    open spec fn arguments_view(&self) -> Seq<CommandArgumentView> {
        seq![
            CommandArgumentView {
                name: "model"@,
                description: "Model specifier: provider/name, named provider, or bare model name from catalog"@,
                required: true,
            },
        ]
    }

    open spec fn completions(&self, arg_index: nat, partial: Seq<char>, ctx: ContextView) -> Seq<
        CompletionItemView,
    > {
        if arg_index != 0 {
            seq![]
        } else {
            model_completions(partial, ctx)
        }
    }

    open spec fn outcome(&self, args: Seq<Seq<char>>) -> CommandResultView {
        model_result(first_arg(args))
    }

    fn name(&self) -> (r: &str) {
        "model"
    }

    fn description(&self) -> (r: &str) {
        "Switch model permanently (e.g. /model anthropic/opus-4-6)"
    }

    fn arguments(&self) -> (r: Vec<CommandArgument>) {
        one_argument(
            CommandArgument::required("model", "Model specifier: provider/name, named provider, or bare model name from catalog"),
        )
    }

    fn complete(&self, arg_index: usize, partial: &str, ctx: &CommandContext) -> (r: Vec<
        CompletionItem,
    >) {
        if arg_index != 0 {
            return no_completions();
        }
        complete_model(partial, ctx)
    }

    fn execute(&self, args: Vec<String>) -> (r: CommandResult) {
        switch_model(arg_at(&args, 0))
    }
}

/// Switches the provider.
#[derive(Clone, Copy, Debug)]
pub struct ProviderCommand;

impl SlashCommand for ProviderCommand {
    open spec fn name_view(&self) -> Seq<char> {
        "provider"@
    }

    open spec fn description_view(&self) -> Seq<char> {
        "Switch provider for the next message (keeps current model name)"@
    }

    open spec fn arguments_view(&self) -> Seq<CommandArgumentView> {
        seq![
            CommandArgumentView {
                name: "provider"@,
                description: "Provider id (e.g. openai, anthropic, ollama) or named provider from config"@,
                required: true,
            },
        ]
    }

    open spec fn completions(&self, arg_index: nat, partial: Seq<char>, ctx: ContextView) -> Seq<
        CompletionItemView,
    > {
        if arg_index != 0 {
            seq![]
        } else {
            filtered(
                provider_items(provider_order(ctx.providers), ctx.providers, None)
                    + ctx.drivers.map_values(|d: DriverView| driver_item(d)),
                partial,
            )
        }
    }

    open spec fn outcome(&self, args: Seq<Seq<char>>) -> CommandResultView {
        model_result(first_arg(args))
    }

    fn name(&self) -> (r: &str) {
        "provider"
    }

    fn description(&self) -> (r: &str) {
        "Switch provider for the next message (keeps current model name)"
    }

    fn arguments(&self) -> (r: Vec<CommandArgument>) {
        one_argument(
            CommandArgument::required("provider", "Provider id (e.g. openai, anthropic, ollama) or named provider from config"),
        )
    }

    fn complete(&self, arg_index: usize, partial: &str, ctx: &CommandContext) -> (r: Vec<
        CompletionItem,
    >) {
        if arg_index != 0 {
            return no_completions();
        }
        let mut items = no_completions();
        push_provider_items(&mut items, ctx, None);
        let ghost head = item_views(items@);
        let ghost f = |d: DriverView| driver_item(d);
        let ghost ds = ctx@.drivers;
        let mut i: usize = 0;
        assert(head + ds.take(0).map_values(f) =~= head);
        while i < ctx.drivers.len()
            invariant
                ds == ctx@.drivers,
                f == (|d: DriverView| driver_item(d)),
                i <= ctx.drivers@.len(),
                item_views(items@) == head + ds.take(i as int).map_values(f),
            decreases ctx.drivers.len() - i,
        {
            let driver = &ctx.drivers[i];
            let mut display = driver.id.clone();
            display.append(" — ");
            display.append(driver.name.as_str());
            let ghost before = items@;
            items.push(
                CompletionItem::with_desc(
                    driver.id.as_str(),
                    display.as_str(),
                    driver.description.as_str(),
                ),
            );
            i += 1;
            proof {
                assert(ds.take(i as int) =~= ds.take(i - 1).push(driver@));
                assert(item_views(items@) =~= item_views(before).push(driver_item(driver@)));
                assert(item_views(items@) =~= head + ds.take(i as int).map_values(f));
            }
        }
        proof {
            assert(ds.take(ctx.drivers@.len() as int) =~= ds);
            assert(head =~= provider_items(provider_order(ctx@.providers), ctx@.providers, None));
        }
        filter_and_rank(items, partial)
    }

    fn execute(&self, args: Vec<String>) -> (r: CommandResult) {
        switch_model(arg_at(&args, 0))
    }
}

// ── Servers ──────────────────────────────────────────────────────────────────

/// The words that begin with `partial`, as entries.
pub open spec fn words_with_prefix(words: Seq<Seq<char>>, partial: Seq<char>) -> Seq<
    CompletionItemView,
>
    decreases words.len(),
{
    if words.len() == 0 {
        seq![]
    } else {
        let init = words_with_prefix(words.drop_last(), partial);
        if has_prefix(words.last(), partial) {
            init.push(simple_item(words.last()))
        } else {
            init
        }
    }
}

fn complete_words(words: &Vec<String>, partial: &str) -> (r: Vec<CompletionItem>)
    ensures
        item_views(r@) == words_with_prefix(views(words@), partial@),
{
    let mut out = no_completions();
    let ghost all = views(words@);
    let mut i: usize = 0;
    assert(all.take(0) =~= seq![]);
    while i < words.len()
        invariant
            all == views(words@),
            i <= words@.len(),
            item_views(out@) == words_with_prefix(all.take(i as int), partial@),
        decreases words.len() - i,
    {
        let ghost before = out@;
        if starts_with(words[i].as_str(), partial) {
            out.push(CompletionItem::simple(words[i].as_str()));
            assert(item_views(out@) =~= item_views(before).push(simple_item(words@[i as int]@)));
        }
        i += 1;
        proof {
            assert(all.take(i as int).drop_last() =~= all.take(i - 1));
            assert(all.take(i as int).last() == words@[i - 1]@);
        }
    }
    assert(all.take(words@.len() as int) =~= all);
    out
}

/// What the `mcp` command can be told to do.
pub open spec fn mcp_words() -> Seq<Seq<char>> {
    seq!["list"@, "enable"@, "disable"@, "auth"@]
}

/// Shows and manages servers.
#[derive(Clone, Copy, Debug)]
pub struct McpCommand;

impl SlashCommand for McpCommand {
    open spec fn name_view(&self) -> Seq<char> {
        "mcp"@
    }

    open spec fn description_view(&self) -> Seq<char> {
        "Show and manage MCP servers. Usage: /mcp [list|enable|disable|auth] [name]"@
    }

    open spec fn arguments_view(&self) -> Seq<CommandArgumentView> {
        seq![]
    }

    open spec fn completions(&self, arg_index: nat, partial: Seq<char>, ctx: ContextView) -> Seq<
        CompletionItemView,
    > {
        if arg_index == 0 {
            words_with_prefix(mcp_words(), partial)
        } else if arg_index == 1 {
            words_with_prefix(ctx.mcp_servers, partial)
        } else {
            seq![]
        }
    }

    open spec fn outcome(&self, args: Seq<Seq<char>>) -> CommandResultView {
        if first_arg(args) == "auth"@ && args.len() > 1 && args[1].len() > 0 {
            action_result(ImmediateActionView::McpAuth { server: args[1] })
        } else {
            action_result(ImmediateActionView::OpenInspector { kind: InspectorKind::Mcp })
        }
    }

    fn name(&self) -> (r: &str) {
        "mcp"
    }

    fn description(&self) -> (r: &str) {
        "Show and manage MCP servers. Usage: /mcp [list|enable|disable|auth] [name]"
    }

    fn arguments(&self) -> (r: Vec<CommandArgument>) {
        no_arguments()
    }

    fn complete(&self, arg_index: usize, partial: &str, ctx: &CommandContext) -> (r: Vec<
        CompletionItem,
    >) {
        if arg_index == 0 {
            let mut words: Vec<String> = Vec::new();
            words.push("list".to_owned());
            words.push("enable".to_owned());
            words.push("disable".to_owned());
            words.push("auth".to_owned());
            assert(views(words@) =~= mcp_words());
            complete_words(&words, partial)
        } else if arg_index == 1 {
            complete_words(&ctx.mcp_servers, partial)
        } else {
            no_completions()
        }
    }

    fn execute(&self, args: Vec<String>) -> (r: CommandResult) {
        let sub = arg_at(&args, 0);
        let server = arg_at(&args, 1);
        if str_eq(sub.as_str(), "auth") && !server.as_str().is_empty() {
            CommandResult::action(ImmediateAction::McpAuth { server })
        } else {
            CommandResult::action(ImmediateAction::OpenInspector { kind: InspectorKind::Mcp })
        }
    }
}

} // verus!
