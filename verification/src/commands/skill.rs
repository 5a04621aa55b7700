//! Slash commands that are backed by files: skills, user commands, subagents.

use vstd::prelude::*;
use vstd::hash_set::StringHashSet;
use crate::commands::builtin::{no_completions, one_argument};
use crate::commands::completion::{opt_string_view, CompletionItem, CompletionItemView};
use crate::commands::{
    message_result, CommandArgument, CommandArgumentView, CommandContext, CommandResult,
    CommandResultView, ContextView, SlashCommand,
};
use crate::text::{
    decimal, join, join_strings, lemma_decimal_injective, lemma_split_on_len, lowercase,
    push_decimal, split_on, split_str, take_chars, to_lowercase, trim, trim_end, trim_end_str,
    trim_str, views,
};

verus! {

/// The longest description that is shown, in characters.
pub const MAX_DESCRIPTION_LEN: usize = 100;

// ── Texts ────────────────────────────────────────────────────────────────────

/// A description in at most `max` characters, the last an ellipsis where
/// something was cut off.
pub open spec fn short_description(s: Seq<char>, max: nat) -> Seq<char> {
    let t = trim(s);
    if t.len() <= max {
        t
    } else if max == 0 {
        seq!['…']
    } else {
        t.take(max - 1).push('…')
    }
}

/// Trims a description and cuts it to `max` characters.
pub fn truncate_description(s: &str, max: usize) -> (r: String)
    ensures
        r@ == short_description(s@, max as nat),
{
    let trimmed = trim_str(s);
    if trimmed.unicode_len() <= max {
        return trimmed.to_owned();
    }
    let keep: usize = max.saturating_sub(1);
    let mut out = take_chars(trimmed, keep).to_owned();
    out.push('…');
    assert(out@ =~= short_description(s@, max as nat));
    out
}

/// The message of a command with this content: the content alone, or with the
/// task behind it.
pub open spec fn content_message(content: Seq<char>, args: Seq<Seq<char>>) -> Seq<char> {
    let task = trim(join(args, " "@));
    if task.len() == 0 {
        trim_end(content)
    } else {
        trim_end(content) + "\n\nTask: "@ + task
    }
}

/// Builds the message that a command with this content sends.
pub fn build_content_message(content: &str, args: &Vec<String>) -> (r: String)
    ensures
        r@ == content_message(content@, views(args@)),
{
    let joined = join_strings(args, " ");
    let task = trim_str(joined.as_str());
    let mut out = trim_end_str(content).to_owned();
    if !task.is_empty() {
        out.append("\n\nTask: ");
        out.append(task);
    }
    out
}

// ── Unique names ─────────────────────────────────────────────────────────────

/// The `i`-th name that is tried for a base name, from one on.
pub open spec fn numbered(base: Seq<char>, sep: char, i: nat) -> Seq<char> {
    if i <= 1 {
        base
    } else {
        base + seq![sep] + decimal(i)
    }
}

/// The first of the names from number `i` on that is not in use; past number
/// nine hundred and ninety-nine, the name with an `x`.
pub open spec fn unique_from(base: Seq<char>, sep: char, used: Set<Seq<char>>, i: nat) -> Seq<char>
    decreases 1000 - i,
{
    if i >= 1000 {
        base + seq![sep] + "x"@
    } else if !used.contains(numbered(base, sep, i)) {
        numbered(base, sep, i)
    } else {
        unique_from(base, sep, used, i + 1)
    }
}

/// The name that a base name becomes.
pub open spec fn unique_name(base: Seq<char>, sep: char, used: Set<Seq<char>>) -> Seq<char> {
    unique_from(base, sep, used, 1)
}

/// Makes a name unique with a numeric suffix behind `sep`, and marks it as
/// used.
pub fn resolve_unique_name_sep(base: String, sep: char, used: &mut StringHashSet) -> (r: String)
    ensures
        r@ == unique_name(base@, sep, old(used)@),
        final(used)@ == old(used)@.insert(r@),
{
    if used.insert(base.clone()) {
        return base;
    }
    let mut i: usize = 2;
    assert(used@ =~= old(used)@);
    while i < 1000
        invariant
            2 <= i <= 1000,
            used@ == old(used)@,
            unique_name(base@, sep, old(used)@) == unique_from(base@, sep, old(used)@, i as nat),
        decreases 1000 - i,
    {
        let mut candidate = base.clone();
        candidate.push(sep);
        push_decimal(&mut candidate, i as u64);
        assert(candidate@ =~= numbered(base@, sep, i as nat));
        if used.insert(candidate.clone()) {
            return candidate;
        }
        assert(used@ =~= old(used)@);
        i += 1;
    }
    let mut fallback = base.clone();
    fallback.push(sep);
    fallback.append("x");
    assert(fallback@ =~= base@ + seq![sep] + "x"@);
    let _ = used.insert(fallback.clone());
    fallback
}

/// Makes a command name unique, with a hyphen before the number.
pub fn resolve_unique_command_name(base: String, used: &mut StringHashSet) -> (r: String)
    ensures
        r@ == unique_name(base@, '-', old(used)@),
        final(used)@ == old(used)@.insert(r@),
{
    resolve_unique_name_sep(base, '-', used)
}

// ── Skill commands ───────────────────────────────────────────────────────────

/// A user command found on disk.
#[derive(Debug, PartialEq, Eq)]
pub struct SkillInfo {
    /// The path of the command below its root, without the extension.
    pub command: String,
    pub description: String,
    pub content: String,
    pub skill_dir: String,
}

pub struct SkillInfoView {
    pub command: Seq<char>,
    pub description: Seq<char>,
    pub content: Seq<char>,
    pub skill_dir: Seq<char>,
}

impl View for SkillInfo {
    type V = SkillInfoView;

    open spec fn view(&self) -> SkillInfoView {
        SkillInfoView {
            command: self.command@,
            description: self.description@,
            content: self.content@,
            skill_dir: self.skill_dir@,
        }
    }
}

/// A slash command that sends the content of a file.
#[derive(Debug, PartialEq, Eq)]
pub struct SkillCommand {
    pub name: String,
    /// At most a hundred characters.
    pub description: String,
    pub content: String,
    pub skill_dir: String,
}

pub struct SkillCommandView {
    pub name: Seq<char>,
    pub description: Seq<char>,
    pub content: Seq<char>,
    pub skill_dir: Seq<char>,
}

impl View for SkillCommand {
    type V = SkillCommandView;

    open spec fn view(&self) -> SkillCommandView {
        SkillCommandView {
            name: self.name@,
            description: self.description@,
            content: self.content@,
            skill_dir: self.skill_dir@,
        }
    }
}

impl SlashCommand for SkillCommand {
    open spec fn name_view(&self) -> Seq<char> {
        self.name@
    }

    open spec fn description_view(&self) -> Seq<char> {
        self.description@
    }

    open spec fn arguments_view(&self) -> Seq<CommandArgumentView> {
        seq![
            CommandArgumentView {
                name: "task"@,
                description: "Optional task to perform using this skill"@,
                required: false,
            },
        ]
    }

    open spec fn completions(&self, arg_index: nat, partial: Seq<char>, ctx: ContextView) -> Seq<
        CompletionItemView,
    > {
        seq![]
    }

    open spec fn outcome(&self, args: Seq<Seq<char>>) -> CommandResultView {
        message_result(content_message(self.content@, args))
    }

    fn name(&self) -> (r: &str) {
        self.name.as_str()
    }

    fn description(&self) -> (r: &str) {
        self.description.as_str()
    }

    fn arguments(&self) -> (r: Vec<CommandArgument>) {
        one_argument(
            CommandArgument::optional("task", "Optional task to perform using this skill"),
        )
    }

    fn complete(&self, arg_index: usize, partial: &str, ctx: &CommandContext) -> (r: Vec<
        CompletionItem,
    >) {
        no_completions()
    }

    fn execute(&self, args: Vec<String>) -> (r: CommandResult) {
        CommandResult::message(build_content_message(self.content.as_str(), &args))
    }
}

/// A command path with its last part in lower case; the directories before it
/// stay as they are.
pub open spec fn normalised(command: Seq<char>) -> Seq<char> {
    let parts = split_on(command, '/');
    join(parts.drop_last().push(lowercase(parts.last())), "/"@)
}

fn normalise(command: &str) -> (r: String)
    ensures
        r@ == normalised(command@),
{
    let mut parts = split_str(command, '/');
    let ghost all = views(parts@);
    proof {
        lemma_split_on_len(command@, '/');
    }
    assert(all.len() == parts@.len());
    let last: usize = parts.len() - 1;
    assert(all.last() == parts@[last as int]@);
    let lower = to_lowercase(parts[last].as_str());
    parts.set(last, lower);
    assert(views(parts@) =~= all.drop_last().push(lower@));
    join_strings(&parts, "/")
}

/// The names of commands with these base names, in order: each is made unique
/// among those before it.
pub open spec fn unique_names(bases: Seq<Seq<char>>) -> Seq<Seq<char>>
    decreases bases.len(),
{
    if bases.len() == 0 {
        seq![]
    } else {
        let init = unique_names(bases.drop_last());
        init.push(unique_name(bases.last(), '-', init.to_set()))
    }
}

/// The commands of the files found: names are normalised and made unique.
pub open spec fn skill_commands(infos: Seq<SkillInfoView>) -> Seq<SkillCommandView> {
    let names = unique_names(infos.map_values(|i: SkillInfoView| normalised(i.command)));
    Seq::new(
        infos.len(),
        |k: int| SkillCommandView {
            name: names[k],
            description: short_description(infos[k].description, MAX_DESCRIPTION_LEN as nat),
            content: infos[k].content,
            skill_dir: infos[k].skill_dir,
        },
    )
}

proof fn lemma_unique_names_len(bases: Seq<Seq<char>>)
    ensures
        unique_names(bases).len() == bases.len(),
    decreases bases.len(),
{
    if bases.len() > 0 {
        lemma_unique_names_len(bases.drop_last());
    }
}

/// The names of a prefix are a prefix of the names.
proof fn lemma_unique_names_prefix(bases: Seq<Seq<char>>, n: int)
    requires
        0 <= n <= bases.len(),
    ensures
        unique_names(bases.take(n)) == unique_names(bases).take(n),
    decreases bases.len() - n,
{
    lemma_unique_names_len(bases);
    if n == bases.len() {
        assert(bases.take(n) =~= bases);
        assert(unique_names(bases).take(n) =~= unique_names(bases));
    } else {
        lemma_unique_names_prefix(bases, n + 1);
        let more = bases.take(n + 1);
        assert(more.drop_last() =~= bases.take(n));
        lemma_unique_names_len(bases.take(n));
        assert(unique_names(more).drop_last() =~= unique_names(bases.take(n)));
        assert(unique_names(bases).take(n + 1).drop_last() =~= unique_names(bases).take(n));
    }
}

/// A list with one more entry, as a set.
proof fn lemma_push_to_set(s: Seq<Seq<char>>, x: Seq<char>)
    ensures
        s.push(x).to_set() == s.to_set().insert(x),
{
    let more = s.push(x);
    assert forall|y: Seq<char>| more.to_set().contains(y) <==> s.to_set().insert(x).contains(y) by {
        if more.contains(y) {
            let i = choose|i: int| 0 <= i < more.len() && more[i] == y;
            if i < s.len() {
                assert(s[i] == y);
            }
        }
        if s.contains(y) {
            let i = choose|i: int| 0 <= i < s.len() && s[i] == y;
            assert(more[i] == y);
        }
        if y == x {
            assert(more[s.len() as int] == y);
        }
    }
    assert(more.to_set() =~= s.to_set().insert(x));
}

/// Builds a command for each user command found.
pub fn make_command_slash_commands(commands: &Vec<SkillInfo>) -> (r: Vec<SkillCommand>)
    ensures
        r@.map_values(|c: SkillCommand| c@) == skill_commands(
            commands@.map_values(|i: SkillInfo| i@),
        ),
{
    let ghost infos = commands@.map_values(|i: SkillInfo| i@);
    let ghost bases = infos.map_values(|i: SkillInfoView| normalised(i.command));
    let ghost names = unique_names(bases);
    let mut used = StringHashSet::new();
    let mut out: Vec<SkillCommand> = Vec::new();
    let mut k: usize = 0;
    proof {
        lemma_unique_names_len(bases);
        assert(bases.take(0) =~= seq![]);
        assert(used@ =~= unique_names(bases.take(0)).to_set());
    }
    while k < commands.len()
        invariant
            infos == commands@.map_values(|i: SkillInfo| i@),
            bases == infos.map_values(|i: SkillInfoView| normalised(i.command)),
            names == unique_names(bases),
            names.len() == bases.len(),
            k <= commands@.len(),
            out@.len() == k,
            used@ == unique_names(bases.take(k as int)).to_set(),
            forall|j: int|
                0 <= j < k ==> (#[trigger] out@[j])@ == (SkillCommandView {
                    name: names[j],
                    description: short_description(
                        infos[j].description,
                        MAX_DESCRIPTION_LEN as nat,
                    ),
                    content: infos[j].content,
                    skill_dir: infos[j].skill_dir,
                }),
        decreases commands.len() - k,
    {
        let cmd = &commands[k];
        assert(infos[k as int] == cmd@);
        let base = normalise(cmd.command.as_str());
        let name = resolve_unique_command_name(base, &mut used);
        proof {
            let more = bases.take(k + 1);
            assert(more.drop_last() =~= bases.take(k as int));
            assert(more.last() == base@);
            lemma_push_to_set(unique_names(bases.take(k as int)), name@);
            lemma_unique_names_prefix(bases, k + 1);
            lemma_unique_names_len(bases.take(k as int));
            assert(unique_names(more) == unique_names(bases.take(k as int)).push(name@));
            assert(names.take(k + 1)[k as int] == names[k as int]);
            assert(name@ == names[k as int]);
        }
        out.push(
            SkillCommand {
                name,
                description: truncate_description(cmd.description.as_str(), MAX_DESCRIPTION_LEN),
                content: cmd.content.clone(),
                skill_dir: cmd.skill_dir.clone(),
            },
        );
        k += 1;
    }
    assert(out@.map_values(|c: SkillCommand| c@) =~= skill_commands(infos));
    out
}

// ── Agent commands ───────────────────────────────────────────────────────────

/// A subagent found on disk.
#[derive(Debug, PartialEq, Eq)]
pub struct AgentInfo {
    pub name: String,
    pub description: String,
    pub model: Option<String>,
    pub content: String,
}

pub struct AgentInfoView {
    pub name: Seq<char>,
    pub description: Seq<char>,
    pub model: Option<Seq<char>>,
    pub content: Seq<char>,
}

impl View for AgentInfo {
    type V = AgentInfoView;

    open spec fn view(&self) -> AgentInfoView {
        AgentInfoView {
            name: self.name@,
            description: self.description@,
            model: opt_string_view(self.model),
            content: self.content@,
        }
    }
}

/// A slash command that sends the prompt of a subagent.
#[derive(Debug, PartialEq, Eq)]
pub struct AgentCommand {
    pub name: String,
    pub description: String,
    pub content: String,
    /// The model for the turn, if the subagent asks for one.
    pub model_override: Option<String>,
}

pub struct AgentCommandView {
    pub name: Seq<char>,
    pub description: Seq<char>,
    pub content: Seq<char>,
    pub model_override: Option<Seq<char>>,
}

impl View for AgentCommand {
    type V = AgentCommandView;

    open spec fn view(&self) -> AgentCommandView {
        AgentCommandView {
            name: self.name@,
            description: self.description@,
            content: self.content@,
            model_override: opt_string_view(self.model_override),
        }
    }
}

/// A copy of an optional string.
pub fn clone_option(o: &Option<String>) -> (r: Option<String>)
    ensures
        r == *o,
{
    match o {
        Some(s) => Some(s.clone()),
        None => None,
    }
}

impl SlashCommand for AgentCommand {
    open spec fn name_view(&self) -> Seq<char> {
        self.name@
    }

    open spec fn description_view(&self) -> Seq<char> {
        self.description@
    }

    open spec fn arguments_view(&self) -> Seq<CommandArgumentView> {
        seq![
            CommandArgumentView {
                name: "task"@,
                description: "Optional task for this subagent"@,
                required: false,
            },
        ]
    }

    open spec fn completions(&self, arg_index: nat, partial: Seq<char>, ctx: ContextView) -> Seq<
        CompletionItemView,
    > {
        seq![]
    }

    open spec fn outcome(&self, args: Seq<Seq<char>>) -> CommandResultView {
        CommandResultView {
            model_override: opt_string_view(self.model_override),
            ..message_result(content_message(self.content@, args))
        }
    }

    fn name(&self) -> (r: &str) {
        self.name.as_str()
    }

    fn description(&self) -> (r: &str) {
        self.description.as_str()
    }

    fn arguments(&self) -> (r: Vec<CommandArgument>) {
        one_argument(CommandArgument::optional("task", "Optional task for this subagent"))
    }

    fn complete(&self, arg_index: usize, partial: &str, ctx: &CommandContext) -> (r: Vec<
        CompletionItem,
    >) {
        no_completions()
    }

    fn execute(&self, args: Vec<String>) -> (r: CommandResult) {
        CommandResult {
            model_override: clone_option(&self.model_override),
            mode_override: None,
            message_to_send: Some(build_content_message(self.content.as_str(), &args)),
            immediate_action: None,
        }
    }
}

/// The commands of the subagents found: names are in lower case and unique.
pub open spec fn agent_commands(infos: Seq<AgentInfoView>) -> Seq<AgentCommandView> {
    let names = unique_names(infos.map_values(|i: AgentInfoView| lowercase(i.name)));
    Seq::new(
        infos.len(),
        |k: int| AgentCommandView {
            name: names[k],
            description: short_description(infos[k].description, MAX_DESCRIPTION_LEN as nat),
            content: infos[k].content,
            model_override: infos[k].model,
        },
    )
}

/// Builds a command for each subagent found.
pub fn make_agent_slash_commands(agents: &Vec<AgentInfo>) -> (r: Vec<AgentCommand>)
    ensures
        r@.map_values(|c: AgentCommand| c@) == agent_commands(agents@.map_values(|i: AgentInfo| i@)),
{
    let ghost infos = agents@.map_values(|i: AgentInfo| i@);
    let ghost bases = infos.map_values(|i: AgentInfoView| lowercase(i.name));
    let ghost names = unique_names(bases);
    let mut used = StringHashSet::new();
    let mut out: Vec<AgentCommand> = Vec::new();
    let mut k: usize = 0;
    proof {
        lemma_unique_names_len(bases);
        assert(bases.take(0) =~= seq![]);
        assert(used@ =~= unique_names(bases.take(0)).to_set());
    }
    while k < agents.len()
        invariant
            infos == agents@.map_values(|i: AgentInfo| i@),
            bases == infos.map_values(|i: AgentInfoView| lowercase(i.name)),
            names == unique_names(bases),
            names.len() == bases.len(),
            k <= agents@.len(),
            out@.len() == k,
            used@ == unique_names(bases.take(k as int)).to_set(),
            forall|j: int|
                0 <= j < k ==> (#[trigger] out@[j])@ == (AgentCommandView {
                    name: names[j],
                    description: short_description(
                        infos[j].description,
                        MAX_DESCRIPTION_LEN as nat,
                    ),
                    content: infos[j].content,
                    model_override: infos[j].model,
                }),
        decreases agents.len() - k,
    {
        let agent = &agents[k];
        assert(infos[k as int] == agent@);
        let base = to_lowercase(agent.name.as_str());
        let name = resolve_unique_command_name(base, &mut used);
        proof {
            let more = bases.take(k + 1);
            assert(more.drop_last() =~= bases.take(k as int));
            assert(more.last() == base@);
            lemma_push_to_set(unique_names(bases.take(k as int)), name@);
            lemma_unique_names_prefix(bases, k + 1);
            lemma_unique_names_len(bases.take(k as int));
            assert(unique_names(more) == unique_names(bases.take(k as int)).push(name@));
            assert(names.take(k + 1)[k as int] == names[k as int]);
            assert(name@ == names[k as int]);
        }
        out.push(
            AgentCommand {
                name,
                description: truncate_description(agent.description.as_str(), MAX_DESCRIPTION_LEN),
                content: agent.content.clone(),
                model_override: clone_option(&agent.model),
            },
        );
        k += 1;
    }
    assert(out@.map_values(|c: AgentCommand| c@) =~= agent_commands(infos));
    out
}

// ── Laws ─────────────────────────────────────────────────────────────────────

/// A description is never longer than asked for, but for the ellipsis alone.
pub proof fn law_description_is_short(s: Seq<char>, max: nat)
    requires
        max > 0,
    ensures
        short_description(s, max).len() <= max,
{
}

proof fn lemma_numbered_injective(base: Seq<char>, sep: char, i: nat, j: nat)
    requires
        1 <= i,
        1 <= j,
        numbered(base, sep, i) == numbered(base, sep, j),
    ensures
        i == j,
{
    lemma_decimal_injective(i, j);
    lemma_decimal_injective(j, i);
    let a = numbered(base, sep, i);
    let b = numbered(base, sep, j);
    if i > 1 && j > 1 {
        assert(a.skip(base.len() as int + 1) =~= decimal(i));
        assert(b.skip(base.len() as int + 1) =~= decimal(j));
    } else if i != j {
        assert(a.len() != b.len());
    }
}

/// The set of the first `n` names that are tried.
spec fn tried(base: Seq<char>, sep: char, n: nat) -> Set<Seq<char>>
    decreases n,
{
    if n == 0 {
        Set::empty()
    } else {
        tried(base, sep, (n - 1) as nat).insert(numbered(base, sep, n))
    }
}

proof fn lemma_tried(base: Seq<char>, sep: char, n: nat)
    ensures
        tried(base, sep, n).finite(),
        tried(base, sep, n).len() == n,
        forall|x: Seq<char>| #[trigger]
            tried(base, sep, n).contains(x) ==> exists|i: nat|
                1 <= i <= n && x == #[trigger] numbered(base, sep, i),
    decreases n,
{
    if n > 0 {
        let m = (n - 1) as nat;
        lemma_tried(base, sep, m);
        if tried(base, sep, m).contains(numbered(base, sep, n)) {
            let i = choose|i: nat|
                1 <= i <= m && numbered(base, sep, n) == #[trigger] numbered(base, sep, i);
            lemma_numbered_injective(base, sep, n, i);
        }
        assert forall|x: Seq<char>| #[trigger] tried(base, sep, n).contains(x) implies exists|
            i: nat,
        | 1 <= i <= n && x == #[trigger] numbered(base, sep, i) by {
            if x != numbered(base, sep, n) {
                assert(tried(base, sep, m).contains(x));
            }
        }
    }
}

proof fn lemma_unique_from(base: Seq<char>, sep: char, used: Set<Seq<char>>, i: nat)
    requires
        1 <= i <= 1000,
        used.contains(unique_from(base, sep, used, i)),
    ensures
        forall|k: nat| i <= k < 1000 ==> used.contains(#[trigger] numbered(base, sep, k)),
    decreases 1000 - i,
{
    if i < 1000 {
        lemma_unique_from(base, sep, used, i + 1);
    }
}

/// A name is new as long as fewer names are in use than there are numbers to
/// try.
pub proof fn law_unique_name_is_new(base: Seq<char>, sep: char, used: Set<Seq<char>>)
    requires
        used.finite(),
        used.len() < 999,
    ensures
        !used.contains(unique_name(base, sep, used)),
{
    if used.contains(unique_name(base, sep, used)) {
        lemma_unique_from(base, sep, used, 1);
        lemma_tried(base, sep, 999);
        let all = tried(base, sep, 999);
        assert forall|x: Seq<char>| all.contains(x) implies used.contains(x) by {
            let i = choose|i: nat| 1 <= i <= 999 && x == #[trigger] numbered(base, sep, i);
            assert(used.contains(numbered(base, sep, i)));
        }
        vstd::set_lib::lemma_len_subset(all, used);
    }
}

/// A name that is not in use yet is kept as it is.
pub proof fn law_free_name_is_kept(base: Seq<char>, sep: char, used: Set<Seq<char>>)
    requires
        !used.contains(base),
    ensures
        unique_name(base, sep, used) == base,
{
}

/// The names of up to nine hundred and ninety-nine commands are all different.
pub proof fn law_command_names_are_distinct(bases: Seq<Seq<char>>)
    requires
        bases.len() <= 999,
    ensures
        unique_names(bases).no_duplicates(),
    decreases bases.len(),
{
    if bases.len() > 0 {
        let init = unique_names(bases.drop_last());
        law_command_names_are_distinct(bases.drop_last());
        lemma_unique_names_len(bases.drop_last());
        init.unique_seq_to_set();
        vstd::seq_lib::seq_to_set_is_finite(init);
        law_unique_name_is_new(bases.last(), '-', init.to_set());
        let name = unique_name(bases.last(), '-', init.to_set());
        assert forall|i: int, j: int|
            0 <= i < j < unique_names(bases).len() implies unique_names(bases)[i] != unique_names(
            bases,
        )[j] by {
            if j == init.len() {
                assert(init.contains(init[i]));
            }
        }
    }
}

} // verus!
