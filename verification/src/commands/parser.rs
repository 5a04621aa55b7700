//! The slash command parser: at which stage of entering a command the input is.
//!
//! A command is `/name arg1 arg2`; an argument with spaces in it is put in
//! double quotes.

use vstd::prelude::*;

use crate::text::{chars_of, clone_strings, is_space, is_whitespace, string_of, views};

verus! {

/// The stage of command entry that an input is at.
#[derive(Debug, PartialEq, Eq)]
pub enum ParsedCommand {
    /// The input does not start with `/`.
    NotCommand,
    /// The name of the command is still being typed.
    PartialCommand { partial: String },
    /// The name is complete and argument `arg_index` is being typed.
    CompletingArgs { command: String, arg_index: usize, partial: String },
    /// The command and its arguments are complete.
    Complete { command: String, args: Vec<String> },
}

pub enum ParsedView {
    NotCommand,
    PartialCommand { partial: Seq<char> },
    CompletingArgs { command: Seq<char>, arg_index: nat, partial: Seq<char> },
    Complete { command: Seq<char>, args: Seq<Seq<char>> },
}

impl View for ParsedCommand {
    type V = ParsedView;

    open spec fn view(&self) -> ParsedView {
        match *self {
            ParsedCommand::NotCommand => ParsedView::NotCommand,
            ParsedCommand::PartialCommand { partial } => ParsedView::PartialCommand {
                partial: partial@,
            },
            ParsedCommand::CompletingArgs { command, arg_index, partial } => {
                ParsedView::CompletingArgs {
                    command: command@,
                    arg_index: arg_index as nat,
                    partial: partial@,
                }
            },
            ParsedCommand::Complete { command, args } => ParsedView::Complete {
                command: command@,
                args: views(args@),
            },
        }
    }
}

impl Clone for ParsedCommand {
    fn clone(&self) -> (r: Self)
        ensures
            r@ == self@,
    {
        match self {
            ParsedCommand::NotCommand => ParsedCommand::NotCommand,
            ParsedCommand::PartialCommand { partial } => ParsedCommand::PartialCommand {
                partial: partial.clone(),
            },
            ParsedCommand::CompletingArgs { command, arg_index, partial } => {
                ParsedCommand::CompletingArgs {
                    command: command.clone(),
                    arg_index: *arg_index,
                    partial: partial.clone(),
                }
            },
            ParsedCommand::Complete { command, args } => ParsedCommand::Complete {
                command: command.clone(),
                args: clone_strings(args),
            },
        }
    }
}

/// `token` as a list, unless it is empty.
pub open spec fn token_if_any(token: Seq<char>) -> Seq<Seq<char>> {
    if token.len() == 0 {
        seq![]
    } else {
        seq![token]
    }
}

/// The tokens of `s`, where `token` has been read before it and `quoted` says
/// whether that was inside quotes. Quotes are dropped; outside of them white
/// space separates tokens.
pub open spec fn tokens_from(s: Seq<char>, token: Seq<char>, quoted: bool) -> Seq<Seq<char>>
    decreases s.len(),
{
    if s.len() == 0 {
        token_if_any(token)
    } else if s[0] == '"' {
        tokens_from(s.skip(1), token, !quoted)
    } else if is_space(s[0]) && !quoted {
        token_if_any(token) + tokens_from(s.skip(1), seq![], quoted)
    } else {
        tokens_from(s.skip(1), token.push(s[0]), quoted)
    }
}

/// The tokens of a command body.
pub open spec fn tokens(s: Seq<char>) -> Seq<Seq<char>> {
    tokens_from(s, seq![], false)
}

/// The stage that an input is at.
pub open spec fn parse_view(input: Seq<char>) -> ParsedView {
    if input.len() == 0 || input[0] != '/' {
        ParsedView::NotCommand
    } else {
        let body = input.skip(1);
        let all = tokens(body);
        let spaced = body.len() > 0 && body.last() == ' ';
        if all.len() == 0 {
            ParsedView::PartialCommand { partial: seq![] }
        } else if all.len() == 1 && !spaced {
            ParsedView::PartialCommand { partial: all[0] }
        } else if all.len() == 1 {
            ParsedView::CompletingArgs { command: all[0], arg_index: 0, partial: seq![] }
        } else if spaced {
            ParsedView::Complete { command: all[0], args: all.skip(1) }
        } else {
            ParsedView::CompletingArgs {
                command: all[0],
                arg_index: (all.len() - 2) as nat,
                partial: all.last(),
            }
        }
    }
}

/// Splits a command body into tokens.
pub fn tokenise(s: &str) -> (r: Vec<String>)
    ensures
        views(r@) == tokens(s@),
{
    let chars = chars_of(s);
    let mut out: Vec<String> = Vec::new();
    let mut current = String::new();
    let mut in_quotes = false;
    let mut i: usize = 0;
    proof {
        assert(s@.skip(0) =~= s@);
        assert(views(out@) =~= seq![]);
        assert(views(out@) + tokens(s@) =~= tokens(s@));
        assert(current@ =~= seq![]);
    }
    while i < chars.len()
        invariant
            chars@ == s@,
            i <= chars@.len(),
            views(out@) + tokens_from(s@.skip(i as int), current@, in_quotes) == tokens(s@),
        decreases chars.len() - i,
    {
        let ch = chars[i];
        let ghost rest = s@.skip(i as int);
        let ghost before = out@;
        assert(rest[0] == ch);
        assert(rest.skip(1) =~= s@.skip(i + 1));
        if ch == '"' {
            in_quotes = !in_quotes;
        } else if is_whitespace(ch) && !in_quotes {
            let ghost token = current@;
            if !current.as_str().is_empty() {
                out.push(current);
                current = String::new();
                proof {
                    assert(views(out@) =~= views(before).push(token));
                }
            }
            proof {
                assert(current@ =~= seq![]);
                let tail = tokens_from(s@.skip(i + 1), seq![], in_quotes);
                assert(views(out@) + tail =~= views(before) + (token_if_any(token) + tail));
            }
        } else {
            current.push(ch);
        }
        i += 1;
    }
    proof {
        assert(s@.skip(chars@.len() as int) =~= seq![]);
    }
    if !current.as_str().is_empty() {
        let ghost before = out@;
        let ghost token = current@;
        out.push(current);
        assert(views(out@) =~= views(before) + seq![token]);
    } else {
        assert(views(out@) + seq![] =~= views(out@));
    }
    out
}

/// Parses an input, however far it has been typed.
pub fn parse(input: &str) -> (r: ParsedCommand)
    ensures
        r@ == parse_view(input@),
{
    let chars = chars_of(input);
    let n: usize = chars.len();
    if n == 0 || chars[0] != '/' {
        return ParsedCommand::NotCommand;
    }
    let body = string_of(&chars, 1, n);
    assert(body@ =~= input@.skip(1));
    let mut all = tokenise(body.as_str());
    let ghost toks = views(all@);
    assert(all@.len() == toks.len());
    if all.len() == 0 {
        let partial = String::new();
        assert(partial@ =~= seq![]);
        return ParsedCommand::PartialCommand { partial };
    }
    let spaced = n > 1 && chars[n - 1] == ' ';
    assert(n > 1 ==> body@.last() == chars@[n - 1]);
    assert(toks[0] == all@[0]@);
    if all.len() == 1 {
        let command = all[0].clone();
        if !spaced {
            return ParsedCommand::PartialCommand { partial: command };
        }
        let partial = String::new();
        assert(partial@ =~= seq![]);
        return ParsedCommand::CompletingArgs { command, arg_index: 0, partial };
    }
    let count: usize = all.len();
    if !spaced {
        let partial = all[count - 1].clone();
        let command = all[0].clone();
        assert(toks.last() == all@[count - 1]@);
        return ParsedCommand::CompletingArgs { command, arg_index: count - 2, partial };
    }
    let command = all.remove(0);
    assert(views(all@) =~= toks.skip(1));
    ParsedCommand::Complete { command, args: all }
}

// ── Laws ─────────────────────────────────────────────────────────────────────

/// Every part is more than nothing.
spec fn all_solid(parts: Seq<Seq<char>>) -> bool {
    forall|i: int| 0 <= i < parts.len() ==> (#[trigger] parts[i]).len() > 0
}

proof fn lemma_tokens_solid(s: Seq<char>, token: Seq<char>, quoted: bool)
    ensures
        all_solid(tokens_from(s, token, quoted)),
    decreases s.len(),
{
    if s.len() > 0 {
        if s[0] == '"' {
            lemma_tokens_solid(s.skip(1), token, !quoted);
        } else if is_space(s[0]) && !quoted {
            lemma_tokens_solid(s.skip(1), seq![], quoted);
            let head = token_if_any(token);
            let tail = tokens_from(s.skip(1), seq![], quoted);
            assert forall|i: int| 0 <= i < (head + tail).len() implies (#[trigger] (head
                + tail)[i]).len() > 0 by {
                if i >= head.len() {
                    assert(tail[i - head.len()].len() > 0);
                }
            }
        } else {
            lemma_tokens_solid(s.skip(1), token.push(s[0]), quoted);
        }
    }
}

/// No token is empty: runs of separators count as one.
pub proof fn law_tokens_are_not_empty(s: Seq<char>)
    ensures
        forall|i: int| 0 <= i < tokens(s).len() ==> (#[trigger] tokens(s)[i]).len() > 0,
{
    lemma_tokens_solid(s, seq![], false);
}

proof fn lemma_plain_run(s: Seq<char>, token: Seq<char>, rest: Seq<char>, quoted: bool)
    requires
        forall|i: int| 0 <= i < s.len() ==> #[trigger] s[i] != '"',
        quoted || forall|i: int| 0 <= i < s.len() ==> !is_space(#[trigger] s[i]),
    ensures
        tokens_from(s + rest, token, quoted) == tokens_from(rest, token + s, quoted),
    decreases s.len(),
{
    if s.len() == 0 {
        assert(s + rest =~= rest);
        assert(token + s =~= token);
    } else {
        let tail = s.skip(1);
        assert((s + rest)[0] == s[0]);
        assert((s + rest).skip(1) =~= tail + rest);
        assert forall|i: int| 0 <= i < tail.len() implies #[trigger] tail[i] != '"' by {
            assert(tail[i] == s[i + 1]);
        }
        assert(quoted || forall|i: int| 0 <= i < tail.len() ==> !is_space(#[trigger] tail[i])) by {
            assert forall|i: int| !quoted && 0 <= i < tail.len() implies !is_space(
                #[trigger] tail[i],
            ) by {
                assert(tail[i] == s[i + 1]);
            }
        }
        lemma_plain_run(tail, token.push(s[0]), rest, quoted);
        assert(token.push(s[0]) + tail =~= token + s);
    }
}

/// An argument put in double quotes is one token, whatever separators are in
/// it; only an empty one vanishes.
pub proof fn law_quoted_argument_is_one_token(arg: Seq<char>)
    requires
        !arg.contains('"'),
    ensures
        tokens(seq!['"'] + arg + seq!['"']) == token_if_any(arg),
{
    let s = seq!['"'] + arg + seq!['"'];
    let quote = seq!['"'];
    assert(s.skip(1) =~= arg + quote);
    assert forall|i: int| 0 <= i < arg.len() implies #[trigger] arg[i] != '"' by {
        assert(arg.contains(arg[i]));
    }
    lemma_plain_run(arg, seq![], quote, true);
    assert(seq![] + arg =~= arg);
    assert(quote.skip(1) =~= seq![]);
    reveal_with_fuel(tokens_from, 3);
}

} // verus!
