//! What is known of the agent: whether it works, on what, and how many tokens it
//! has used.

use vstd::hash_map::StringHashMap;
use vstd::prelude::*;

use crate::commands::completion::opt_string_view;

verus! {

/// The agent of the active session.
pub struct AgentConn {
    /// A turn is being worked on.
    pub busy: bool,
    /// The tool that is running, or what it says of itself.
    pub current_tool: Option<String>,
    /// How much of the input budget the last prompt took up, in percent.
    pub context_pct: u8,
    /// The tokens of the last prompt of this turn.
    pub context_tokens: u32,
    /// The tokens of the answers in this turn.
    pub output_tokens: u32,
    /// The tokens of the latest prompt.
    pub total_context_tokens: u32,
    /// How much of the input budget the latest prompt took up, in percent.
    pub total_context_pct: u8,
    /// The tokens of all answers.
    pub total_output_tokens: u32,
    /// How much of the prompt came out of the cache, in percent.
    pub cache_hit_pct: u8,
    pub max_tokens: usize,
    pub max_output_tokens: usize,
    /// An estimate of the tokens that are being received.
    pub streaming_tokens: u32,
    /// The frame of the spinner, which moves with every piece of an answer.
    pub spinner_frame: u8,
    /// The frame of animations, which moves with the clock.
    pub anim_frame: u8,
    /// When the running tools were started, in milliseconds.
    pub tool_start_times: StringHashMap<u64>,
    /// Requests can be sent.
    pub connected: bool,
}

pub struct AgentView {
    pub busy: bool,
    pub current_tool: Option<Seq<char>>,
    pub context_pct: u8,
    pub context_tokens: u32,
    pub output_tokens: u32,
    pub total_context_tokens: u32,
    pub total_context_pct: u8,
    pub total_output_tokens: u32,
    pub cache_hit_pct: u8,
    pub max_tokens: usize,
    pub max_output_tokens: usize,
    pub streaming_tokens: u32,
    pub spinner_frame: u8,
    pub anim_frame: u8,
    pub tool_start_times: Map<Seq<char>, u64>,
    pub connected: bool,
}

impl View for AgentConn {
    type V = AgentView;

    open spec fn view(&self) -> AgentView {
        AgentView {
            busy: self.busy,
            current_tool: opt_string_view(self.current_tool),
            context_pct: self.context_pct,
            context_tokens: self.context_tokens,
            output_tokens: self.output_tokens,
            total_context_tokens: self.total_context_tokens,
            total_context_pct: self.total_context_pct,
            total_output_tokens: self.total_output_tokens,
            cache_hit_pct: self.cache_hit_pct,
            max_tokens: self.max_tokens,
            max_output_tokens: self.max_output_tokens,
            streaming_tokens: self.streaming_tokens,
            spinner_frame: self.spinner_frame,
            anim_frame: self.anim_frame,
            tool_start_times: self.tool_start_times@,
            connected: self.connected,
        }
    }
}

/// The budget for a prompt where nothing else is known.
pub const DEFAULT_INPUT_BUDGET: u32 = 200_000;

/// The tokens that a prompt may have, within thirty-two bits: what the answer
/// leaves of all tokens, or all of them where nothing is known of the answer.
pub open spec fn input_budget(max_tokens: usize, max_output_tokens: usize) -> int {
    let budget = if max_output_tokens > 0 {
        if max_tokens < max_output_tokens {
            0
        } else {
            max_tokens - max_output_tokens
        }
    } else if max_tokens > 0 {
        max_tokens as int
    } else {
        DEFAULT_INPUT_BUDGET as int
    };
    budget % 0x1_0000_0000
}

/// A share in percent, at most a hundred.
pub open spec fn percent(part: int, whole: int) -> u8 {
    (if part * 100 / whole > 100 {
        100
    } else {
        part * 100 / whole
    }) as u8
}

/// A piece of an answer as a number of tokens: about four bytes each.
pub open spec fn estimated_tokens(bytes: int) -> int {
    (bytes % 0x1_0000_0000 + 3) / 4
}

impl AgentView {
    /// The agent of a new session.
    pub open spec fn idle() -> AgentView {
        AgentView {
            busy: false,
            current_tool: None,
            context_pct: 0,
            context_tokens: 0,
            output_tokens: 0,
            total_context_tokens: 0,
            total_context_pct: 0,
            total_output_tokens: 0,
            cache_hit_pct: 0,
            max_tokens: 0,
            max_output_tokens: 0,
            streaming_tokens: 0,
            spinner_frame: 0,
            anim_frame: 0,
            tool_start_times: Map::empty(),
            connected: false,
        }
    }

    /// The next frame of the spinner.
    pub open spec fn spun(self) -> AgentView {
        AgentView { spinner_frame: ((self.spinner_frame + 1) % 0x100) as u8, ..self }
    }

    /// After a piece of an answer.
    pub open spec fn after_delta(self, bytes: int) -> AgentView {
        let sum = self.streaming_tokens + estimated_tokens(bytes);
        AgentView {
            streaming_tokens: (if sum > u32::MAX {
                u32::MAX as int
            } else {
                sum
            }) as u32,
            ..self.spun()
        }
    }

    /// After the tokens of a call were reported: the prompt replaces the one
    /// before, the answer adds to the others of the turn.
    pub open spec fn after_usage(
        self,
        input: u32,
        output: u32,
        cache_read: u32,
        cache_write: u32,
        max_tokens: usize,
        max_output_tokens: usize,
    ) -> AgentView {
        let total = input + cache_read + cache_write;
        let pct = percent(total, input_budget(max_tokens, max_output_tokens));
        let prompt = if total > 0 {
            AgentView {
                context_pct: pct,
                context_tokens: total as u32,
                total_context_tokens: total as u32,
                total_context_pct: pct,
                cache_hit_pct: if cache_read > 0 {
                    percent(cache_read as int, total)
                } else {
                    0
                },
                max_tokens,
                max_output_tokens,
                ..self
            }
        } else {
            self
        };
        if output > 0 {
            AgentView {
                output_tokens: (prompt.output_tokens + output) as u32,
                streaming_tokens: 0,
                ..prompt
            }
        } else {
            prompt
        }
    }

    /// The tokens of a call can be counted.
    pub open spec fn can_count(
        self,
        input: u32,
        output: u32,
        cache_read: u32,
        cache_write: u32,
        max_tokens: usize,
        max_output_tokens: usize,
    ) -> bool {
        let total = input + cache_read + cache_write;
        &&& total * 100 <= u32::MAX
        &&& total > 0 ==> input_budget(max_tokens, max_output_tokens) > 0
        &&& self.output_tokens + output <= u32::MAX
    }

    /// At the end of a turn: the size of the prompt stays, the answers are added
    /// up, and what belonged to the turn starts anew.
    pub open spec fn after_turn(self) -> AgentView {
        AgentView {
            busy: false,
            current_tool: None,
            total_context_tokens: self.context_tokens,
            total_output_tokens: (self.total_output_tokens + self.output_tokens) as u32,
            context_tokens: 0,
            output_tokens: 0,
            streaming_tokens: 0,
            spinner_frame: 0,
            tool_start_times: Map::empty(),
            ..self
        }
    }
}

fn percent_of(part: u32, whole: u32) -> (r: u8)
    requires
        whole > 0,
        part * 100 <= u32::MAX,
    ensures
        r == percent(part as int, whole as int),
{
    let p: u32 = part * 100 / whole;
    if p > 100 {
        100
    } else {
        p as u8
    }
}

impl AgentConn {
    /// The agent of a new session.
    pub fn new() -> (r: AgentConn)
        ensures
            r@ == AgentView::idle(),
    {
        let r = AgentConn {
            busy: false,
            current_tool: None,
            context_pct: 0,
            context_tokens: 0,
            output_tokens: 0,
            total_context_tokens: 0,
            total_context_pct: 0,
            total_output_tokens: 0,
            cache_hit_pct: 0,
            max_tokens: 0,
            max_output_tokens: 0,
            streaming_tokens: 0,
            spinner_frame: 0,
            anim_frame: 0,
            tool_start_times: StringHashMap::new(),
            connected: false,
        };
        assert(r@.tool_start_times =~= Map::empty());
        r
    }

    /// Moves the spinner.
    pub fn spin(&mut self)
        ensures
            final(self)@ == old(self)@.spun(),
    {
        self.spinner_frame = if self.spinner_frame < 255 {
            self.spinner_frame + 1
        } else {
            0
        };
    }

    /// Takes in a piece of an answer, by its length in bytes.
    pub fn count_delta(&mut self, bytes: usize)
        ensures
            final(self)@ == old(self)@.after_delta(bytes as int),
    {
        assert((#[verifier::truncate] (bytes as u32)) as int == (bytes as int) % 0x1_0000_0000) by {
            let b = bytes as u64;
            assert((#[verifier::truncate] (b as u32)) == b % 0x1_0000_0000) by (bit_vector);
        }
        let low: u32 = #[verifier::truncate] (bytes as u32);
        let tokens: u32 = ((low as u64 + 3) / 4) as u32;
        self.streaming_tokens = self.streaming_tokens.saturating_add(tokens);
        self.spin();
    }

    /// Takes in the tokens of a call.
    pub fn count_usage(
        &mut self,
        input: u32,
        output: u32,
        cache_read: u32,
        cache_write: u32,
        max_tokens: usize,
        max_output_tokens: usize,
    )
        requires
            old(self)@.can_count(
                input,
                output,
                cache_read,
                cache_write,
                max_tokens,
                max_output_tokens,
            ),
        ensures
            final(self)@ == old(self)@.after_usage(
                input,
                output,
                cache_read,
                cache_write,
                max_tokens,
                max_output_tokens,
            ),
    {
        if input > 0 || cache_read > 0 || cache_write > 0 {
            let total: u32 = input + cache_read + cache_write;
            let wide: usize = if max_output_tokens > 0 {
                max_tokens.saturating_sub(max_output_tokens)
            } else if max_tokens > 0 {
                max_tokens
            } else {
                DEFAULT_INPUT_BUDGET as usize
            };
            assert((#[verifier::truncate] (wide as u32)) as int == (wide as int) % 0x1_0000_0000) by {
                let b = wide as u64;
                assert((#[verifier::truncate] (b as u32)) == b % 0x1_0000_0000) by (bit_vector);
            }
            let budget: u32 = #[verifier::truncate] (wide as u32);
            let pct: u8 = percent_of(total, budget);
            self.context_pct = pct;
            self.context_tokens = total;
            self.total_context_tokens = total;
            self.total_context_pct = pct;
            self.cache_hit_pct = if cache_read > 0 {
                percent_of(cache_read, total)
            } else {
                0
            };
            self.max_tokens = max_tokens;
            self.max_output_tokens = max_output_tokens;
        }
        if output > 0 {
            self.output_tokens = self.output_tokens + output;
            self.streaming_tokens = 0;
        }
    }

    /// Ends a turn.
    pub fn end_turn(&mut self)
        requires
            old(self).total_output_tokens + old(self).output_tokens <= u32::MAX,
        ensures
            final(self)@ == old(self)@.after_turn(),
    {
        self.busy = false;
        self.current_tool = None;
        self.total_context_tokens = self.context_tokens;
        self.total_output_tokens = self.total_output_tokens + self.output_tokens;
        self.context_tokens = 0;
        self.output_tokens = 0;
        self.streaming_tokens = 0;
        self.spinner_frame = 0;
        self.tool_start_times.clear();
        assert(self@.tool_start_times =~= Map::empty());
    }
}

// ── Laws ─────────────────────────────────────────────────────────────────────

/// Shares are at most a hundred percent.
pub proof fn law_shares_are_percentages(part: int, whole: int)
    requires
        part >= 0,
        whole > 0,
    ensures
        percent(part, whole) <= 100,
{
    assert(part * 100 / whole >= 0) by (nonlinear_arith)
        requires
            part >= 0,
            whole > 0,
    ;
}

/// Over the calls of a turn the answers add up and the prompt is that of the
/// last call; at the end of the turn both are carried over.
pub proof fn law_tokens_add_up(
    v: AgentView,
    in1: u32,
    out1: u32,
    in2: u32,
    out2: u32,
    max_tokens: usize,
)
    requires
        in2 > 0,
        v.output_tokens == 0,
        v.total_output_tokens + out1 + out2 <= u32::MAX,
        max_tokens > 0,
    ensures
        ({
            let end = v.after_usage(in1, out1, 0, 0, max_tokens, 0).after_usage(
                in2,
                out2,
                0,
                0,
                max_tokens,
                0,
            ).after_turn();
            &&& end.total_output_tokens == v.total_output_tokens + out1 + out2
            &&& end.total_context_tokens == in2
            &&& end.output_tokens == 0
            &&& !end.busy
        }),
{
}

} // verus!
