//! The single-pass state machine that turns one file's decoded events into
//! prompt sessions. At most one session is open at any point; a genuine
//! prompt closes and emits the open one before (possibly) opening its own.

use vstd::prelude::*;
use crate::event::{
    has_tool_result, join_texts, AssistantEvent, AssistantEventV, EventRecord, EventV, ToolUse,
    ToolUseV,
};
use crate::session::{
    add_path, build_spec, new_draft, push_path, with_time, DraftV, PromptBuilder, PromptSession,
    SessionV,
};
use crate::strings::{is_blank, is_blank_seq, str_eq};

verus! {

/// Addition on a running sum that stops at the largest representable value
/// instead of failing.
pub open spec fn sat_add64(a: u64, b: u64) -> u64 {
    if a + b > u64::MAX {
        u64::MAX
    } else {
        (a + b) as u64
    }
}

/// As `sat_add64`, for the tool-call counter.
pub open spec fn sat_add32(a: u32, b: u32) -> u32 {
    if a + b > u32::MAX {
        u32::MAX
    } else {
        (a + b) as u32
    }
}

/// The state of the scan: no session open, or one draft accumulating.
pub enum AccStateV {
    Idle,
    Open(DraftV),
}

/// One `tool_use` block folded into the open draft: the call always counts;
/// a path argument updates the file sets according to the tool's name.
pub open spec fn apply_tool_use(d: DraftV, t: ToolUseV) -> DraftV {
    let d1 = DraftV { tool_call_count: sat_add32(d.tool_call_count, 1), ..d };
    if t.name == "Write"@ || t.name == "Edit"@ {
        match t.file_path {
            Some(p) => DraftV {
                files_touched: add_path(d1.files_touched, p),
                files_written: add_path(d1.files_written, p),
                ..d1
            },
            None => d1,
        }
    } else if t.name == "Read"@ {
        match t.file_path {
            Some(p) => DraftV { files_touched: add_path(d1.files_touched, p), ..d1 },
            None => d1,
        }
    } else if t.name == "NotebookEdit"@ {
        match t.notebook_path {
            Some(p) => DraftV {
                files_touched: add_path(d1.files_touched, p),
                files_written: add_path(d1.files_written, p),
                ..d1
            },
            None => d1,
        }
    } else {
        d1
    }
}

/// The `tool_use` blocks folded in, left to right.
pub open spec fn apply_tools(d: DraftV, ts: Seq<ToolUseV>) -> DraftV
    decreases ts.len(),
{
    if ts.len() == 0 {
        d
    } else {
        apply_tools(apply_tool_use(d, ts[0]), ts.drop_first())
    }
}

/// One assistant event folded into the open draft: end time, first-observed
/// model, token sums, then every `tool_use` block. The first model that is
/// present is kept, even when it is the empty string; later assistant
/// messages never overwrite it.
pub open spec fn fold_assistant_spec(d: DraftV, a: AssistantEventV) -> DraftV {
    let d1 = with_time(d, a.timestamp);
    let d2 = DraftV {
        model: if d1.model is None {
            a.model
        } else {
            d1.model
        },
        input_tokens: sat_add64(d1.input_tokens, a.input_tokens),
        output_tokens: sat_add64(d1.output_tokens, a.output_tokens),
        cache_read_tokens: sat_add64(d1.cache_read_tokens, a.cache_read_tokens),
        ..d1
    };
    apply_tools(d2, a.tool_uses)
}

/// A genuine prompt at `ts` with text `text`: the open session (if any) is
/// closed and emitted first; a new one opens unless the text is blank.
pub open spec fn open_prompt(st: AccStateV, text: Seq<char>, ts: Seq<char>, sid: Seq<char>) -> (
    AccStateV,
    Seq<SessionV>,
) {
    let emitted = match st {
        AccStateV::Open(d) => seq![build_spec(d, sid)],
        AccStateV::Idle => Seq::empty(),
    };
    if is_blank_seq(text) {
        (AccStateV::Idle, emitted)
    } else {
        (AccStateV::Open(new_draft(text, ts)), emitted)
    }
}

/// The transition for one event: the new state and what it emitted.
pub open spec fn step_spec(st: AccStateV, ev: EventV, sid: Seq<char>) -> (AccStateV, Seq<SessionV>) {
    match ev {
        EventV::UserProse { timestamp, text } => open_prompt(st, text, timestamp, sid),
        EventV::UserBlocks { timestamp, blocks } => {
            if has_tool_result(blocks) {
                // A tool-result echo: never opens or closes, only moves the
                // open session's end time.
                match st {
                    AccStateV::Open(d) => (AccStateV::Open(with_time(d, timestamp)), Seq::empty()),
                    AccStateV::Idle => (AccStateV::Idle, Seq::empty()),
                }
            } else {
                let text = join_texts(blocks);
                if is_blank_seq(text) {
                    (st, Seq::empty())
                } else {
                    open_prompt(st, text, timestamp, sid)
                }
            }
        },
        EventV::Assistant(a) => match st {
            AccStateV::Open(d) => (AccStateV::Open(fold_assistant_spec(d, a)), Seq::empty()),
            AccStateV::Idle => (AccStateV::Idle, Seq::empty()),
        },
        EventV::Other => (st, Seq::empty()),
    }
}

/// The state and everything emitted after scanning `events` from an idle
/// start.
pub open spec fn scan_state(events: Seq<EventV>, sid: Seq<char>) -> (AccStateV, Seq<SessionV>)
    decreases events.len(),
{
    if events.len() == 0 {
        (AccStateV::Idle, Seq::empty())
    } else {
        let prior = scan_state(events.drop_last(), sid);
        let stepped = step_spec(prior.0, events.last(), sid);
        (stepped.0, prior.1 + stepped.1)
    }
}

/// Every session the scan of `events` emits, the still-open draft closed
/// and emitted at end of stream.
pub open spec fn scan_spec(events: Seq<EventV>, sid: Seq<char>) -> Seq<SessionV> {
    let end = scan_state(events, sid);
    match end.0 {
        AccStateV::Open(d) => end.1.push(build_spec(d, sid)),
        AccStateV::Idle => end.1,
    }
}

impl PromptBuilder {
    /// One `tool_use` block folded into this draft.
    pub fn apply_tool_use(&mut self, t: &ToolUse)
        ensures
            final(self)@ == apply_tool_use(old(self)@, t@),
    {
        self.tool_call_count = self.tool_call_count.saturating_add(1);
        if str_eq(t.name.as_str(), "Write") || str_eq(t.name.as_str(), "Edit") {
            if let Some(p) = &t.file_path {
                push_path(&mut self.files_touched, p.as_str());
                push_path(&mut self.files_written, p.as_str());
            }
        } else if str_eq(t.name.as_str(), "Read") {
            if let Some(p) = &t.file_path {
                push_path(&mut self.files_touched, p.as_str());
            }
        } else if str_eq(t.name.as_str(), "NotebookEdit") {
            if let Some(p) = &t.notebook_path {
                push_path(&mut self.files_touched, p.as_str());
                push_path(&mut self.files_written, p.as_str());
            }
        }
    }

    /// One assistant event folded into this draft.
    pub fn fold_assistant(&mut self, a: &AssistantEvent)
        ensures
            final(self)@ == fold_assistant_spec(old(self)@, a@),
    {
        self.note_event_time(a.timestamp.as_str());
        if self.model.is_none() {
            if let Some(m) = &a.model {
                self.model = Some(m.clone());
            }
        }
        self.input_tokens = self.input_tokens.saturating_add(a.input_tokens);
        self.output_tokens = self.output_tokens.saturating_add(a.output_tokens);
        self.cache_read_tokens = self.cache_read_tokens.saturating_add(a.cache_read_tokens);
        let ghost mid = self@;
        let ghost tools = a.tool_uses.deep_view();
        proof {
            assert(tools.skip(0) =~= tools);
        }
        let mut i: usize = 0;
        while i < a.tool_uses.len()
            invariant
                i <= tools.len(),
                tools == a.tool_uses.deep_view(),
                tools.len() == a.tool_uses@.len(),
                apply_tools(mid, tools) == apply_tools(self@, tools.skip(i as int)),
            decreases tools.len() - i,
        {
            proof {
                assert(tools.skip(i as int).drop_first() =~= tools.skip(i + 1 as int));
                assert(tools.skip(i as int)[0] == tools[i as int]);
            }
            self.apply_tool_use(&a.tool_uses[i]);
            i += 1;
        }
        proof {
            assert(tools.skip(tools.len() as int) =~= Seq::<ToolUseV>::empty());
        }
    }
}

/// The accumulator for one log file: its name, the open draft (if any), and
/// everything emitted so far.
pub struct Accumulator {
    pub session_id: String,
    pub state: Option<PromptBuilder>,
    pub emitted: Vec<PromptSession>,
}

impl Accumulator {
    /// The state as the scan's mathematical state.
    pub open spec fn state_view(&self) -> AccStateV {
        match self.state {
            Some(d) => AccStateV::Open(d@),
            None => AccStateV::Idle,
        }
    }

    /// An idle accumulator for the log named `session_id`.
    pub fn new(session_id: String) -> (r: Self)
        ensures
            r.session_id@ == session_id@,
            r.state_view() == AccStateV::Idle,
            r.emitted.deep_view() == Seq::<SessionV>::empty(),
    {
        let r = Accumulator { session_id, state: None, emitted: Vec::new() };
        proof {
            assert(r.emitted.deep_view() =~= Seq::<SessionV>::empty());
        }
        r
    }

    /// Close the open draft, if any, and emit its session.
    fn close_open(&mut self)
        ensures
            final(self).session_id == old(self).session_id,
            final(self).state_view() == AccStateV::Idle,
            final(self).emitted.deep_view() == match old(self).state_view() {
                AccStateV::Open(d) => old(self).emitted.deep_view().push(
                    build_spec(d, old(self).session_id@),
                ),
                AccStateV::Idle => old(self).emitted.deep_view(),
            },
    {
        let st = self.state.take();
        if let Some(d) = st {
            let built = d.build(self.session_id.as_str());
            self.emitted.push(built);
            proof {
                assert(self.emitted.deep_view() =~= old(self).emitted.deep_view().push(
                    build_spec(old(self).state->Some_0@, old(self).session_id@),
                ));
            }
        }
    }

    /// Feed one event: exactly the transition `step_spec` describes.
    pub fn push_event(&mut self, ev: &EventRecord)
        ensures
            final(self).session_id == old(self).session_id,
            final(self).state_view() == step_spec(
                old(self).state_view(),
                ev@,
                old(self).session_id@,
            ).0,
            final(self).emitted.deep_view() == old(self).emitted.deep_view() + step_spec(
                old(self).state_view(),
                ev@,
                old(self).session_id@,
            ).1,
    {
        match ev {
            EventRecord::UserProse { timestamp, text } => {
                self.open_prompt_exec(text.as_str(), timestamp.as_str());
            },
            EventRecord::UserBlocks { timestamp, blocks } => {
                if crate::event::blocks_have_tool_result(blocks) {
                    let st = self.state.take();
                    if let Some(mut d) = st {
                        d.note_event_time(timestamp.as_str());
                        self.state = Some(d);
                    }
                } else {
                    let text = crate::event::joined_text(blocks);
                    if !is_blank(text.as_str()) {
                        self.open_prompt_exec(text.as_str(), timestamp.as_str());
                    }
                }
            },
            EventRecord::Assistant(a) => {
                let st = self.state.take();
                if let Some(mut d) = st {
                    d.fold_assistant(a);
                    self.state = Some(d);
                }
            },
            EventRecord::Other => {},
        }
        proof {
            assert(final(self).emitted.deep_view() =~= old(self).emitted.deep_view() + step_spec(
                old(self).state_view(),
                ev@,
                old(self).session_id@,
            ).1);
        }
    }

    /// A genuine prompt: close and emit the open session, then open a new
    /// one unless the text is blank.
    fn open_prompt_exec(&mut self, text: &str, timestamp: &str)
        ensures
            final(self).session_id == old(self).session_id,
            final(self).state_view() == open_prompt(
                old(self).state_view(),
                text@,
                timestamp@,
                old(self).session_id@,
            ).0,
            final(self).emitted.deep_view() == old(self).emitted.deep_view() + open_prompt(
                old(self).state_view(),
                text@,
                timestamp@,
                old(self).session_id@,
            ).1,
    {
        self.close_open();
        if !is_blank(text) {
            self.state = Some(PromptBuilder::new(text.to_owned(), timestamp.to_owned()));
        }
        proof {
            let stepped = open_prompt(
                old(self).state_view(),
                text@,
                timestamp@,
                old(self).session_id@,
            );
            match old(self).state_view() {
                AccStateV::Open(d) => {
                    assert(final(self).emitted.deep_view() =~= old(self).emitted.deep_view()
                        + stepped.1);
                },
                AccStateV::Idle => {
                    assert(final(self).emitted.deep_view() =~= old(self).emitted.deep_view()
                        + stepped.1);
                },
            }
        }
    }

    /// End of stream: close the open session, if any, and hand out
    /// everything emitted.
    pub fn finish(self) -> (r: Vec<PromptSession>)
        ensures
            r.deep_view() == match self.state_view() {
                AccStateV::Open(d) => self.emitted.deep_view().push(
                    build_spec(d, self.session_id@),
                ),
                AccStateV::Idle => self.emitted.deep_view(),
            },
    {
        let mut this = self;
        this.close_open();
        this.emitted
    }
}

/// The sessions that one file's decoded events yield, scanned in file order
/// from an idle start.
pub fn accumulate_events(events: &Vec<EventRecord>, session_id: &str) -> (r: Vec<PromptSession>)
    ensures
        r.deep_view() == scan_spec(events.deep_view(), session_id@),
{
    let mut acc = Accumulator::new(session_id.to_owned());
    let mut i: usize = 0;
    while i < events.len()
        invariant
            i <= events@.len(),
            acc.session_id@ == session_id@,
            (acc.state_view(), acc.emitted.deep_view()) == scan_state(
                events.deep_view().take(i as int),
                session_id@,
            ),
        decreases events@.len() - i,
    {
        let ghost pre = events.deep_view().take(i as int);
        proof {
            assert(events.deep_view().take(i + 1 as int).drop_last() =~= pre);
            assert(events.deep_view().take(i + 1 as int).last() == events.deep_view()[i as int]);
        }
        acc.push_event(&events[i]);
        i += 1;
    }
    proof {
        assert(events.deep_view().take(events@.len() as int) =~= events.deep_view());
    }
    acc.finish()
}

} // verus!
