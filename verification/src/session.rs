//! The output entity of the reconstruction — one prompt session per genuine
//! user instruction — and the draft that accumulates it while the session is
//! open.

use vstd::prelude::*;
use crate::order::sort_lex;
use crate::strings::str_eq;

verus! {

/// Running sums of token consumption over the assistant messages observed
/// while one session was open.
#[derive(Clone, Copy, Debug, PartialEq, Eq, Structural)]
pub struct TokenUsage {
    pub input_tokens: u64,
    pub output_tokens: u64,
    pub cache_read_tokens: u64,
}

/// One reconstructed unit of work: a genuine user prompt together with all
/// assistant activity observed before the next genuine prompt.
///
/// The correlation fields (`associated_commit_hashes`, `associated_feature_ids`,
/// `intent`) are left at their empty defaults here; downstream stages fill
/// them in.
#[derive(Clone, Debug)]
pub struct PromptSession {
    pub session_id: String,
    pub prompt_text: String,
    pub timestamp: String,
    pub associated_commit_hashes: Vec<String>,
    pub associated_feature_ids: Vec<i32>,
    pub intent: Option<String>,
    pub files_touched: Vec<String>,
    pub files_written: Vec<String>,
    pub tool_call_count: u32,
    pub model: Option<String>,
    pub token_usage: TokenUsage,
    pub time_end: Option<String>,
}

/// The mathematical value of a `PromptSession`: every string as its
/// character sequence.
pub struct SessionV {
    pub session_id: Seq<char>,
    pub prompt_text: Seq<char>,
    pub timestamp: Seq<char>,
    pub associated_commit_hashes: Seq<Seq<char>>,
    pub associated_feature_ids: Seq<i32>,
    pub intent: Option<Seq<char>>,
    pub files_touched: Seq<Seq<char>>,
    pub files_written: Seq<Seq<char>>,
    pub tool_call_count: u32,
    pub model: Option<Seq<char>>,
    pub token_usage: TokenUsage,
    pub time_end: Option<Seq<char>>,
}

impl View for PromptSession {
    type V = SessionV;

    open spec fn view(&self) -> SessionV {
        SessionV {
            session_id: self.session_id@,
            prompt_text: self.prompt_text@,
            timestamp: self.timestamp@,
            associated_commit_hashes: self.associated_commit_hashes.deep_view(),
            associated_feature_ids: self.associated_feature_ids@,
            intent: self.intent.deep_view(),
            files_touched: self.files_touched.deep_view(),
            files_written: self.files_written.deep_view(),
            tool_call_count: self.tool_call_count,
            model: self.model.deep_view(),
            token_usage: self.token_usage,
            time_end: self.time_end.deep_view(),
        }
    }
}

impl DeepView for PromptSession {
    type V = SessionV;

    open spec fn deep_view(&self) -> SessionV {
        self.view()
    }
}

/// The single piece of mutable state of the accumulator: the session that is
/// currently open, still gathering assistant activity.
pub struct PromptBuilder {
    pub prompt_text: String,
    pub timestamp: String,
    pub time_end: Option<String>,
    pub files_touched: Vec<String>,
    pub files_written: Vec<String>,
    pub tool_call_count: u32,
    pub model: Option<String>,
    pub input_tokens: u64,
    pub output_tokens: u64,
    pub cache_read_tokens: u64,
}

/// The mathematical value of a `PromptBuilder`.
pub struct DraftV {
    pub prompt_text: Seq<char>,
    pub timestamp: Seq<char>,
    pub time_end: Option<Seq<char>>,
    pub files_touched: Seq<Seq<char>>,
    pub files_written: Seq<Seq<char>>,
    pub tool_call_count: u32,
    pub model: Option<Seq<char>>,
    pub input_tokens: u64,
    pub output_tokens: u64,
    pub cache_read_tokens: u64,
}

impl View for PromptBuilder {
    type V = DraftV;

    open spec fn view(&self) -> DraftV {
        DraftV {
            prompt_text: self.prompt_text@,
            timestamp: self.timestamp@,
            time_end: self.time_end.deep_view(),
            files_touched: self.files_touched.deep_view(),
            files_written: self.files_written.deep_view(),
            tool_call_count: self.tool_call_count,
            model: self.model.deep_view(),
            input_tokens: self.input_tokens,
            output_tokens: self.output_tokens,
            cache_read_tokens: self.cache_read_tokens,
        }
    }
}

/// A fresh draft opened by a genuine prompt: the prompt's text and
/// timestamp, everything else empty or zero.
pub open spec fn new_draft(text: Seq<char>, ts: Seq<char>) -> DraftV {
    DraftV {
        prompt_text: text,
        timestamp: ts,
        time_end: None,
        files_touched: Seq::empty(),
        files_written: Seq::empty(),
        tool_call_count: 0,
        model: None,
        input_tokens: 0,
        output_tokens: 0,
        cache_read_tokens: 0,
    }
}

/// The draft after an event at `ts` was observed while it was open: its end
/// time moves to `ts` unless `ts` is empty.
pub open spec fn with_time(d: DraftV, ts: Seq<char>) -> DraftV {
    if ts.len() > 0 {
        DraftV { time_end: Some(ts), ..d }
    } else {
        d
    }
}

/// `p` added to a set of paths kept as a duplicate-free list.
pub open spec fn add_path(files: Seq<Seq<char>>, p: Seq<char>) -> Seq<Seq<char>> {
    if files.contains(p) {
        files
    } else {
        files.push(p)
    }
}

/// What finalization emits for draft `d` of the log named `sid`: the path
/// sets sorted, the correlation fields at their defaults.
pub open spec fn build_spec(d: DraftV, sid: Seq<char>) -> SessionV {
    SessionV {
        session_id: sid,
        prompt_text: d.prompt_text,
        timestamp: d.timestamp,
        associated_commit_hashes: Seq::empty(),
        associated_feature_ids: Seq::empty(),
        intent: None,
        files_touched: sort_lex(d.files_touched),
        files_written: sort_lex(d.files_written),
        tool_call_count: d.tool_call_count,
        model: d.model,
        token_usage: TokenUsage {
            input_tokens: d.input_tokens,
            output_tokens: d.output_tokens,
            cache_read_tokens: d.cache_read_tokens,
        },
        time_end: d.time_end,
    }
}

/// True when `x` is one of the strings in `v`.
fn vec_contains_string(v: &Vec<String>, x: &str) -> (r: bool)
    ensures
        r == v.deep_view().contains(x@),
{
    let mut i: usize = 0;
    while i < v.len()
        invariant
            i <= v@.len(),
            forall|j: int| 0 <= j < i ==> v.deep_view()[j] != x@,
        decreases v@.len() - i,
    {
        if str_eq(v[i].as_str(), x) {
            assert(v.deep_view()[i as int] == x@);
            return true;
        }
        i += 1;
    }
    assert(!v.deep_view().contains(x@));
    false
}

/// `p` added to the path list unless it is already there.
pub fn push_path(files: &mut Vec<String>, p: &str)
    ensures
        final(files).deep_view() == add_path(old(files).deep_view(), p@),
{
    if !vec_contains_string(files, p) {
        files.push(p.to_owned());
        proof {
            assert(files.deep_view() =~= old(files).deep_view().push(p@));
        }
    }
}

impl PromptBuilder {
    /// A draft opened by a genuine prompt with the given text and timestamp.
    pub fn new(prompt_text: String, timestamp: String) -> (r: Self)
        ensures
            r@ == new_draft(prompt_text@, timestamp@),
    {
        let r = PromptBuilder {
            prompt_text,
            timestamp,
            time_end: None,
            files_touched: Vec::new(),
            files_written: Vec::new(),
            tool_call_count: 0,
            model: None,
            input_tokens: 0,
            output_tokens: 0,
            cache_read_tokens: 0,
        };
        proof {
            assert(r.files_touched.deep_view() =~= Seq::<Seq<char>>::empty());
            assert(r.files_written.deep_view() =~= Seq::<Seq<char>>::empty());
        }
        r
    }

    /// Record that an event with the given timestamp was observed while this
    /// draft was open.
    pub fn note_event_time(&mut self, ts: &str)
        ensures
            final(self)@ == with_time(old(self)@, ts@),
    {
        if !ts.is_empty() {
            self.time_end = Some(ts.to_owned());
        }
    }

    /// Close this draft and materialize the session it accumulated for the
    /// log named `session_id`.
    pub fn build(self, session_id: &str) -> (r: PromptSession)
        ensures
            r@ == build_spec(self@, session_id@),
    {
        let files_touched = crate::order::sort_strings(self.files_touched);
        let files_written = crate::order::sort_strings(self.files_written);
        let r = PromptSession {
            session_id: session_id.to_owned(),
            prompt_text: self.prompt_text,
            timestamp: self.timestamp,
            associated_commit_hashes: Vec::new(),
            associated_feature_ids: Vec::new(),
            intent: None,
            files_touched,
            files_written,
            tool_call_count: self.tool_call_count,
            model: self.model,
            token_usage: TokenUsage {
                input_tokens: self.input_tokens,
                output_tokens: self.output_tokens,
                cache_read_tokens: self.cache_read_tokens,
            },
            time_end: self.time_end,
        };
        proof {
            assert(r.associated_commit_hashes.deep_view() =~= Seq::<Seq<char>>::empty());
            assert(r.associated_feature_ids@ =~= Seq::<i32>::empty());
        }
        r
    }
}

} // verus!
