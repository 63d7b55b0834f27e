//! The laws the reconstruction obeys, stated over the scan's mathematical
//! model and proved for every input.

use vstd::prelude::*;
use crate::accumulator::{
    apply_tool_use, apply_tools, fold_assistant_spec, sat_add64, scan_spec, scan_state,
    step_spec, AccStateV,
};
use crate::event::{has_tool_result, AssistantEventV, EventV, ToolUseV, UserBlockV};
use crate::order::{lemma_sort_lex_ensures, sorted_lex};
use crate::session::{add_path, build_spec, new_draft, with_time, DraftV, SessionV};
use crate::strings::is_blank_seq;

verus! {

/// What always holds of an open draft: its prompt is not blank, and every
/// file written was also touched.
pub open spec fn wf_draft(d: DraftV) -> bool {
    &&& !is_blank_seq(d.prompt_text)
    &&& forall|p: Seq<char>| d.files_written.contains(p) ==> d.files_touched.contains(p)
    &&& d.files_touched.no_duplicates()
    &&& d.files_written.no_duplicates()
}

/// What always holds of the scan's state.
pub open spec fn wf_state(st: AccStateV) -> bool {
    match st {
        AccStateV::Idle => true,
        AccStateV::Open(d) => wf_draft(d),
    }
}

/// What always holds of an emitted session, whichever log emitted it: a
/// non-blank prompt, sorted file lists with every written file also touched,
/// and the correlation fields at their defaults.
pub open spec fn wf_session_any(s: SessionV) -> bool {
    &&& !is_blank_seq(s.prompt_text)
    &&& forall|p: Seq<char>| s.files_written.contains(p) ==> s.files_touched.contains(p)
    &&& sorted_lex(s.files_touched)
    &&& sorted_lex(s.files_written)
    &&& s.files_touched.no_duplicates()
    &&& s.files_written.no_duplicates()
    &&& s.associated_commit_hashes.len() == 0
    &&& s.associated_feature_ids.len() == 0
    &&& s.intent is None
}

/// What always holds of an emitted session: the above, and it carries its
/// log's name.
pub open spec fn wf_session(s: SessionV, sid: Seq<char>) -> bool {
    &&& s.session_id == sid
    &&& wf_session_any(s)
}

/// A pushed element is contained, and nothing else changes.
proof fn lemma_push_contains<A>(s: Seq<A>, x: A, q: A)
    ensures
        s.push(x).contains(q) <==> (s.contains(q) || q == x),
{
    if s.contains(q) {
        let i = choose|i: int| 0 <= i < s.len() && s[i] == q;
        assert(s.push(x)[i] == q);
    }
    assert(s.push(x)[s.len() as int] == x);
    if s.push(x).contains(q) {
        let i = choose|i: int| 0 <= i < s.push(x).len() && s.push(x)[i] == q;
        if i < s.len() {
            assert(s[i] == q);
        }
    }
}

/// What `add_path` holds afterwards: the old elements and the new one.
proof fn lemma_add_path_contains(files: Seq<Seq<char>>, p: Seq<char>, q: Seq<char>)
    ensures
        add_path(files, p).contains(q) <==> (files.contains(q) || q == p),
{
    if files.contains(p) {
    } else {
        lemma_push_contains(files, p, q);
    }
}

/// `add_path` keeps the path list free of duplicates.
proof fn lemma_add_path_no_dup(files: Seq<Seq<char>>, p: Seq<char>)
    requires
        files.no_duplicates(),
    ensures
        add_path(files, p).no_duplicates(),
{
    if !files.contains(p) {
        let r = files.push(p);
        assert forall|i: int, j: int| 0 <= i < r.len() && 0 <= j < r.len() && i != j implies r[i]
            != r[j] by {
            if i < files.len() && j < files.len() {
            } else if i == files.len() {
                assert(r[j] == files[j]);
                assert(files.contains(files[j]));
            } else {
                assert(r[i] == files[i]);
                assert(files.contains(files[i]));
            }
        }
    }
}

/// One tool call keeps the draft well-formed; files only accumulate.
proof fn lemma_apply_tool_use_wf(d: DraftV, t: ToolUseV)
    requires
        wf_draft(d),
    ensures
        wf_draft(apply_tool_use(d, t)),
        apply_tool_use(d, t).prompt_text == d.prompt_text,
        apply_tool_use(d, t).timestamp == d.timestamp,
        apply_tool_use(d, t).time_end == d.time_end,
        apply_tool_use(d, t).model == d.model,
        apply_tool_use(d, t).input_tokens == d.input_tokens,
        apply_tool_use(d, t).output_tokens == d.output_tokens,
        apply_tool_use(d, t).cache_read_tokens == d.cache_read_tokens,
{
    let r = apply_tool_use(d, t);
    if t.name == "Write"@ || t.name == "Edit"@ || t.name == "Read"@ {
        match t.file_path {
            Some(p) => {
                lemma_add_path_no_dup(d.files_touched, p);
                lemma_add_path_no_dup(d.files_written, p);
            },
            None => {},
        }
    }
    if t.name == "NotebookEdit"@ {
        match t.notebook_path {
            Some(p) => {
                lemma_add_path_no_dup(d.files_touched, p);
                lemma_add_path_no_dup(d.files_written, p);
            },
            None => {},
        }
    }
    assert forall|q: Seq<char>| r.files_written.contains(q) implies r.files_touched.contains(
        q,
    ) by {
        if t.name == "Write"@ || t.name == "Edit"@ {
            match t.file_path {
                Some(p) => {
                    lemma_add_path_contains(d.files_written, p, q);
                    lemma_add_path_contains(d.files_touched, p, q);
                },
                None => {},
            }
        } else if t.name == "Read"@ {
            match t.file_path {
                Some(p) => {
                    lemma_add_path_contains(d.files_touched, p, q);
                },
                None => {},
            }
        } else if t.name == "NotebookEdit"@ {
            match t.notebook_path {
                Some(p) => {
                    lemma_add_path_contains(d.files_written, p, q);
                    lemma_add_path_contains(d.files_touched, p, q);
                },
                None => {},
            }
        }
    }
}

/// A whole event's tool calls keep the draft well-formed and leave every
/// field but the counter and the file sets unchanged.
proof fn lemma_apply_tools_wf(d: DraftV, ts: Seq<ToolUseV>)
    requires
        wf_draft(d),
    ensures
        wf_draft(apply_tools(d, ts)),
        apply_tools(d, ts).prompt_text == d.prompt_text,
        apply_tools(d, ts).timestamp == d.timestamp,
        apply_tools(d, ts).time_end == d.time_end,
        apply_tools(d, ts).model == d.model,
        apply_tools(d, ts).input_tokens == d.input_tokens,
        apply_tools(d, ts).output_tokens == d.output_tokens,
        apply_tools(d, ts).cache_read_tokens == d.cache_read_tokens,
    decreases ts.len(),
{
    if ts.len() > 0 {
        lemma_apply_tool_use_wf(d, ts[0]);
        lemma_apply_tools_wf(apply_tool_use(d, ts[0]), ts.drop_first());
    }
}

/// Folding one assistant event keeps the draft well-formed.
proof fn lemma_fold_assistant_wf(d: DraftV, a: AssistantEventV)
    requires
        wf_draft(d),
    ensures
        wf_draft(fold_assistant_spec(d, a)),
{
    let d1 = with_time(d, a.timestamp);
    assert(wf_draft(d1));
    let d2 = DraftV {
        model: if d1.model is None {
            a.model
        } else {
            d1.model
        },
        input_tokens: sat_add64(d1.input_tokens, a.input_tokens),
        output_tokens: sat_add64(d1.output_tokens, a.output_tokens),
        cache_read_tokens: sat_add64(d1.cache_read_tokens, a.cache_read_tokens),
        ..d1
    };
    assert(wf_draft(d2));
    lemma_apply_tools_wf(d2, a.tool_uses);
}

/// Sorting a duplicate-free list of paths keeps it duplicate-free.
proof fn lemma_sort_lex_no_dup(s: Seq<Seq<char>>)
    requires
        s.no_duplicates(),
    ensures
        crate::order::sort_lex(s).no_duplicates(),
{
    broadcast use vstd::seq_lib::group_to_multiset_ensures;

    lemma_sort_lex_ensures(s);
    s.lemma_multiset_has_no_duplicates();
    crate::order::sort_lex(s).lemma_multiset_has_no_duplicates_conv();
}

/// Sorting a list of paths keeps exactly its elements.
proof fn lemma_sort_lex_contains(s: Seq<Seq<char>>, q: Seq<char>)
    ensures
        crate::order::sort_lex(s).contains(q) <==> s.contains(q),
{
    broadcast use vstd::seq_lib::group_to_multiset_ensures;

    lemma_sort_lex_ensures(s);
    assert(s.contains(q) <==> s.to_multiset().count(q) > 0);
    assert(crate::order::sort_lex(s).contains(q) <==> crate::order::sort_lex(
        s,
    ).to_multiset().count(q) > 0);
}

/// A well-formed draft builds a well-formed session.
pub proof fn lemma_build_wf(d: DraftV, sid: Seq<char>)
    requires
        wf_draft(d),
    ensures
        wf_session(build_spec(d, sid), sid),
{
    lemma_sort_lex_ensures(d.files_touched);
    lemma_sort_lex_ensures(d.files_written);
    lemma_sort_lex_no_dup(d.files_touched);
    lemma_sort_lex_no_dup(d.files_written);
    let s = build_spec(d, sid);
    assert forall|p: Seq<char>| s.files_written.contains(p) implies s.files_touched.contains(
        p,
    ) by {
        lemma_sort_lex_contains(d.files_written, p);
        lemma_sort_lex_contains(d.files_touched, p);
    }
}

/// One step from a well-formed state reaches a well-formed state, and every
/// session it emits is well-formed.
pub proof fn lemma_step_wf(st: AccStateV, ev: EventV, sid: Seq<char>)
    requires
        wf_state(st),
    ensures
        wf_state(step_spec(st, ev, sid).0),
        forall|k: int|
            0 <= k < step_spec(st, ev, sid).1.len() ==> wf_session(
                #[trigger] step_spec(st, ev, sid).1[k],
                sid,
            ),
{
    match ev {
        EventV::UserProse { timestamp, text } => {
            match st {
                AccStateV::Open(d) => lemma_build_wf(d, sid),
                AccStateV::Idle => {},
            }
        },
        EventV::UserBlocks { timestamp, blocks } => {
            if !has_tool_result(blocks) {
                let text = crate::event::join_texts(blocks);
                if !is_blank_seq(text) {
                    match st {
                        AccStateV::Open(d) => lemma_build_wf(d, sid),
                        AccStateV::Idle => {},
                    }
                }
            }
        },
        EventV::Assistant(a) => {
            match st {
                AccStateV::Open(d) => lemma_fold_assistant_wf(d, a),
                AccStateV::Idle => {},
            }
        },
        EventV::Other => {},
    }
}

/// The scan of any event sequence keeps a well-formed state and emits only
/// well-formed sessions.
pub proof fn lemma_scan_state_wf(events: Seq<EventV>, sid: Seq<char>)
    ensures
        wf_state(scan_state(events, sid).0),
        forall|k: int|
            0 <= k < scan_state(events, sid).1.len() ==> wf_session(
                #[trigger] scan_state(events, sid).1[k],
                sid,
            ),
    decreases events.len(),
{
    if events.len() > 0 {
        lemma_scan_state_wf(events.drop_last(), sid);
        lemma_step_wf(scan_state(events.drop_last(), sid).0, events.last(), sid);
    }
}

/// Law: every session any scan emits is well-formed — it names its log,
/// its prompt is not blank (a prompt that trims to nothing is never
/// emitted), its file lists are sorted, and every file written was also
/// touched.
pub proof fn lemma_scan_sessions_wf(events: Seq<EventV>, sid: Seq<char>)
    ensures
        forall|k: int|
            0 <= k < scan_spec(events, sid).len() ==> wf_session(
                #[trigger] scan_spec(events, sid)[k],
                sid,
            ),
{
    lemma_scan_state_wf(events, sid);
    match scan_state(events, sid).0 {
        AccStateV::Open(d) => {
            lemma_build_wf(d, sid);
            let r = scan_spec(events, sid);
            assert forall|k: int| 0 <= k < r.len() implies wf_session(#[trigger] r[k], sid) by {
                if k < r.len() - 1 {
                    assert(r[k] == scan_state(events, sid).1[k]);
                }
            }
        },
        AccStateV::Idle => {},
    }
}

/// Law: in every emitted session, every file written is among the files
/// touched, whatever the input events were.
pub proof fn lemma_files_written_subset(
    events: Seq<EventV>,
    sid: Seq<char>,
    k: int,
    p: Seq<char>,
)
    requires
        0 <= k < scan_spec(events, sid).len(),
        scan_spec(events, sid)[k].files_written.contains(p),
    ensures
        scan_spec(events, sid)[k].files_touched.contains(p),
{
    lemma_scan_sessions_wf(events, sid);
}

/// The tool-call counter and token sums after an event's tool calls, and
/// what those calls leave untouched.
proof fn lemma_apply_tools_fields(d: DraftV, ts: Seq<ToolUseV>)
    ensures
        apply_tools(d, ts).tool_call_count as int == if d.tool_call_count + ts.len()
            <= u32::MAX {
            d.tool_call_count + ts.len()
        } else {
            u32::MAX as int
        },
        apply_tools(d, ts).prompt_text == d.prompt_text,
        apply_tools(d, ts).timestamp == d.timestamp,
        apply_tools(d, ts).time_end == d.time_end,
        apply_tools(d, ts).model == d.model,
        apply_tools(d, ts).input_tokens == d.input_tokens,
        apply_tools(d, ts).output_tokens == d.output_tokens,
        apply_tools(d, ts).cache_read_tokens == d.cache_read_tokens,
    decreases ts.len(),
{
    if ts.len() > 0 {
        lemma_apply_tools_fields(apply_tool_use(d, ts[0]), ts.drop_first());
    }
}

/// Law: folding one more assistant event never decreases any of the three
/// token sums of the open draft.
pub proof fn lemma_usage_monotone(d: DraftV, a: AssistantEventV)
    ensures
        fold_assistant_spec(d, a).input_tokens >= d.input_tokens,
        fold_assistant_spec(d, a).output_tokens >= d.output_tokens,
        fold_assistant_spec(d, a).cache_read_tokens >= d.cache_read_tokens,
{
    let d1 = with_time(d, a.timestamp);
    let d2 = DraftV {
        model: if d1.model is None {
            a.model
        } else {
            d1.model
        },
        input_tokens: sat_add64(d1.input_tokens, a.input_tokens),
        output_tokens: sat_add64(d1.output_tokens, a.output_tokens),
        cache_read_tokens: sat_add64(d1.cache_read_tokens, a.cache_read_tokens),
        ..d1
    };
    lemma_apply_tools_fields(d2, a.tool_uses);
}

/// Two drafts that agree on everything but their end time.
pub open spec fn draft_like(d1: DraftV, d2: DraftV) -> bool {
    &&& d1.prompt_text == d2.prompt_text
    &&& d1.timestamp == d2.timestamp
    &&& d1.files_touched == d2.files_touched
    &&& d1.files_written == d2.files_written
    &&& d1.tool_call_count == d2.tool_call_count
    &&& d1.model == d2.model
    &&& d1.input_tokens == d2.input_tokens
    &&& d1.output_tokens == d2.output_tokens
    &&& d1.cache_read_tokens == d2.cache_read_tokens
}

/// Two scan states that agree up to the open draft's end time.
pub open spec fn state_like(s1: AccStateV, s2: AccStateV) -> bool {
    match (s1, s2) {
        (AccStateV::Idle, AccStateV::Idle) => true,
        (AccStateV::Open(d1), AccStateV::Open(d2)) => draft_like(d1, d2),
        _ => false,
    }
}

/// Tool calls read nothing but the fields `draft_like` compares, so they
/// keep two like drafts like.
proof fn lemma_apply_tools_like(d1: DraftV, d2: DraftV, ts: Seq<ToolUseV>)
    requires
        draft_like(d1, d2),
    ensures
        draft_like(apply_tools(d1, ts), apply_tools(d2, ts)),
    decreases ts.len(),
{
    if ts.len() > 0 {
        lemma_apply_tools_like(apply_tool_use(d1, ts[0]), apply_tool_use(d2, ts[0]), ts.drop_first());
    }
}

/// One step started in like states ends in like states and emits the same
/// number of sessions.
proof fn lemma_step_like(s1: AccStateV, s2: AccStateV, ev: EventV, sid: Seq<char>)
    requires
        state_like(s1, s2),
    ensures
        state_like(step_spec(s1, ev, sid).0, step_spec(s2, ev, sid).0),
        step_spec(s1, ev, sid).1.len() == step_spec(s2, ev, sid).1.len(),
{
    match ev {
        EventV::Assistant(a) => {
            match (s1, s2) {
                (AccStateV::Open(d1), AccStateV::Open(d2)) => {
                    let e1 = with_time(d1, a.timestamp);
                    let e2 = with_time(d2, a.timestamp);
                    assert(draft_like(e1, e2));
                    let f1 = DraftV {
                        model: if e1.model is None {
                            a.model
                        } else {
                            e1.model
                        },
                        input_tokens: sat_add64(e1.input_tokens, a.input_tokens),
                        output_tokens: sat_add64(e1.output_tokens, a.output_tokens),
                        cache_read_tokens: sat_add64(e1.cache_read_tokens, a.cache_read_tokens),
                        ..e1
                    };
                    let f2 = DraftV {
                        model: if e2.model is None {
                            a.model
                        } else {
                            e2.model
                        },
                        input_tokens: sat_add64(e2.input_tokens, a.input_tokens),
                        output_tokens: sat_add64(e2.output_tokens, a.output_tokens),
                        cache_read_tokens: sat_add64(e2.cache_read_tokens, a.cache_read_tokens),
                        ..e2
                    };
                    assert(draft_like(f1, f2));
                    lemma_apply_tools_like(f1, f2, a.tool_uses);
                },
                _ => {},
            }
        },
        _ => {},
    }
}

/// Inserting one tool-result echo leaves the final state like and the
/// emitted count equal, whatever follows it.
proof fn lemma_scan_like(
    before: Seq<EventV>,
    echo: EventV,
    after: Seq<EventV>,
    sid: Seq<char>,
)
    requires
        echo matches EventV::UserBlocks { timestamp, blocks } && has_tool_result(blocks),
    ensures
        state_like(
            scan_state(before + seq![echo] + after, sid).0,
            scan_state(before + after, sid).0,
        ),
        scan_state(before + seq![echo] + after, sid).1.len() == scan_state(
            before + after,
            sid,
        ).1.len(),
    decreases after.len(),
{
    if after.len() == 0 {
        assert(before + seq![echo] + after =~= before.push(echo));
        assert(before + after =~= before);
        assert(before.push(echo).drop_last() =~= before);
        assert(before.push(echo).last() == echo);
        match scan_state(before, sid).0 {
            AccStateV::Open(d) => {},
            AccStateV::Idle => {},
        }
    } else {
        lemma_scan_like(before, echo, after.drop_last(), sid);
        assert((before + seq![echo] + after).drop_last() =~= before + seq![echo]
            + after.drop_last());
        assert((before + seq![echo] + after).last() == after.last());
        assert((before + after).drop_last() =~= before + after.drop_last());
        assert((before + after).last() == after.last());
        lemma_step_like(
            scan_state(before + seq![echo] + after.drop_last(), sid).0,
            scan_state(before + after.drop_last(), sid).0,
            after.last(),
            sid,
        );
    }
}

/// Law: a tool-result echo never opens or closes a session: inserted at any
/// position of any stream, it leaves the number of emitted sessions
/// unchanged.
pub proof fn lemma_echo_preserves_count(
    before: Seq<EventV>,
    timestamp: Seq<char>,
    blocks: Seq<UserBlockV>,
    after: Seq<EventV>,
    sid: Seq<char>,
)
    requires
        has_tool_result(blocks),
    ensures
        scan_spec(before + seq![EventV::UserBlocks { timestamp, blocks }] + after, sid).len()
            == scan_spec(before + after, sid).len(),
{
    let echo = EventV::UserBlocks { timestamp, blocks };
    lemma_scan_like(before, echo, after, sid);
    match scan_state(before + seq![echo] + after, sid).0 {
        AccStateV::Open(d) => {},
        AccStateV::Idle => {},
    }
}

/// Law: a genuine prompt whose text is blank opens nothing, but the session
/// that was open is still closed and emitted first.
pub proof fn lemma_blank_prompt_closes(
    st: AccStateV,
    timestamp: Seq<char>,
    text: Seq<char>,
    sid: Seq<char>,
)
    requires
        is_blank_seq(text),
    ensures
        step_spec(st, EventV::UserProse { timestamp, text }, sid).0 == AccStateV::Idle,
        step_spec(st, EventV::UserProse { timestamp, text }, sid).1 == match st {
            AccStateV::Open(d) => seq![build_spec(d, sid)],
            AccStateV::Idle => Seq::<SessionV>::empty(),
        },
{
}

/// Law: two consecutive genuine prompts with nothing between them yield two
/// sessions, each with empty file sets and a tool-call count of zero.
pub proof fn lemma_two_prompts(
    x1: Seq<char>,
    t1: Seq<char>,
    x2: Seq<char>,
    t2: Seq<char>,
    sid: Seq<char>,
)
    requires
        !is_blank_seq(x1),
        !is_blank_seq(x2),
    ensures
        ({
            let r = scan_spec(
                seq![
                    EventV::UserProse { timestamp: t1, text: x1 },
                    EventV::UserProse { timestamp: t2, text: x2 },
                ],
                sid,
            );
            &&& r.len() == 2
            &&& r[0] == build_spec(new_draft(x1, t1), sid)
            &&& r[1] == build_spec(new_draft(x2, t2), sid)
            &&& r[0].prompt_text == x1
            &&& r[1].prompt_text == x2
            &&& r[0].files_touched.len() == 0
            &&& r[0].files_written.len() == 0
            &&& r[0].tool_call_count == 0
            &&& r[1].files_touched.len() == 0
            &&& r[1].files_written.len() == 0
            &&& r[1].tool_call_count == 0
        }),
{
    let ev1 = EventV::UserProse { timestamp: t1, text: x1 };
    let ev2 = EventV::UserProse { timestamp: t2, text: x2 };
    let events = seq![ev1, ev2];
    assert(events.drop_last() =~= seq![ev1]);
    assert(events.last() == ev2);
    assert(seq![ev1].drop_last() =~= Seq::<EventV>::empty());
    assert(seq![ev1].last() == ev1);
    assert(scan_state(Seq::<EventV>::empty(), sid).0 == AccStateV::Idle);
    assert(scan_state(seq![ev1], sid).0 == AccStateV::Open(new_draft(x1, t1)));
    assert(scan_state(seq![ev1], sid).1 =~= Seq::<SessionV>::empty());
    assert(scan_state(events, sid).0 == AccStateV::Open(new_draft(x2, t2)));
    assert(scan_state(events, sid).1 =~= seq![build_spec(new_draft(x1, t1), sid)]);
    let r = scan_spec(events, sid);
    assert(r =~= seq![
        build_spec(new_draft(x1, t1), sid),
        build_spec(new_draft(x2, t2), sid),
    ]);
    lemma_sort_lex_ensures(Seq::<Seq<char>>::empty());
}

/// All events in the stretch are assistant events.
pub open spec fn all_assistant(events: Seq<EventV>) -> bool {
    forall|i: int| 0 <= i < events.len() ==> events[i] is Assistant
}

/// How many `tool_use` blocks the assistant events carry in all.
pub open spec fn total_tool_uses(events: Seq<EventV>) -> int
    decreases events.len(),
{
    if events.len() == 0 {
        0
    } else {
        total_tool_uses(events.drop_last()) + (match events.last() {
            EventV::Assistant(a) => a.tool_uses.len() as int,
            _ => 0,
        })
    }
}

/// The sums of the three token-usage fields over the assistant events.
pub open spec fn total_usage(events: Seq<EventV>) -> (int, int, int)
    decreases events.len(),
{
    if events.len() == 0 {
        (0, 0, 0)
    } else {
        let rest = total_usage(events.drop_last());
        match events.last() {
            EventV::Assistant(a) => (
                rest.0 + a.input_tokens,
                rest.1 + a.output_tokens,
                rest.2 + a.cache_read_tokens,
            ),
            _ => rest,
        }
    }
}

/// After one genuine prompt and any stretch of assistant events, exactly
/// one draft is open and nothing was emitted; the draft holds the prompt's
/// text and the saturated totals of tool calls and token usage.
proof fn lemma_prompt_scan_state(
    text: Seq<char>,
    ts: Seq<char>,
    assists: Seq<EventV>,
    sid: Seq<char>,
)
    requires
        !is_blank_seq(text),
        all_assistant(assists),
    ensures
        ({
            let st = scan_state(seq![EventV::UserProse { timestamp: ts, text }] + assists, sid);
            &&& st.1 =~= Seq::<SessionV>::empty()
            &&& st.0 is Open
            &&& st.0->Open_0.prompt_text == text
            &&& st.0->Open_0.tool_call_count as int == if total_tool_uses(assists) <= u32::MAX {
                total_tool_uses(assists)
            } else {
                u32::MAX as int
            }
            &&& st.0->Open_0.input_tokens as int == if total_usage(assists).0 <= u64::MAX {
                total_usage(assists).0
            } else {
                u64::MAX as int
            }
            &&& st.0->Open_0.output_tokens as int == if total_usage(assists).1 <= u64::MAX {
                total_usage(assists).1
            } else {
                u64::MAX as int
            }
            &&& st.0->Open_0.cache_read_tokens as int == if total_usage(assists).2 <= u64::MAX {
                total_usage(assists).2
            } else {
                u64::MAX as int
            }
        }),
    decreases assists.len(),
{
    let prompt = EventV::UserProse { timestamp: ts, text };
    let events = seq![prompt] + assists;
    if assists.len() == 0 {
        assert(events =~= seq![prompt]);
        assert(events.drop_last() =~= Seq::<EventV>::empty());
        assert(events.last() == prompt);
        assert(scan_state(Seq::<EventV>::empty(), sid).0 == AccStateV::Idle);
        assert(scan_state(Seq::<EventV>::empty(), sid).1 =~= Seq::<SessionV>::empty());
        assert(scan_state(events, sid).0 == AccStateV::Open(new_draft(text, ts)));
        assert(scan_state(events, sid).1 =~= Seq::<SessionV>::empty());
    } else {
        let shorter = assists.drop_last();
        assert(all_assistant(shorter));
        lemma_prompt_scan_state(text, ts, shorter, sid);
        assert(events.drop_last() =~= seq![prompt] + shorter);
        assert(events.last() == assists.last());
        let d = scan_state(seq![prompt] + shorter, sid).0->Open_0;
        let a = assists.last()->Assistant_0;
        assert(assists.last() is Assistant);
        let d1 = with_time(d, a.timestamp);
        let d2 = DraftV {
            model: if d1.model is None {
                a.model
            } else {
                d1.model
            },
            input_tokens: sat_add64(d1.input_tokens, a.input_tokens),
            output_tokens: sat_add64(d1.output_tokens, a.output_tokens),
            cache_read_tokens: sat_add64(d1.cache_read_tokens, a.cache_read_tokens),
            ..d1
        };
        lemma_apply_tools_fields(d2, a.tool_uses);
        assert(scan_state(events, sid).1 =~= Seq::<SessionV>::empty());
    }
}

/// Law: a stream of exactly one genuine prompt followed by assistant events
/// yields exactly one session; its tool-call count is the number of
/// `tool_use` blocks and its token usage the sum of the events' fields,
/// whenever those totals are representable.
pub proof fn lemma_prompt_then_assistants(
    text: Seq<char>,
    ts: Seq<char>,
    assists: Seq<EventV>,
    sid: Seq<char>,
)
    requires
        !is_blank_seq(text),
        all_assistant(assists),
        total_tool_uses(assists) <= u32::MAX,
        total_usage(assists).0 <= u64::MAX,
        total_usage(assists).1 <= u64::MAX,
        total_usage(assists).2 <= u64::MAX,
    ensures
        ({
            let r = scan_spec(seq![EventV::UserProse { timestamp: ts, text }] + assists, sid);
            &&& r.len() == 1
            &&& r[0].prompt_text == text
            &&& r[0].tool_call_count as int == total_tool_uses(assists)
            &&& r[0].token_usage.input_tokens as int == total_usage(assists).0
            &&& r[0].token_usage.output_tokens as int == total_usage(assists).1
            &&& r[0].token_usage.cache_read_tokens as int == total_usage(assists).2
        }),
{
    lemma_prompt_scan_state(text, ts, assists, sid);
}

} // verus!
