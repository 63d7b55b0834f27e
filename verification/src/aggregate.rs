//! From raw file contents to the merged result: split a log into lines,
//! decode and scan each file, concatenate every file's sessions, and sort
//! the whole newest-first by timestamp.

use vstd::prelude::*;
use vstd::std_specs::iter::IteratorSpec;
use crate::accumulator::{accumulate_events, scan_spec};
use crate::decode::{decode_line, decode_spec};
use crate::event::{EventRecord, EventV};
use crate::json::parsed_json;
use crate::order::{lemma_lex_le_total, lemma_lex_le_trans};
use crate::session::{PromptSession, SessionV};
use crate::strings::{lex_le, push_char, str_le};

verus! {

/// The text split at every newline: always one more segment than there are
/// newline characters, each segment free of newlines.
pub open spec fn split_nl(s: Seq<char>) -> Seq<Seq<char>>
    decreases s.len(),
{
    if s.len() == 0 {
        seq![Seq::<char>::empty()]
    } else if s.last() == '\n' {
        split_nl(s.drop_last()).push(Seq::<char>::empty())
    } else {
        let r = split_nl(s.drop_last());
        r.update(r.len() - 1, r.last().push(s.last()))
    }
}

/// The split never yields an empty list of segments.
pub proof fn lemma_split_nl_len(s: Seq<char>)
    ensures
        split_nl(s).len() >= 1,
    decreases s.len(),
{
    if s.len() > 0 {
        lemma_split_nl_len(s.drop_last());
    }
}

/// The log's content as its lines. A trailing newline yields a final empty
/// segment; empty segments decode to nothing downstream.
pub fn split_lines(s: &str) -> (r: Vec<String>)
    ensures
        r.deep_view() == split_nl(s@),
{
    broadcast use vstd::string::next_postcondition;
    broadcast use vstd::string::axiom_spec_iter;

    let mut it = s.chars();
    let mut r: Vec<String> = Vec::new();
    r.push(String::new());
    let ghost mut done: Seq<char> = Seq::empty();
    proof {
        assert(r.deep_view() =~= split_nl(Seq::<char>::empty()));
        assert(done + it.remaining() =~= s@);
    }
    loop
        invariant
            it.obeys_prophetic_iter_laws(),
            it.decrease() is Some,
            done + it.remaining() == s@,
            r@.len() >= 1,
            r.deep_view() == split_nl(done),
        ensures
            r.deep_view() == split_nl(s@),
        decreases it.decrease()->0,
    {
        let ghost rem0 = it.remaining();
        let ghost pre = done;
        match it.next() {
            Some(c) => {
                proof {
                    assert(rem0.len() > 0);
                    assert(c == rem0[0]);
                    done = pre.push(c);
                    assert(done + it.remaining() =~= s@);
                    assert(done.drop_last() =~= pre);
                    assert(done.last() == c);
                    lemma_split_nl_len(pre);
                }
                if c == '\n' {
                    r.push(String::new());
                    proof {
                        assert(r.deep_view() =~= split_nl(pre).push(Seq::<char>::empty()));
                    }
                } else {
                    let mut last = match r.pop() {
                        Some(l) => l,
                        None => String::new(),
                    };
                    push_char(&mut last, c);
                    r.push(last);
                    proof {
                        let prev = split_nl(pre);
                        assert(r.deep_view() =~= prev.update(prev.len() - 1, prev.last().push(c)));
                    }
                }
            },
            None => {
                proof {
                    assert(rem0.len() == 0);
                    assert(done =~= s@);
                }
                break ;
            },
        }
    }
    r
}

/// The events a list of lines decodes to, in order: what each parseable
/// line stands for, blank and malformed lines skipped.
pub open spec fn events_of(lines: Seq<Seq<char>>) -> Seq<EventV>
    decreases lines.len(),
{
    if lines.len() == 0 {
        Seq::empty()
    } else {
        let rest = events_of(lines.drop_first());
        match parsed_json(lines[0]) {
            Some(v) => seq![decode_spec(v)] + rest,
            None => rest,
        }
    }
}

/// One more line extends the decoded events by its event, if it has one.
proof fn lemma_events_of_push(lines: Seq<Seq<char>>, l: Seq<char>)
    ensures
        events_of(lines.push(l)) == match parsed_json(l) {
            Some(v) => events_of(lines).push(decode_spec(v)),
            None => events_of(lines),
        },
    decreases lines.len(),
{
    if lines.len() == 0 {
        assert(lines.push(l).drop_first() =~= Seq::<Seq<char>>::empty());
        assert(events_of(lines.push(l).drop_first()) =~= Seq::<EventV>::empty());
        match parsed_json(l) {
            Some(v) => {
                assert(events_of(lines.push(l)) =~= seq![decode_spec(v)]);
                assert(events_of(lines).push(decode_spec(v)) =~= seq![decode_spec(v)]);
            },
            None => {},
        }
    } else {
        lemma_events_of_push(lines.drop_first(), l);
        assert(lines.push(l).drop_first() =~= lines.drop_first().push(l));
        match (parsed_json(lines[0]), parsed_json(l)) {
            (Some(v0), Some(v)) => {
                assert((seq![decode_spec(v0)] + events_of(lines.drop_first())).push(decode_spec(v))
                    =~= seq![decode_spec(v0)] + events_of(lines.drop_first()).push(decode_spec(v)));
            },
            _ => {},
        }
    }
}

/// What one log file's text yields: its lines decoded, the events scanned
/// in file order from an idle start.
pub open spec fn sessions_of_content(content: Seq<char>, sid: Seq<char>) -> Seq<SessionV> {
    scan_spec(events_of(split_nl(content)), sid)
}

/// The sessions of one log file: each line decoded (blank and malformed
/// lines skipped), the events scanned in file order. The result is exactly
/// the scan of what the text decodes to, and every session it holds is
/// well-formed for the given log name.
pub fn parse_session_log(content: &str, session_id: &str) -> (r: Vec<PromptSession>)
    ensures
        r.deep_view() == sessions_of_content(content@, session_id@),
        forall|k: int|
            0 <= k < r.deep_view().len() ==> crate::laws::wf_session(
                #[trigger] r.deep_view()[k],
                session_id@,
            ),
{
    let lines = split_lines(content);
    let mut events: Vec<EventRecord> = Vec::new();
    proof {
        assert(lines.deep_view().take(0) =~= Seq::<Seq<char>>::empty());
        assert(events.deep_view() =~= events_of(lines.deep_view().take(0)));
    }
    let mut i: usize = 0;
    while i < lines.len()
        invariant
            i <= lines@.len(),
            lines@.len() == lines.deep_view().len(),
            events.deep_view() == events_of(lines.deep_view().take(i as int)),
        decreases lines@.len() - i,
    {
        proof {
            assert(lines.deep_view().take(i + 1 as int) =~= lines.deep_view().take(i as int).push(
                lines.deep_view()[i as int],
            ));
            lemma_events_of_push(lines.deep_view().take(i as int), lines.deep_view()[i as int]);
            assert(lines.deep_view()[i as int] == lines@[i as int]@);
        }
        let ghost pre = events.deep_view();
        if let Some(ev) = decode_line(lines[i].as_str()) {
            events.push(ev);
            proof {
                assert(events.deep_view() =~= pre.push(ev@));
            }
        }
        i += 1;
    }
    proof {
        assert(lines.deep_view().take(lines@.len() as int) =~= lines.deep_view());
    }
    let r = accumulate_events(&events, session_id);
    proof {
        assert(r.deep_view() == scan_spec(events.deep_view(), session_id@));
        crate::laws::lemma_scan_sessions_wf(events.deep_view(), session_id@);
    }
    r
}

/// One session log handed in by the caller: the file's base name (its
/// extension stripped), which names the session, and the file's text.
pub struct SessionLog {
    pub session_id: String,
    pub content: String,
}

/// The mathematical value of a `SessionLog`.
pub struct LogV {
    pub session_id: Seq<char>,
    pub content: Seq<char>,
}

impl View for SessionLog {
    type V = LogV;

    open spec fn view(&self) -> LogV {
        LogV { session_id: self.session_id@, content: self.content@ }
    }
}

impl DeepView for SessionLog {
    type V = LogV;

    open spec fn deep_view(&self) -> LogV {
        self.view()
    }
}

/// Everything the given log files yield, file by file, in file order.
pub open spec fn sessions_of_logs(logs: Seq<LogV>) -> Seq<SessionV>
    decreases logs.len(),
{
    if logs.len() == 0 {
        Seq::empty()
    } else {
        sessions_of_content(logs[0].content, logs[0].session_id) + sessions_of_logs(
            logs.drop_first(),
        )
    }
}

/// One more file appends its sessions at the end.
proof fn lemma_sessions_of_logs_push(logs: Seq<LogV>, l: LogV)
    ensures
        sessions_of_logs(logs.push(l)) == sessions_of_logs(logs) + sessions_of_content(
            l.content,
            l.session_id,
        ),
    decreases logs.len(),
{
    if logs.len() == 0 {
        assert(logs.push(l).drop_first() =~= Seq::<LogV>::empty());
        assert(sessions_of_logs(logs.push(l).drop_first()) =~= Seq::<SessionV>::empty());
        assert(sessions_of_logs(logs.push(l)) =~= sessions_of_content(l.content, l.session_id));
        assert(sessions_of_logs(logs) + sessions_of_content(l.content, l.session_id)
            =~= sessions_of_content(l.content, l.session_id));
    } else {
        lemma_sessions_of_logs_push(logs.drop_first(), l);
        assert(logs.push(l).drop_first() =~= logs.drop_first().push(l));
        assert(sessions_of_content(logs[0].content, logs[0].session_id) + (sessions_of_logs(
            logs.drop_first(),
        ) + sessions_of_content(l.content, l.session_id)) =~= (sessions_of_content(
            logs[0].content,
            logs[0].session_id,
        ) + sessions_of_logs(logs.drop_first())) + sessions_of_content(l.content, l.session_id));
    }
}

/// Sessions in newest-first order: every later element's timestamp is at or
/// before every earlier one's.
pub open spec fn sorted_desc(s: Seq<SessionV>) -> bool {
    forall|i: int, j: int| 0 <= i < j < s.len() ==> lex_le(s[j].timestamp, s[i].timestamp)
}

/// `x` placed into the newest-first list `s`, after every element whose
/// timestamp is at or after `x`'s.
pub open spec fn insert_desc(s: Seq<SessionV>, x: SessionV) -> Seq<SessionV>
    decreases s.len(),
{
    if s.len() == 0 {
        seq![x]
    } else if lex_le(x.timestamp, s[0].timestamp) {
        seq![s[0]] + insert_desc(s.drop_first(), x)
    } else {
        seq![x] + s
    }
}

/// The list sorted newest-first, elements inserted left to right; sessions
/// with equal timestamps keep their input order.
pub open spec fn sort_desc(s: Seq<SessionV>) -> Seq<SessionV>
    decreases s.len(),
{
    if s.len() == 0 {
        Seq::<SessionV>::empty()
    } else {
        insert_desc(sort_desc(s.drop_last()), s.last())
    }
}

/// Inserting keeps exactly the old elements plus the new one.
pub proof fn lemma_insert_desc_elems(s: Seq<SessionV>, x: SessionV)
    ensures
        insert_desc(s, x).len() == s.len() + 1,
        insert_desc(s, x).to_multiset() =~= s.to_multiset().insert(x),
    decreases s.len(),
{
    broadcast use vstd::multiset::group_multiset_axioms;

    if s.len() == 0 {
        assert(insert_desc(s, x) =~= s.insert(0, x));
        vstd::seq_lib::to_multiset_insert(s, 0, x);
    } else if lex_le(x.timestamp, s[0].timestamp) {
        lemma_insert_desc_elems(s.drop_first(), x);
        assert(insert_desc(s, x) =~= seq![s[0]] + insert_desc(s.drop_first(), x));
        lemma_session_multiset_cons(s[0], insert_desc(s.drop_first(), x));
        lemma_session_multiset_cons(s[0], s.drop_first());
        assert(s =~= seq![s[0]] + s.drop_first());
        assert(insert_desc(s, x).to_multiset() =~= s.drop_first().to_multiset().insert(x).insert(
            s[0],
        ));
        assert(s.drop_first().to_multiset().insert(x).insert(s[0])
            =~= s.drop_first().to_multiset().insert(s[0]).insert(x));
    } else {
        lemma_session_multiset_cons(x, s);
        assert(insert_desc(s, x) =~= seq![x] + s);
    }
}

/// Prepending one element adds it to the multiset of the rest.
proof fn lemma_session_multiset_cons(x: SessionV, s: Seq<SessionV>)
    ensures
        (seq![x] + s).to_multiset() =~= s.to_multiset().insert(x),
{
    assert(seq![x] + s =~= s.insert(0, x));
    vstd::seq_lib::to_multiset_insert(s, 0, x);
}

/// Inserting into a newest-first list keeps it newest-first.
pub proof fn lemma_insert_desc_sorted(s: Seq<SessionV>, x: SessionV)
    requires
        sorted_desc(s),
    ensures
        sorted_desc(insert_desc(s, x)),
    decreases s.len(),
{
    broadcast use vstd::seq_lib::group_to_multiset_ensures;

    if s.len() == 0 {
    } else if lex_le(x.timestamp, s[0].timestamp) {
        assert(sorted_desc(s.drop_first()));
        lemma_insert_desc_sorted(s.drop_first(), x);
        lemma_insert_desc_elems(s.drop_first(), x);
        let t = insert_desc(s.drop_first(), x);
        let r = seq![s[0]] + t;
        assert forall|i: int, j: int| 0 <= i < j < r.len() implies lex_le(
            r[j].timestamp,
            r[i].timestamp,
        ) by {
            if i == 0 {
                let e = t[j - 1];
                assert(t.to_multiset().contains(e)) by {
                    assert(t[j - 1] == e);
                }
                assert(s.drop_first().to_multiset().insert(x).contains(e));
                if e == x {
                    assert(lex_le(e.timestamp, s[0].timestamp));
                } else {
                    assert(s.drop_first().to_multiset().contains(e));
                    let k = choose|k: int|
                        0 <= k < s.drop_first().len() && s.drop_first()[k] == e;
                    assert(lex_le(s[k + 1].timestamp, s[0].timestamp));
                }
            } else {
                assert(lex_le(t[j - 1].timestamp, t[i - 1].timestamp));
            }
        }
    } else {
        lemma_lex_le_total(x.timestamp, s[0].timestamp);
        let r = seq![x] + s;
        assert forall|i: int, j: int| 0 <= i < j < r.len() implies lex_le(
            r[j].timestamp,
            r[i].timestamp,
        ) by {
            if i == 0 {
                if j == 1 {
                } else {
                    assert(lex_le(s[j - 1].timestamp, s[0].timestamp));
                    lemma_lex_le_trans(s[j - 1].timestamp, s[0].timestamp, x.timestamp);
                }
            } else {
                assert(lex_le(s[j - 1].timestamp, s[i - 1].timestamp));
            }
        }
    }
}

/// The sort returns a newest-first arrangement of exactly the input's
/// elements.
pub proof fn lemma_sort_desc_ensures(s: Seq<SessionV>)
    ensures
        sorted_desc(sort_desc(s)),
        sort_desc(s).len() == s.len(),
        sort_desc(s).to_multiset() =~= s.to_multiset(),
    decreases s.len(),
{
    broadcast use vstd::seq_lib::group_to_multiset_ensures;

    if s.len() == 0 {
    } else {
        lemma_sort_desc_ensures(s.drop_last());
        lemma_insert_desc_sorted(sort_desc(s.drop_last()), s.last());
        lemma_insert_desc_elems(sort_desc(s.drop_last()), s.last());
        assert(s =~= s.drop_last().push(s.last()));
        assert(s.drop_last().push(s.last()).to_multiset() =~= s.drop_last().to_multiset().insert(
            s.last(),
        ));
    }
}

/// Where the first `pos` elements are at or after `x` and the element at
/// `pos` (if any) is not, the insertion lands exactly at `pos`.
proof fn lemma_insert_desc_at(s: Seq<SessionV>, x: SessionV, pos: int)
    requires
        0 <= pos <= s.len(),
        forall|j: int| 0 <= j < pos ==> lex_le(x.timestamp, s[j].timestamp),
        pos < s.len() ==> !lex_le(x.timestamp, s[pos].timestamp),
    ensures
        insert_desc(s, x) =~= s.insert(pos, x),
    decreases pos,
{
    if s.len() == 0 {
        assert(insert_desc(s, x) =~= s.insert(0, x));
    } else if pos == 0 {
        assert(insert_desc(s, x) =~= seq![x] + s);
        assert(s.insert(0, x) =~= seq![x] + s);
    } else {
        assert(lex_le(x.timestamp, s[0].timestamp));
        lemma_insert_desc_at(s.drop_first(), x, pos - 1);
        assert(insert_desc(s, x) =~= seq![s[0]] + s.drop_first().insert(pos - 1, x));
        assert(s.insert(pos, x) =~= seq![s[0]] + s.drop_first().insert(pos - 1, x));
    }
}

/// `x` added to the newest-first list `v`, after every session whose
/// timestamp is at or after its own.
fn insert_session_desc(v: &mut Vec<PromptSession>, x: PromptSession)
    ensures
        final(v).deep_view() == insert_desc(old(v).deep_view(), x@),
{
    let mut i: usize = 0;
    while i < v.len() && str_le(x.timestamp.as_str(), v[i].timestamp.as_str())
        invariant
            i <= v@.len(),
            forall|j: int| 0 <= j < i ==> lex_le(x@.timestamp, v.deep_view()[j].timestamp),
        decreases v@.len() - i,
    {
        proof {
            assert(v.deep_view()[i as int].timestamp == v@[i as int].timestamp@);
        }
        i += 1;
    }
    proof {
        lemma_insert_desc_at(v.deep_view(), x@, i as int);
    }
    let ghost pre = v.deep_view();
    v.insert(i, x);
    proof {
        assert(v.deep_view() =~= pre.insert(i as int, x@));
    }
}

/// The sessions sorted newest-first by timestamp, as plain string
/// comparison; ties keep their order.
pub fn sort_sessions_desc(v: Vec<PromptSession>) -> (r: Vec<PromptSession>)
    ensures
        r.deep_view() == sort_desc(v.deep_view()),
        sorted_desc(r.deep_view()),
        r.deep_view().to_multiset() == v.deep_view().to_multiset(),
{
    let ghost all = v.deep_view();
    let mut v = v;
    let mut r: Vec<PromptSession> = Vec::new();
    let n = v.len();
    proof {
        assert(all.take(0) =~= Seq::<SessionV>::empty());
        assert(all.skip(0) =~= all);
        assert(r.deep_view() =~= sort_desc(all.take(0)));
    }
    let mut i: usize = 0;
    while i < n
        invariant
            i <= n,
            n == all.len(),
            v@.len() + i == n,
            v.deep_view() =~= all.skip(i as int),
            r.deep_view() == sort_desc(all.take(i as int)),
        decreases n - i,
    {
        let ghost prev = v.deep_view();
        let ghost prev_shallow = v@;
        let x = v.remove(0);
        proof {
            assert(prev[0] == prev_shallow[0].deep_view());
            assert(x == prev_shallow[0]);
            assert(x@ == prev[0]);
            assert(prev[0] == all[i as int]);
            assert(v.deep_view() =~= prev.remove(0));
            assert(prev.remove(0) =~= all.skip(i + 1 as int));
            assert(all.take(i + 1 as int).drop_last() =~= all.take(i as int));
            assert(all.take(i + 1 as int).last() == all[i as int]);
        }
        insert_session_desc(&mut r, x);
        i += 1;
    }
    proof {
        assert(all.take(n as int) =~= all);
        lemma_sort_desc_ensures(all);
    }
    r
}

/// The sessions of every given log file, scanned file by file, concatenated
/// in file order and sorted newest-first by timestamp. An unreadable
/// directory is the caller's "no data" case: it hands in no files and gets
/// no sessions.
pub fn parse_session_logs(files: &Vec<SessionLog>) -> (r: Vec<PromptSession>)
    ensures
        r.deep_view() == sort_desc(sessions_of_logs(files.deep_view())),
        sorted_desc(r.deep_view()),
        forall|k: int|
            0 <= k < r.deep_view().len() ==> crate::laws::wf_session_any(
                #[trigger] r.deep_view()[k],
            ),
{
    let mut all: Vec<PromptSession> = Vec::new();
    proof {
        assert(files.deep_view().take(0) =~= Seq::<LogV>::empty());
        assert(all.deep_view() =~= sessions_of_logs(files.deep_view().take(0)));
    }
    let mut i: usize = 0;
    while i < files.len()
        invariant
            i <= files@.len(),
            all.deep_view() == sessions_of_logs(files.deep_view().take(i as int)),
            forall|k: int|
                0 <= k < all.deep_view().len() ==> crate::laws::wf_session_any(
                    #[trigger] all.deep_view()[k],
                ),
        decreases files@.len() - i,
    {
        let mut sessions = parse_session_log(
            files[i].content.as_str(),
            files[i].session_id.as_str(),
        );
        let ghost before = all.deep_view();
        let ghost part = sessions.deep_view();
        all.append(&mut sessions);
        proof {
            assert(all.deep_view() =~= before + part);
            lemma_sessions_of_logs_push(
                files.deep_view().take(i as int),
                files.deep_view()[i as int],
            );
            assert(files.deep_view().take(i + 1 as int) =~= files.deep_view().take(i as int).push(
                files.deep_view()[i as int],
            ));
            assert(files.deep_view()[i as int].session_id == files@[i as int].session_id@);
            assert(files.deep_view()[i as int].content == files@[i as int].content@);
        }
        i += 1;
    }
    proof {
        assert(files.deep_view().take(files@.len() as int) =~= files.deep_view());
    }
    let ghost gathered = all.deep_view();
    let r = sort_sessions_desc(all);
    proof {
        broadcast use vstd::seq_lib::group_to_multiset_ensures;

        assert forall|k: int| 0 <= k < r.deep_view().len() implies crate::laws::wf_session_any(
            #[trigger] r.deep_view()[k],
        ) by {
            let e = r.deep_view()[k];
            assert(r.deep_view().contains(e));
            assert(r.deep_view().to_multiset().count(e) > 0);
            assert(gathered.to_multiset().count(e) > 0);
            assert(gathered.contains(e));
            let j = choose|j: int| 0 <= j < gathered.len() && gathered[j] == e;
            assert(crate::laws::wf_session_any(gathered[j]));
        }
    }
    r
}

} // verus!
