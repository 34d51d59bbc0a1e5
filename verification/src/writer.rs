//! The background writer's framing state machine.
//!
//! The output file is a JSON array grown line by line: an opening `[` line,
//! then for each record its JSON object line followed by a line holding a
//! single comma, and a closing `]` line once the termination message is
//! observed. The state machine here decides what text each queue message
//! appends; the thread, the channel and the file handle that drive it live
//! outside the library and feed it one message at a time.

use vstd::prelude::*;
use crate::json::single_line;
use crate::record::{TraceRecord, lemma_record_json_single_line, record_json};

verus! {

/// One message on the queue between event producers and the writer.
pub enum Message {
    /// Termination: close the array and stop.
    Done,
    /// One normalized record to append.
    Event(TraceRecord),
}

/// The writer's output stream state: `Open` accepts records, `Closed` has
/// written the closing token and ignores everything.
#[derive(Clone, Copy, Debug, PartialEq, Eq, Structural)]
pub enum WriterState {
    Open,
    Closed,
}

/// The opening line of the array.
pub open spec fn open_text() -> Seq<char> {
    "[\n"@
}

/// The closing line of the array.
pub open spec fn close_text() -> Seq<char> {
    "]\n"@
}

/// What one record contributes to the file: its JSON object line, then a
/// line holding a single comma.
pub open spec fn entry_text(r: TraceRecord) -> Seq<char> {
    record_json(r) + "\n,\n"@
}

/// What the writer appends for one message in a given state.
pub open spec fn step_output(s: WriterState, m: Message) -> Seq<char> {
    match s {
        WriterState::Open => match m {
            Message::Event(r) => entry_text(r),
            Message::Done => close_text(),
        },
        WriterState::Closed => Seq::empty(),
    }
}

/// The writer's state after one message.
pub open spec fn step_state(s: WriterState, m: Message) -> WriterState {
    match s {
        WriterState::Open => match m {
            Message::Event(r) => WriterState::Open,
            Message::Done => WriterState::Closed,
        },
        WriterState::Closed => WriterState::Closed,
    }
}

/// Everything the writer appends over a whole message sequence, starting in
/// state `s`.
pub open spec fn run_output(s: WriterState, msgs: Seq<Message>) -> Seq<char>
    decreases msgs.len(),
{
    if msgs.len() == 0 {
        Seq::empty()
    } else {
        step_output(s, msgs[0]) + run_output(step_state(s, msgs[0]), msgs.drop_first())
    }
}

/// The writer's state after a whole message sequence, starting in state `s`.
pub open spec fn run_state(s: WriterState, msgs: Seq<Message>) -> WriterState
    decreases msgs.len(),
{
    if msgs.len() == 0 {
        s
    } else {
        run_state(step_state(s, msgs[0]), msgs.drop_first())
    }
}

/// Processing one more message appends that message's output for the state
/// reached so far.
pub proof fn lemma_run_push(s: WriterState, msgs: Seq<Message>, m: Message)
    ensures
        run_output(s, msgs.push(m)) == run_output(s, msgs) + step_output(run_state(s, msgs), m),
        run_state(s, msgs.push(m)) == step_state(run_state(s, msgs), m),
    decreases msgs.len(),
{
    if msgs.len() == 0 {
        assert(msgs.push(m).drop_first() =~= Seq::<Message>::empty());
        assert(msgs.push(m)[0] == m);
        assert(run_output(step_state(s, m), Seq::<Message>::empty()) == Seq::<char>::empty());
        assert(run_state(step_state(s, m), Seq::<Message>::empty()) == step_state(s, m));
        assert(run_output(s, msgs) == Seq::<char>::empty());
        assert(run_state(s, msgs) == s);
        assert(step_output(s, m) + Seq::<char>::empty() =~= step_output(s, m));
        assert(Seq::<char>::empty() + step_output(s, m) =~= step_output(s, m));
    } else {
        let s1 = step_state(s, msgs[0]);
        let rest = msgs.drop_first();
        assert(msgs.push(m).drop_first() =~= rest.push(m));
        assert(msgs.push(m)[0] == msgs[0]);
        lemma_run_push(s1, rest, m);
        let a = step_output(s, msgs[0]);
        let b = run_output(s1, rest);
        let c = step_output(run_state(s1, rest), m);
        assert(run_output(s, msgs.push(m)) == a + (b + c));
        assert(a + (b + c) =~= (a + b) + c);
        assert(run_output(s, msgs) == a + b);
        assert(run_state(s, msgs) == run_state(s1, rest));
        assert(run_state(s, msgs.push(m)) == run_state(s1, rest.push(m)));
    }
}

/// The text all records contribute, in order.
pub open spec fn entries_text(rs: Seq<TraceRecord>) -> Seq<char>
    decreases rs.len(),
{
    if rs.len() == 0 {
        Seq::empty()
    } else {
        entry_text(rs[0]) + entries_text(rs.drop_first())
    }
}

/// The whole file once fully drained and closed: the opening line, each
/// record's object line with its comma line, and the closing line.
pub open spec fn file_content(rs: Seq<TraceRecord>) -> Seq<char> {
    open_text() + entries_text(rs) + close_text()
}

/// Renders the opening line of the array, written before any message is
/// received.
pub fn array_open() -> (r: String)
    ensures
        r@ == open_text(),
{
    String::from_str("[\n")
}

/// Performs one step of the writer: the text to append to the file for this
/// message, and the state to carry to the next message.
pub fn writer_step(state: WriterState, msg: &Message) -> (res: (String, WriterState))
    ensures
        res.0@ == step_output(state, *msg),
        res.1 == step_state(state, *msg),
{
    match state {
        WriterState::Open => match msg {
            Message::Event(r) => {
                let mut line = r.to_json_line();
                line.append("\n,\n");
                (line, WriterState::Open)
            },
            Message::Done => (String::from_str("]\n"), WriterState::Closed),
        },
        WriterState::Closed => (String::new(), WriterState::Closed),
    }
}

/// Drains a whole message sequence: the opening line followed by everything
/// the state machine appends, message by message, starting in the open
/// state.
pub fn run_writer(msgs: &Vec<Message>) -> (out: String)
    ensures
        out@ == open_text() + run_output(WriterState::Open, msgs@),
{
    let mut out = array_open();
    let mut state = WriterState::Open;
    let n = msgs.len();
    let mut i: usize = 0;
    while i < n
        invariant
            n == msgs@.len(),
            i <= n,
            out@ == open_text() + run_output(WriterState::Open, msgs@.take(i as int)),
            state == run_state(WriterState::Open, msgs@.take(i as int)),
        decreases n - i,
    {
        let (text, next) = writer_step(state, &msgs[i]);
        out.append(text.as_str());
        state = next;
        proof {
            assert(msgs@.take(i + 1 as int) =~= msgs@.take(i as int).push(msgs@[i as int]));
            lemma_run_push(WriterState::Open, msgs@.take(i as int), msgs@[i as int]);
        }
        i = i + 1;
    }
    proof {
        assert(msgs@.take(n as int) =~= msgs@);
    }
    out
}

/// The message sequence a recorder produces: its recorded events, in order,
/// followed by the one termination message sent at disposal.
pub open spec fn session(rs: Seq<TraceRecord>) -> Seq<Message> {
    rs.map_values(|r: TraceRecord| Message::Event(r)).push(Message::Done)
}

/// Record count and order are preserved: draining the messages of a whole
/// recorder session yields exactly the framed file, with one comma-terminated
/// object per recorded event, in the order the events entered the queue, and
/// the writer ends closed.
pub proof fn lemma_session_file(rs: Seq<TraceRecord>)
    ensures
        run_output(WriterState::Open, session(rs)) == entries_text(rs) + close_text(),
        open_text() + run_output(WriterState::Open, session(rs)) == file_content(rs),
        run_state(WriterState::Open, session(rs)) == WriterState::Closed,
    decreases rs.len(),
{
    let msgs = session(rs);
    if rs.len() == 0 {
        assert(msgs =~= seq![Message::Done]);
        assert(msgs.drop_first() =~= Seq::<Message>::empty());
        assert(msgs[0] == Message::Done);
        assert(run_output(WriterState::Closed, Seq::<Message>::empty()) == Seq::<char>::empty());
        assert(run_state(WriterState::Closed, Seq::<Message>::empty()) == WriterState::Closed);
        assert(entries_text(rs) == Seq::<char>::empty());
        assert(close_text() + Seq::<char>::empty() =~= close_text());
        assert(Seq::<char>::empty() + close_text() =~= close_text());
    } else {
        lemma_session_file(rs.drop_first());
        assert(msgs[0] == Message::Event(rs[0]));
        assert(msgs.drop_first() =~= session(rs.drop_first()));
        let a = entry_text(rs[0]);
        let b = entries_text(rs.drop_first());
        let c = close_text();
        assert(run_output(WriterState::Open, msgs) == a + run_output(
            WriterState::Open,
            msgs.drop_first(),
        ));
        assert(run_output(WriterState::Open, msgs.drop_first()) == b + c);
        assert(a + (b + c) =~= (a + b) + c);
        assert(entries_text(rs) == a + b);
        assert(run_state(WriterState::Open, msgs) == run_state(
            WriterState::Open,
            msgs.drop_first(),
        ));
    }
    assert(open_text() + (entries_text(rs) + close_text()) =~= file_content(rs));
}

/// The lines a record sequence contributes to the file: for each record its
/// JSON object line, then a line holding a single comma.
pub open spec fn entry_lines(rs: Seq<TraceRecord>) -> Seq<Seq<char>>
    decreases rs.len(),
{
    if rs.len() == 0 {
        Seq::empty()
    } else {
        seq![record_json(rs[0]), ","@] + entry_lines(rs.drop_first())
    }
}

/// The lines of the finished file, in order: an opening bracket line, the
/// record and comma lines, and a closing bracket line.
pub open spec fn file_lines(rs: Seq<TraceRecord>) -> Seq<Seq<char>> {
    seq!["["@] + entry_lines(rs) + seq!["]"@]
}

/// Lines joined back into text, one newline after each line.
pub open spec fn join_lines(ls: Seq<Seq<char>>) -> Seq<char>
    decreases ls.len(),
{
    if ls.len() == 0 {
        Seq::empty()
    } else {
        ls[0] + "\n"@ + join_lines(ls.drop_first())
    }
}

proof fn lemma_join_lines_concat(a: Seq<Seq<char>>, b: Seq<Seq<char>>)
    ensures
        join_lines(a + b) == join_lines(a) + join_lines(b),
    decreases a.len(),
{
    if a.len() == 0 {
        assert(a + b =~= b);
        assert(Seq::<char>::empty() + join_lines(b) =~= join_lines(b));
    } else {
        assert((a + b)[0] == a[0]);
        assert((a + b).drop_first() =~= a.drop_first() + b);
        lemma_join_lines_concat(a.drop_first(), b);
        assert(a[0] + "\n"@ + (join_lines(a.drop_first()) + join_lines(b)) =~= (a[0] + "\n"@
            + join_lines(a.drop_first())) + join_lines(b));
    }
}

proof fn lemma_entries_text_joins(rs: Seq<TraceRecord>)
    ensures
        entries_text(rs) == join_lines(entry_lines(rs)),
    decreases rs.len(),
{
    reveal_strlit("\n,\n");
    reveal_strlit("\n");
    reveal_strlit(",");
    if rs.len() == 0 {
    } else {
        lemma_entries_text_joins(rs.drop_first());
        let pair = seq![record_json(rs[0]), ","@];
        lemma_join_lines_concat(pair, entry_lines(rs.drop_first()));
        assert(pair.drop_first() =~= seq![","@]);
        assert(seq![","@].drop_first() =~= Seq::<Seq<char>>::empty());
        assert(join_lines(Seq::<Seq<char>>::empty()) == Seq::<char>::empty());
        assert((","@ + "\n"@) + Seq::<char>::empty() =~= ","@ + "\n"@);
        assert(join_lines(seq![","@]) =~= ","@ + "\n"@);
        assert(join_lines(pair) =~= (record_json(rs[0]) + "\n"@) + (","@ + "\n"@));
        assert((record_json(rs[0]) + "\n"@) + (","@ + "\n"@) =~= record_json(rs[0]) + "\n,\n"@);
        assert(entries_text(rs) =~= join_lines(entry_lines(rs)));
    }
}

/// The finished file parses by lines: it is exactly the newline-joining of
/// an opening bracket line, for each record its JSON object line followed by
/// a comma line, and a closing bracket line — and none of those lines holds
/// a newline of its own, so the decomposition is unambiguous.
pub proof fn lemma_file_parses_by_lines(rs: Seq<TraceRecord>)
    ensures
        file_content(rs) == join_lines(file_lines(rs)),
        file_lines(rs).len() == 2 * rs.len() + 2,
        forall|i: int| 0 <= i < file_lines(rs).len() ==> single_line(#[trigger] file_lines(rs)[i]),
{
    reveal_strlit("[\n");
    reveal_strlit("]\n");
    reveal_strlit("[");
    reveal_strlit("]");
    reveal_strlit(",");
    reveal_strlit("\n");
    lemma_entries_text_joins(rs);
    lemma_join_lines_concat(seq!["["@], entry_lines(rs));
    lemma_join_lines_concat(seq!["["@] + entry_lines(rs), seq!["]"@]);
    assert(seq!["["@].drop_first() =~= Seq::<Seq<char>>::empty());
    assert(seq!["]"@].drop_first() =~= Seq::<Seq<char>>::empty());
    assert(join_lines(Seq::<Seq<char>>::empty()) == Seq::<char>::empty());
    assert(("["@ + "\n"@) + Seq::<char>::empty() =~= "[\n"@);
    assert(("]"@ + "\n"@) + Seq::<char>::empty() =~= "]\n"@);
    assert(join_lines(seq!["["@]) =~= "[\n"@);
    assert(join_lines(seq!["]"@]) =~= "]\n"@);
    assert(file_content(rs) =~= join_lines(file_lines(rs)));
    lemma_entry_lines_shape(rs);
    assert forall|i: int| 0 <= i < file_lines(rs).len() implies single_line(
        #[trigger] file_lines(rs)[i],
    ) by {
        if i == 0 {
            assert(file_lines(rs)[i] == "["@);
        } else if i == file_lines(rs).len() - 1 {
            assert(file_lines(rs)[i] == "]"@);
        } else {
            assert(file_lines(rs)[i] == entry_lines(rs)[i - 1]);
        }
    }
}

proof fn lemma_entry_lines_shape(rs: Seq<TraceRecord>)
    ensures
        entry_lines(rs).len() == 2 * rs.len(),
        forall|i: int|
            0 <= i < entry_lines(rs).len() ==> single_line(#[trigger] entry_lines(rs)[i]),
    decreases rs.len(),
{
    reveal_strlit(",");
    if rs.len() == 0 {
    } else {
        lemma_entry_lines_shape(rs.drop_first());
        lemma_record_json_single_line(rs[0]);
        assert forall|i: int| 0 <= i < entry_lines(rs).len() implies single_line(
            #[trigger] entry_lines(rs)[i],
        ) by {
            if i >= 2 {
                assert(entry_lines(rs)[i] == entry_lines(rs.drop_first())[i - 2]);
            }
        }
    }
}

/// A recorder disposed of without any recorded event still yields a valid
/// file: exactly the opening line followed by the closing line.
pub proof fn lemma_empty_file()
    ensures
        file_content(Seq::empty()) == "[\n]\n"@,
{
    reveal_strlit("[\n");
    reveal_strlit("]\n");
    reveal_strlit("[\n]\n");
    assert(file_content(Seq::empty()) =~= "[\n]\n"@);
}

} // verus!
