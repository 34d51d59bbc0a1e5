//! Building a normalized record out of one instrumentation event.
//!
//! A `Recorder` collects the named field values of a single event: the
//! reserved `message` field becomes the record's display name, every other
//! field becomes an `args` entry (keys unique, last write wins). The
//! `TraceRecord` is the fixed-shape result, ready to be rendered as one JSON
//! object.

use vstd::prelude::*;
use crate::json::{
    dec_str, encode_json_string, json_string, lemma_dec_str_single_line,
    lemma_json_string_single_line, lemma_single_line_concat, single_line, u64_to_dec,
};

verus! {

/// Whole microseconds in a duration of `secs` seconds plus `subsec_nanos`
/// nanoseconds, truncating sub-microsecond precision.
pub open spec fn micros_of(secs: u64, subsec_nanos: u32) -> int {
    secs * 1_000_000 + subsec_nanos / 1000
}

/// Converts a duration split into whole seconds and the nanosecond remainder
/// into whole microseconds.
pub fn in_micros(secs: u64, subsec_nanos: u32) -> (r: u64)
    requires
        micros_of(secs, subsec_nanos) <= u64::MAX,
    ensures
        r == micros_of(secs, subsec_nanos),
{
    1_000_000 * secs + (subsec_nanos / 1000) as u64
}

/// The views of an optional owned string.
pub open spec fn message_view(m: Option<String>) -> Option<Seq<char>> {
    match m {
        Some(s) => Some(s@),
        None => None,
    }
}

/// Whether some field pair carries the key `k`.
pub open spec fn has_key(fields: Seq<(String, String)>, k: Seq<char>) -> bool {
    exists|i: int| 0 <= i < fields.len() && fields[i].0@ == k
}

/// How one field write changes the collected pairs: if the key was absent the
/// pair is appended, otherwise the value of the one pair carrying the key is
/// replaced in place (last write wins).
pub open spec fn inserted(
    before: Seq<(String, String)>,
    after: Seq<(String, String)>,
    k: Seq<char>,
    v: Seq<char>,
) -> bool {
    if has_key(before, k) {
        &&& after.len() == before.len()
        &&& forall|i: int| 0 <= i < before.len() && before[i].0@ != k ==> after[i] == before[i]
        &&& forall|i: int|
            0 <= i < before.len() && before[i].0@ == k ==> after[i].0@ == k && after[i].1@ == v
    } else {
        &&& after.len() == before.len() + 1
        &&& forall|i: int| 0 <= i < before.len() ==> after[i] == before[i]
        &&& after.last().0@ == k
        &&& after.last().1@ == v
    }
}

/// Collects the named field values of one event.
pub struct Recorder {
    /// The value of the reserved `message` field, if it has been written.
    pub message: Option<String>,
    /// Every other field, keyed by its own name.
    pub fields: Vec<(String, String)>,
}

impl Recorder {
    /// Field keys are pairwise distinct and none of them is the reserved
    /// `message` key.
    pub open spec fn wf(&self) -> bool {
        &&& forall|i: int, j: int|
            0 <= i < j < self.fields@.len() ==> self.fields@[i].0@ != self.fields@[j].0@
        &&& forall|i: int| 0 <= i < self.fields@.len() ==> self.fields@[i].0@ != "message"@
    }

    /// A collector with no message and no fields.
    pub fn new() -> (r: Self)
        ensures
            r.message is None,
            r.fields@.len() == 0,
            r.wf(),
    {
        Recorder { message: None, fields: Vec::new() }
    }

    /// Records one string-valued field: the reserved `message` key sets the
    /// display name, any other key is stored (or overwritten) in the field
    /// pairs.
    pub fn record_str(&mut self, field_name: &str, value: &str)
        requires
            old(self).wf(),
        ensures
            final(self).wf(),
            field_name@ == "message"@ ==> message_view(final(self).message) == Some(value@)
                && final(self).fields == old(self).fields,
            field_name@ != "message"@ ==> final(self).message == old(self).message && inserted(
                old(self).fields@,
                final(self).fields@,
                field_name@,
                value@,
            ),
    {
        self.set_value(field_name, value.to_owned());
    }

    /// Records one field whose value has already been rendered in debug
    /// style by the caller; behaves as `record_str` on the rendered text.
    pub fn record_debug(&mut self, field_name: &str, rendered: String)
        requires
            old(self).wf(),
        ensures
            final(self).wf(),
            field_name@ == "message"@ ==> message_view(final(self).message) == Some(rendered@)
                && final(self).fields == old(self).fields,
            field_name@ != "message"@ ==> final(self).message == old(self).message && inserted(
                old(self).fields@,
                final(self).fields@,
                field_name@,
                rendered@,
            ),
    {
        self.set_value(field_name, rendered);
    }

    fn set_value(&mut self, field_name: &str, value: String)
        requires
            old(self).wf(),
        ensures
            final(self).wf(),
            field_name@ == "message"@ ==> message_view(final(self).message) == Some(value@)
                && final(self).fields == old(self).fields,
            field_name@ != "message"@ ==> final(self).message == old(self).message && inserted(
                old(self).fields@,
                final(self).fields@,
                field_name@,
                value@,
            ),
    {
        if str_eq(field_name, "message") {
            self.message = Some(value);
        } else {
            let key = field_name.to_owned();
            let mut i: usize = 0;
            let n = self.fields.len();
            while i < n
                invariant
                    n == self.fields@.len(),
                    i <= n,
                    *self == *old(self),
                    old(self).wf(),
                    key@ == field_name@,
                    field_name@ != "message"@,
                    forall|j: int| 0 <= j < i ==> self.fields@[j].0@ != field_name@,
                decreases n - i,
            {
                if str_eq(self.fields[i].0.as_str(), field_name) {
                    self.fields[i] = (key, value);
                    return ;
                }
                i = i + 1;
            }
            self.fields.push((key, value));
        }
    }
}

/// Compares two string slices character by character.
fn str_eq(a: &str, b: &str) -> (r: bool)
    ensures
        r == (a@ == b@),
{
    let alen = a.unicode_len();
    let blen = b.unicode_len();
    if alen != blen {
        return false;
    }
    let mut i: usize = 0;
    while i < alen
        invariant
            alen == a@.len(),
            blen == b@.len(),
            alen == blen,
            i <= alen,
            forall|j: int| 0 <= j < i ==> a@[j] == b@[j],
        decreases alen - i,
    {
        if a.get_char(i) != b.get_char(i) {
            return false;
        }
        i = i + 1;
    }
    proof {
        assert(a@ =~= b@);
    }
    true
}

/// One normalized event record, ready for serialization.
pub struct TraceRecord {
    /// Display name: the event's message, or the fixed placeholder.
    pub name: String,
    /// The instrumentation target string.
    pub cat: String,
    /// Whole microseconds since the recorder was created.
    pub ts: u64,
    /// Identifier of the producing OS process.
    pub pid: u64,
    /// Identifier of the producing OS thread.
    pub tid: u64,
    /// The remaining named fields, as collected.
    pub args: Vec<(String, String)>,
}

/// The JSON text of one `args` entry.
pub open spec fn pair_json(p: (String, String)) -> Seq<char> {
    json_string(p.0@) + ":"@ + json_string(p.1@)
}

/// The comma-separated JSON text of all `args` entries, in order.
pub open spec fn args_body(args: Seq<(String, String)>) -> Seq<char>
    decreases args.len(),
{
    if args.len() == 0 {
        Seq::empty()
    } else if args.len() == 1 {
        pair_json(args[0])
    } else {
        args_body(args.drop_last()) + ","@ + pair_json(args.last())
    }
}

/// The JSON object holding the `args` mapping.
pub open spec fn args_json(args: Seq<(String, String)>) -> Seq<char> {
    "{"@ + args_body(args) + "}"@
}

/// The one-line JSON object for a record: fixed keys, instantaneous phase
/// `"I"`, process scope `"p"`.
pub open spec fn record_json(r: TraceRecord) -> Seq<char> {
    "{\"name\":"@ + json_string(r.name@) + ",\"cat\":"@ + json_string(r.cat@)
        + ",\"ph\":\"I\",\"ts\":"@ + dec_str(r.ts as nat) + ",\"s\":\"p\",\"pid\":"@ + dec_str(
        r.pid as nat,
    ) + ",\"tid\":"@ + dec_str(r.tid as nat) + ",\"args\":"@ + args_json(r.args@) + "}"@
}

impl TraceRecord {
    /// Renders this record as its JSON object text.
    pub fn to_json_line(&self) -> (r: String)
        ensures
            r@ == record_json(*self),
    {
        let mut out = String::from_str("{\"name\":");
        let name = encode_json_string(self.name.as_str());
        out.append(name.as_str());
        out.append(",\"cat\":");
        let cat = encode_json_string(self.cat.as_str());
        out.append(cat.as_str());
        out.append(",\"ph\":\"I\",\"ts\":");
        let ts = u64_to_dec(self.ts);
        out.append(ts.as_str());
        out.append(",\"s\":\"p\",\"pid\":");
        let pid = u64_to_dec(self.pid);
        out.append(pid.as_str());
        out.append(",\"tid\":");
        let tid = u64_to_dec(self.tid);
        out.append(tid.as_str());
        out.append(",\"args\":");
        let args = self.args_to_json();
        out.append(args.as_str());
        out.append("}");
        proof {
            assert(out@ =~= record_json(*self));
        }
        out
    }

    fn args_to_json(&self) -> (r: String)
        ensures
            r@ == args_json(self.args@),
    {
        let mut out = String::from_str("{");
        let n = self.args.len();
        let mut i: usize = 0;
        while i < n
            invariant
                n == self.args@.len(),
                i <= n,
                out@ == "{"@ + args_body(self.args@.take(i as int)),
            decreases n - i,
        {
            if i > 0 {
                out.append(",");
            }
            let key = encode_json_string(self.args[i].0.as_str());
            out.append(key.as_str());
            out.append(":");
            let val = encode_json_string(self.args[i].1.as_str());
            out.append(val.as_str());
            proof {
                let taken = self.args@.take(i + 1 as int);
                assert(taken.drop_last() =~= self.args@.take(i as int));
                assert(taken.last() == self.args@[i as int]);
                assert(out@ =~= "{"@ + args_body(taken));
            }
            i = i + 1;
        }
        out.append("}");
        proof {
            assert(self.args@.take(n as int) =~= self.args@);
            assert(out@ =~= args_json(self.args@));
        }
        out
    }
}

proof fn lemma_pair_json_single_line(p: (String, String))
    ensures
        single_line(pair_json(p)),
{
    reveal_strlit(":");
    lemma_json_string_single_line(p.0@);
    lemma_json_string_single_line(p.1@);
    lemma_single_line_concat(json_string(p.0@), ":"@);
    lemma_single_line_concat(json_string(p.0@) + ":"@, json_string(p.1@));
}

proof fn lemma_args_body_single_line(args: Seq<(String, String)>)
    ensures
        single_line(args_body(args)),
    decreases args.len(),
{
    reveal_strlit(",");
    if args.len() == 0 {
    } else if args.len() == 1 {
        lemma_pair_json_single_line(args[0]);
    } else {
        lemma_args_body_single_line(args.drop_last());
        lemma_pair_json_single_line(args.last());
        lemma_single_line_concat(args_body(args.drop_last()), ","@);
        lemma_single_line_concat(args_body(args.drop_last()) + ","@, pair_json(args.last()));
    }
}

proof fn lemma_args_json_single_line(args: Seq<(String, String)>)
    ensures
        single_line(args_json(args)),
{
    reveal_strlit("{");
    reveal_strlit("}");
    lemma_args_body_single_line(args);
    lemma_single_line_concat("{"@, args_body(args));
    lemma_single_line_concat("{"@ + args_body(args), "}"@);
}

/// A record's JSON text holds no newline, so it occupies exactly one line of
/// the output file: the framing lines around it are the only line breaks.
pub proof fn lemma_record_json_single_line(r: TraceRecord)
    ensures
        single_line(record_json(r)),
{
    reveal_strlit("{\"name\":");
    reveal_strlit(",\"cat\":");
    reveal_strlit(",\"ph\":\"I\",\"ts\":");
    reveal_strlit(",\"s\":\"p\",\"pid\":");
    reveal_strlit(",\"tid\":");
    reveal_strlit(",\"args\":");
    reveal_strlit("}");
    lemma_json_string_single_line(r.name@);
    lemma_json_string_single_line(r.cat@);
    lemma_dec_str_single_line(r.ts as nat);
    lemma_dec_str_single_line(r.pid as nat);
    lemma_dec_str_single_line(r.tid as nat);
    lemma_args_json_single_line(r.args@);
    let t1 = "{\"name\":"@ + json_string(r.name@);
    lemma_single_line_concat("{\"name\":"@, json_string(r.name@));
    let t2 = t1 + ",\"cat\":"@;
    lemma_single_line_concat(t1, ",\"cat\":"@);
    let t3 = t2 + json_string(r.cat@);
    lemma_single_line_concat(t2, json_string(r.cat@));
    let t4 = t3 + ",\"ph\":\"I\",\"ts\":"@;
    lemma_single_line_concat(t3, ",\"ph\":\"I\",\"ts\":"@);
    let t5 = t4 + dec_str(r.ts as nat);
    lemma_single_line_concat(t4, dec_str(r.ts as nat));
    let t6 = t5 + ",\"s\":\"p\",\"pid\":"@;
    lemma_single_line_concat(t5, ",\"s\":\"p\",\"pid\":"@);
    let t7 = t6 + dec_str(r.pid as nat);
    lemma_single_line_concat(t6, dec_str(r.pid as nat));
    let t8 = t7 + ",\"tid\":"@;
    lemma_single_line_concat(t7, ",\"tid\":"@);
    let t9 = t8 + dec_str(r.tid as nat);
    lemma_single_line_concat(t8, dec_str(r.tid as nat));
    let t10 = t9 + ",\"args\":"@;
    lemma_single_line_concat(t9, ",\"args\":"@);
    let t11 = t10 + args_json(r.args@);
    lemma_single_line_concat(t10, args_json(r.args@));
    lemma_single_line_concat(t11, "}"@);
    assert(record_json(r) == t11 + "}"@);
}

/// A well-formed collector never holds a field named `message`: that value
/// goes to the record's display name, so no `args` entry of that name can
/// appear in the output.
pub proof fn lemma_no_message_in_args(rec: Recorder)
    requires
        rec.wf(),
    ensures
        !has_key(rec.fields@, "message"@),
{
}

/// The display name used when an event carries no `message` field.
pub open spec fn unknown_name() -> Seq<char> {
    "<unknown>"@
}

/// Builds the normalized record for one event from the collected fields and
/// the identifiers of its producer: the message becomes the display name
/// (with the fixed placeholder when absent), the remaining fields become the
/// `args` mapping.
pub fn build_record(rec: Recorder, cat: &str, ts: u64, pid: u64, tid: u64) -> (r: TraceRecord)
    ensures
        r.name@ == (match message_view(rec.message) {
            Some(m) => m,
            None => unknown_name(),
        }),
        r.cat@ == cat@,
        r.ts == ts,
        r.pid == pid,
        r.tid == tid,
        r.args == rec.fields,
{
    let Recorder { message, fields } = rec;
    let name = match message {
        Some(m) => m,
        None => String::from_str("<unknown>"),
    };
    TraceRecord { name, cat: cat.to_owned(), ts, pid, tid, args: fields }
}

} // verus!
