//! The recorder front door and its optional wrapper.
//!
//! `ChromeTraceSubscriber` carries the state behind the capability set that
//! instrumentation call sites expect: a span-identifier counter advanced by a
//! fixed stride, and the process identifier stamped into every record. Only
//! event reporting produces anything; span lifecycle calls are accepted and
//! ignored. `MaybeChromeTraceSubscriber` holds zero or one of them and no-ops
//! every operation when absent.

use vstd::prelude::*;
use crate::record::{Recorder, build_record, message_view, unknown_name};
use crate::writer::Message;

verus! {

/// Relies on `thread_id::get`: an identifier of the calling OS thread,
/// unique among the threads alive in this process. Nothing is assumed about
/// its value.
#[verifier::external_body]
fn current_thread_id() -> u64 {
    thread_id::get() as u64
}

/// The distance between two consecutively allocated span identifiers.
pub open spec fn span_stride() -> u64 {
    10
}

/// The state behind the recorder front door.
pub struct ChromeTraceSubscriber {
    /// Identifier of the OS process, stamped into every record.
    pub pid: u64,
    /// The next span identifier to hand out.
    pub next_span: u64,
}

impl ChromeTraceSubscriber {
    /// A fresh subscriber for the process `pid`, with its span counter at
    /// zero.
    pub fn new(pid: u64) -> (s: Self)
        ensures
            s.pid == pid,
            s.next_span == 0,
    {
        ChromeTraceSubscriber { pid, next_span: 0 }
    }

    /// Every event is accepted, whatever its metadata says.
    pub fn enabled(&self) -> (r: bool)
        ensures
            r,
    {
        true
    }

    /// Allocates the next span identifier: the current counter value is
    /// returned and the counter advances by the fixed stride, so identifiers
    /// strictly increase and are never reused.
    pub fn new_span(&mut self) -> (id: u64)
        requires
            old(self).next_span <= u64::MAX - span_stride(),
        ensures
            id == old(self).next_span,
            final(self).next_span == old(self).next_span + span_stride(),
            final(self).pid == old(self).pid,
    {
        let id = self.next_span;
        self.next_span = self.next_span + 10;
        id
    }

    /// Span field recording is accepted and ignored.
    pub fn record(&self, _span: u64) {
    }

    /// Span ordering hints are accepted and ignored.
    pub fn record_follows_from(&self, _span: u64, _follows: u64) {
    }

    /// Builds the normalized record for one event and wraps it as the queue
    /// message to hand to the background writer. The thread identifier is
    /// whatever the OS reports for the calling thread; everything else is
    /// pinned.
    pub fn event(&self, cat: &str, rec: Recorder, ts_micros: u64) -> (m: Message)
        ensures
            m matches Message::Event(r) && r.name@ == (match message_view(rec.message) {
                Some(text) => text,
                None => unknown_name(),
            }) && r.cat@ == cat@ && r.ts == ts_micros && r.pid == self.pid && r.args == rec.fields,
    {
        let tid = current_thread_id();
        Message::Event(build_record(rec, cat, ts_micros, self.pid, tid))
    }

    /// Span entry is accepted and ignored.
    pub fn enter(&self, _span: u64) {
    }

    /// Span exit is accepted and ignored.
    pub fn exit(&self, _span: u64) {
    }
}

/// Span identifiers never repeat: in any run of allocations where each
/// identifier is the previous one advanced by the fixed stride — what
/// `new_span` ensures of consecutive calls — all identifiers are pairwise
/// distinct.
pub proof fn lemma_span_ids_distinct(ids: Seq<int>)
    requires
        forall|i: int| #![trigger ids[i]] 0 <= i < ids.len() - 1 ==> ids[i + 1] == ids[i]
            + span_stride(),
    ensures
        forall|i: int, j: int| 0 <= i < j < ids.len() ==> ids[i] != ids[j],
{
    assert forall|i: int, j: int| 0 <= i < j < ids.len() implies ids[i] != ids[j] by {
        lemma_span_chain(ids, i, j);
    }
}

proof fn lemma_span_chain(ids: Seq<int>, i: int, j: int)
    requires
        forall|k: int| #![trigger ids[k]] 0 <= k < ids.len() - 1 ==> ids[k + 1] == ids[k]
            + span_stride(),
        0 <= i < j < ids.len(),
    ensures
        ids[i] < ids[j],
    decreases j - i,
{
    assert(ids[i + 1] == ids[i] + span_stride());
    if i + 1 < j {
        lemma_span_chain(ids, i + 1, j);
    }
}

/// Zero or one subscriber: call sites need not branch on whether tracing is
/// enabled.
pub struct MaybeChromeTraceSubscriber(pub Option<ChromeTraceSubscriber>);

impl MaybeChromeTraceSubscriber {
    /// Events are accepted exactly when a subscriber is present.
    pub fn enabled(&self) -> (r: bool)
        ensures
            r == self.0 is Some,
    {
        match &self.0 {
            Some(s) => s.enabled(),
            None => false,
        }
    }

    /// Delegates span allocation when a subscriber is present; otherwise
    /// returns the fixed sentinel identifier zero and changes nothing.
    pub fn new_span(&mut self) -> (id: u64)
        requires
            old(self).0 matches Some(s) ==> s.next_span <= u64::MAX - span_stride(),
        ensures
            old(self).0 is None ==> id == 0 && final(self).0 is None,
            old(self).0 matches Some(s) ==> final(self).0 matches Some(t) && id == s.next_span
                && t.next_span == s.next_span + span_stride() && t.pid == s.pid,
    {
        match &mut self.0 {
            Some(s) => s.new_span(),
            None => 0,
        }
    }

    /// Accepted and ignored, with or without a subscriber.
    pub fn record(&self, _span: u64) {
    }

    /// Accepted and ignored, with or without a subscriber.
    pub fn record_follows_from(&self, _span: u64, _follows: u64) {
    }

    /// Delegates event reporting when a subscriber is present; otherwise
    /// produces no message at all, so nothing ever reaches a queue or a file.
    pub fn event(&self, cat: &str, rec: Recorder, ts_micros: u64) -> (m: Option<Message>)
        ensures
            self.0 is None ==> m is None,
            self.0 matches Some(s) ==> m matches Some(msg) && (msg matches Message::Event(r)
                && r.name@ == (match message_view(rec.message) {
                Some(text) => text,
                None => unknown_name(),
            }) && r.cat@ == cat@ && r.ts == ts_micros && r.pid == s.pid && r.args == rec.fields),
    {
        match &self.0 {
            Some(s) => Some(s.event(cat, rec, ts_micros)),
            None => None,
        }
    }

    /// Accepted and ignored, with or without a subscriber.
    pub fn enter(&self, _span: u64) {
    }

    /// Accepted and ignored, with or without a subscriber.
    pub fn exit(&self, _span: u64) {
    }
}

} // verus!
