use vstd::prelude::*;
use std::collections::VecDeque;

verus! {

/// How many events the log keeps.
pub const MAX_EVENTS: usize = 200;

/// The last `n` elements of `s`, or all of them when there are fewer.
pub open spec fn keep_last(s: Seq<String>, n: nat) -> Seq<String> {
    if s.len() <= n {
        s
    } else {
        s.subrange(s.len() - n, s.len() as int)
    }
}

/// The `k` newest elements of `s`, newest first.
pub open spec fn newest_first(s: Seq<String>, k: nat) -> Seq<String> {
    Seq::new(k, |i: int| s[s.len() - 1 - i])
}

/// What `list_recent(limit)` returns on a log holding `s`.
pub open spec fn recent(s: Seq<String>, limit: nat) -> Seq<String> {
    newest_first(s, if limit < s.len() { limit } else { s.len() })
}

/// The log after appending each of `events` in turn, starting from `s`.
pub open spec fn emit_all(s: Seq<String>, events: Seq<String>) -> Seq<String>
    decreases events.len(),
{
    if events.len() == 0 {
        s
    } else {
        emit_all(keep_last(s.push(events[0]), MAX_EVENTS as nat), events.drop_first())
    }
}

/// A bounded audit buffer: appending to a full log first evicts its oldest
/// event.
pub struct EventLog {
    events: VecDeque<String>,
}

impl View for EventLog {
    type V = Seq<String>;

    closed spec fn view(&self) -> Seq<String> {
        self.events@
    }
}

impl EventLog {
    pub open spec fn wf(&self) -> bool {
        self@.len() <= MAX_EVENTS
    }

    pub fn new() -> (r: EventLog)
        ensures
            r.wf(),
            r@ == Seq::<String>::empty(),
    {
        EventLog { events: VecDeque::new() }
    }

    pub fn len(&self) -> (r: usize)
        ensures
            r == self@.len(),
    {
        self.events.len()
    }

    /// Appends `event` at the tail, evicting the oldest event if the log is
    /// full.
    pub fn emit(&mut self, event: String)
        requires
            old(self).wf(),
        ensures
            final(self).wf(),
            final(self)@ == keep_last(old(self)@.push(event), MAX_EVENTS as nat),
    {
        if self.events.len() >= MAX_EVENTS {
            let _ = self.events.pop_front();
        }
        self.events.push_back(event);
        assert(self@ =~= keep_last(old(self)@.push(event), MAX_EVENTS as nat));
    }

    /// Up to `limit` of the most recent events, newest first.
    pub fn list_recent(&self, limit: u64) -> (r: Vec<String>)
        ensures
            r@ == recent(self@, limit as nat),
    {
        let n = self.events.len();
        let take: usize = if (limit as u128) < (n as u128) { limit as usize } else { n };
        let mut out: Vec<String> = Vec::new();
        let mut i: usize = 0;
        while i < take
            invariant
                take <= n,
                n == self@.len(),
                0 <= i <= take,
                out@ =~= newest_first(self@, i as nat),
            decreases take - i,
        {
            out.push(self.events[n - 1 - i].clone());
            i = i + 1;
        }
        out
    }
}

/// Appending events one by one to a log that is within capacity leaves exactly
/// the last `MAX_EVENTS` of everything appended so far, oldest evicted first.
pub proof fn lemma_emit_all_keeps_last(s: Seq<String>, events: Seq<String>)
    requires
        s.len() <= MAX_EVENTS,
    ensures
        emit_all(s, events) == keep_last(s + events, MAX_EVENTS as nat),
    decreases events.len(),
{
    if events.len() == 0 {
        assert(s + events =~= s);
    } else {
        let s1 = keep_last(s.push(events[0]), MAX_EVENTS as nat);
        lemma_emit_all_keeps_last(s1, events.drop_first());
        let all = s + events;
        let all1 = s1 + events.drop_first();
        assert(s.push(events[0]) + events.drop_first() =~= all);
        assert(keep_last(all1, MAX_EVENTS as nat) =~= keep_last(all, MAX_EVENTS as nat));
    }
}

/// Asking for no events gives none; asking for more than the log holds gives
/// every event, newest first.
pub proof fn lemma_recent_edges(s: Seq<String>, limit: nat)
    ensures
        recent(s, 0) == Seq::<String>::empty(),
        limit >= s.len() ==> recent(s, limit).len() == s.len(),
        limit >= s.len() ==> forall|i: int|
            0 <= i < s.len() ==> #[trigger] recent(s, limit)[i] == s[s.len() - 1 - i],
{
    assert(recent(s, 0) =~= Seq::<String>::empty());
}

} // verus!
