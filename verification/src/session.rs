use vstd::prelude::*;
use crate::assoc::{
    assoc_lookup, lemma_lookup_found, lemma_lookup_none, lemma_lookup_push, lemma_lookup_update,
};
use crate::commands::{spec_subscribe_cmd, spec_unsubscribe_cmd, subscribe_cmd, unsubscribe_cmd};
use crate::frame::{Kind, Record};
use vstd::string::StringExecFns;

verus! {

/// The sequence-number sentinel: no sequence observed yet, or recovering
/// after a detected gap.
pub const SENTINEL: u64 = 0;

/// Per-symbol "last accepted sequence number" table, owned by one session.
/// Absent symbols read as the sentinel.
pub struct SeqTable {
    entries: Vec<(String, u64)>,
}

impl SeqTable {
    pub closed spec fn entries_view(self) -> Seq<(Seq<char>, u64)> {
        self.entries@.map_values(|e: (String, u64)| (e.0@, e.1))
    }

    /// The tracked sequence number for a symbol; the sentinel if the
    /// symbol has never been tracked.
    pub closed spec fn spec_get(self, k: Seq<char>) -> u64 {
        match assoc_lookup(self.entries_view(), k) {
            None => SENTINEL,
            Some(v) => v,
        }
    }

    pub fn new() -> (t: SeqTable)
        ensures
            forall|k: Seq<char>| t.spec_get(k) == SENTINEL,
    {
        let t = SeqTable { entries: Vec::new() };
        proof {
            assert(t.entries_view() =~= Seq::<(Seq<char>, u64)>::empty());
        }
        t
    }

    /// Reads a symbol's tracked sequence number.
    pub fn get(&self, sym: &String) -> (v: u64)
        ensures
            v == self.spec_get(sym@),
    {
        let ghost view = self.entries_view();
        let mut i: usize = 0;
        while i < self.entries.len()
            invariant
                i <= self.entries.len(),
                view == self.entries_view(),
                view.len() == self.entries.len(),
                forall|j: int| 0 <= j < i ==> (#[trigger] view[j]).0 != sym@,
            decreases self.entries.len() - i,
        {
            if self.entries[i].0 == *sym {
                proof {
                    lemma_lookup_found(view, sym@, i as int);
                }
                return self.entries[i].1;
            }
            proof {
                assert(view[i as int] == (self.entries@[i as int].0@, self.entries@[i as int].1));
            }
            i += 1;
        }
        proof {
            lemma_lookup_none(view, sym@);
        }
        SENTINEL
    }

    /// Sets a symbol's tracked sequence number, creating the entry on
    /// first use. Every other symbol's entry is untouched.
    pub fn set(&mut self, sym: &String, v: u64)
        ensures
            final(self).spec_get(sym@) == v,
            forall|k: Seq<char>| k != sym@ ==> final(self).spec_get(k) == old(self).spec_get(k),
    {
        let ghost view = self.entries_view();
        let mut i: usize = 0;
        while i < self.entries.len()
            invariant
                i <= self.entries.len(),
                *self == *old(self),
                view == self.entries_view(),
                view.len() == self.entries.len(),
                forall|j: int| 0 <= j < i ==> (#[trigger] view[j]).0 != sym@,
            decreases self.entries.len() - i,
        {
            if self.entries[i].0 == *sym {
                self.entries[i].1 = v;
                proof {
                    assert(self.entries_view() =~= view.update(i as int, (sym@, v)));
                    lemma_lookup_update(view, i as int, (sym@, v), sym@);
                    assert forall|k: Seq<char>| k != sym@ implies self.spec_get(k) == old(
                        self,
                    ).spec_get(k) by {
                        lemma_lookup_update(view, i as int, (sym@, v), k);
                    }
                }
                return ;
            }
            proof {
                assert(view[i as int] == (self.entries@[i as int].0@, self.entries@[i as int].1));
            }
            i += 1;
        }
        self.entries.push((sym.clone(), v));
        proof {
            assert(self.entries_view() =~= view.push((sym@, v)));
            lemma_lookup_push(view, (sym@, v), sym@);
            assert forall|k: Seq<char>| k != sym@ implies self.spec_get(k) == old(
                self,
            ).spec_get(k) by {
                lemma_lookup_push(view, (sym@, v), k);
            }
        }
    }
}

/// What the session does with one decoded frame.
pub enum SessionAction {
    /// The frame has no resolvable symbol: discard it silently.
    Ignore,
    /// The frame passed every check that applies to it: hand it to the
    /// fan-in channel.
    Forward,
    /// A sequence gap was detected: discard the frame, send the two
    /// recovery commands scoped to the one affected symbol.
    Resync { unsubscribe: String, subscribe: String },
}

/// Whether `seq` is the successor of `last` in the sequence domain, with
/// the sentinel accepting any number as a new baseline.
pub open spec fn accepts(last: u64, seq: u64) -> bool {
    last == SENTINEL || seq == last + 1
}

/// The tracked value after one delta frame: the frame's number when it
/// is accepted, the sentinel after a detected gap.
pub open spec fn delta_step(last: u64, seq: u64) -> u64 {
    if accepts(last, seq) {
        seq
    } else {
        SENTINEL
    }
}

/// One session's sequence-integrity state: the per-symbol table of last
/// accepted sequence numbers, and (as a specification-only record) every
/// sequence number accepted so far, per symbol.
pub struct Session {
    table: SeqTable,
    accepted: Ghost<Map<Seq<char>, Seq<u64>>>,
}

impl Session {
    /// The sequence numbers accepted so far for a symbol, oldest first.
    pub closed spec fn accepted_of(self, sym: Seq<char>) -> Seq<u64> {
        if self.accepted@.contains_key(sym) {
            self.accepted@[sym]
        } else {
            Seq::empty()
        }
    }

    /// The tracked "last accepted" number for a symbol.
    pub closed spec fn last_of(self, sym: Seq<char>) -> u64 {
        self.table.spec_get(sym)
    }

    /// A warm symbol's tracked number is the most recently accepted one.
    pub open spec fn wf(self) -> bool {
        forall|sym: Seq<char>|
            #[trigger] self.last_of(sym) != SENTINEL ==> self.accepted_of(sym).len() > 0
                && self.accepted_of(sym).last() == self.last_of(sym)
    }

    pub fn new() -> (s: Session)
        ensures
            s.wf(),
            forall|sym: Seq<char>| s.last_of(sym) == SENTINEL,
            forall|sym: Seq<char>| s.accepted_of(sym) == Seq::<u64>::empty(),
    {
        Session { table: SeqTable::new(), accepted: Ghost(Map::empty()) }
    }

    /// Consumes one decoded frame: resolves its symbol, enforces
    /// sequence contiguity for delta frames, and says what the
    /// connection loop must do with it.
    ///
    /// A delta frame is accepted when the symbol's tracking is cold (the
    /// sentinel) or the frame's number is exactly the successor of the
    /// last accepted one; acceptance records the number and forwards the
    /// frame. Any other delta frame is a gap: the symbol's tracking is
    /// reset to the sentinel, the frame is discarded, and the returned
    /// commands unsubscribe and resubscribe exactly that symbol on the
    /// delta channel. Frames of any other kind are forwarded unchecked;
    /// frames with no symbol are dropped. Symbols other than the frame's
    /// own are never touched.
    pub fn handle_record(&mut self, rec: &Record) -> (a: SessionAction)
        ensures
            old(self).wf() ==> final(self).wf(),
            match a {
                SessionAction::Ignore => {
                    &&& rec@.market_ticker is None
                    &&& *final(self) == *old(self)
                },
                SessionAction::Forward => {
                    &&& rec@.market_ticker is Some
                    &&& if rec@.kind == Kind::Delta {
                        let sym = rec@.market_ticker->Some_0;
                        let seq = seq_or_sentinel(rec@.seq);
                        &&& accepts(old(self).last_of(sym), seq)
                        &&& final(self).last_of(sym) == seq
                        &&& final(self).last_of(sym) == delta_step(
                            old(self).last_of(sym),
                            seq,
                        )
                        &&& final(self).accepted_of(sym) == old(self).accepted_of(sym).push(seq)
                        &&& forall|k: Seq<char>| k != sym ==> final(self).last_of(k) == old(
                            self,
                        ).last_of(k) && final(self).accepted_of(k) == old(self).accepted_of(k)
                    } else {
                        *final(self) == *old(self)
                    }
                },
                SessionAction::Resync { unsubscribe, subscribe } => {
                    let sym = rec@.market_ticker->Some_0;
                    let seq = seq_or_sentinel(rec@.seq);
                    &&& rec@.market_ticker is Some
                    &&& rec@.kind == Kind::Delta
                    &&& !accepts(old(self).last_of(sym), seq)
                    &&& final(self).last_of(sym) == SENTINEL
                    &&& final(self).last_of(sym) == delta_step(old(self).last_of(sym), seq)
                    &&& final(self).accepted_of(sym) == old(self).accepted_of(sym)
                    &&& forall|k: Seq<char>| k != sym ==> final(self).last_of(k) == old(
                        self,
                    ).last_of(k) && final(self).accepted_of(k) == old(self).accepted_of(k)
                    &&& unsubscribe@ == spec_unsubscribe_cmd(10, seq![sym])
                    &&& subscribe@ == spec_subscribe_cmd(
                        11,
                        seq!["orderbook_delta"@],
                        seq![sym],
                    )
                },
            },
    {
        let sym = match &rec.market_ticker {
            None => {
                return SessionAction::Ignore;
            },
            Some(s) => s.clone(),
        };
        if !matches!(rec.kind, Kind::Delta) {
            return SessionAction::Forward;
        }
        let seq = match rec.seq {
            Some(q) => q,
            None => SENTINEL,
        };
        let last = self.table.get(&sym);
        if last != SENTINEL && !(last < u64::MAX && seq == last + 1) {
            // Sequence gap: reset this symbol and resubscribe it alone.
            self.table.set(&sym, SENTINEL);
            let mut one_symbol: Vec<String> = Vec::new();
            one_symbol.push(sym.clone());
            let mut delta_channel: Vec<String> = Vec::new();
            delta_channel.push(String::from_str("orderbook_delta"));
            let unsubscribe = unsubscribe_cmd(10, &one_symbol);
            let subscribe = subscribe_cmd(11, &delta_channel, &one_symbol);
            proof {
                assert(one_symbol.deep_view() =~= seq![sym@]);
                assert(delta_channel.deep_view() =~= seq!["orderbook_delta"@]);
                if old(self).wf() {
                    assert forall|k: Seq<char>| #[trigger] self.last_of(k) != SENTINEL implies self
                        .accepted_of(k).len() > 0 && self.accepted_of(k).last() == self.last_of(
                        k,
                    ) by {
                        assert(k != sym@);
                        assert(self.last_of(k) == old(self).last_of(k));
                    }
                }
            }
            SessionAction::Resync { unsubscribe, subscribe }
        } else {
            self.table.set(&sym, seq);
            proof {
                let ghost m = self.accepted@;
                self.accepted@ = m.insert(sym@, old(self).accepted_of(sym@).push(seq));
                assert(self.accepted_of(sym@) == old(self).accepted_of(sym@).push(seq));
                if old(self).wf() {
                    assert forall|k: Seq<char>| #[trigger] self.last_of(k) != SENTINEL implies self
                        .accepted_of(k).len() > 0 && self.accepted_of(k).last() == self.last_of(
                        k,
                    ) by {
                        if k == sym@ {
                            assert(self.last_of(k) == seq);
                        } else {
                            assert(self.last_of(k) == old(self).last_of(k));
                            assert(self.accepted_of(k) == old(self).accepted_of(k));
                        }
                    }
                }
            }
            SessionAction::Forward
        }
    }
}

/// A delta frame's sequence number; a missing one reads as the sentinel,
/// as on the wire.
pub open spec fn seq_or_sentinel(s: Option<u64>) -> u64 {
    match s {
        Some(q) => q,
        None => SENTINEL,
    }
}

/// The tracked value after a whole run of delta frames for one symbol,
/// starting cold: `delta_step` folded over the frames' numbers. This is
/// the per-symbol transition that `handle_record` makes, frame by frame.
pub open spec fn run_last(seqs: Seq<u64>) -> u64
    decreases seqs.len(),
{
    if seqs.len() == 0 {
        SENTINEL
    } else {
        delta_step(run_last(seqs.drop_last()), seqs.last())
    }
}

/// The numbers such a run accepts, in order: exactly those that arrive
/// against a cold state or as the successor of the tracked value.
pub open spec fn run_accepted(seqs: Seq<u64>) -> Seq<u64>
    decreases seqs.len(),
{
    if seqs.len() == 0 {
        Seq::empty()
    } else if accepts(run_last(seqs.drop_last()), seqs.last()) {
        run_accepted(seqs.drop_last()).push(seqs.last())
    } else {
        run_accepted(seqs.drop_last())
    }
}

/// Law: over every sequence of delta frames for one symbol, whenever the
/// tracked value is warm it equals the most recently accepted sequence
/// number; a number is only ever accepted against the sentinel (a fresh
/// baseline, as right after a reset) or as the successor of the tracked
/// value.
pub proof fn lemma_run_last_is_most_recent(seqs: Seq<u64>)
    ensures
        run_last(seqs) != SENTINEL ==> run_accepted(seqs).len() > 0 && run_last(seqs)
            == run_accepted(seqs).last(),
    decreases seqs.len(),
{
    if seqs.len() > 0 {
        lemma_run_last_is_most_recent(seqs.drop_last());
    }
}

/// Law: once a symbol's tracking is warm, the tracked number is exactly
/// the most recently accepted sequence number for that symbol.
pub proof fn lemma_last_is_most_recent_accepted(s: Session, sym: Seq<char>)
    requires
        s.wf(),
        s.last_of(sym) != SENTINEL,
    ensures
        s.accepted_of(sym).len() > 0,
        s.accepted_of(sym).last() == s.last_of(sym),
{
}

} // verus!
