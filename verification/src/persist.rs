use vstd::prelude::*;
use crate::assoc::{
    assoc_lookup, lemma_lookup_found, lemma_lookup_map, lemma_lookup_none, lemma_lookup_push,
    lemma_lookup_update,
};
use crate::frame::{Record, RecordV};
use vstd::string::StringExecFns;

verus! {

/// Where a message routes: its explicit top-level symbol when present,
/// else the nested delta/ticker symbol, else the catch-all file.
pub open spec fn spec_route(r: RecordV) -> Seq<char> {
    match r.ticker {
        Some(t) => t,
        None => match r.market_ticker {
            Some(t) => t,
            None => "unknown"@,
        },
    }
}

/// Resolves the symbol a record's line is appended under. A record with
/// no resolvable symbol routes to the catch-all file, it is not dropped.
pub fn route_symbol(rec: &Record) -> (s: String)
    ensures
        s@ == spec_route(rec@),
{
    match &rec.ticker {
        Some(t) => t.clone(),
        None => match &rec.market_ticker {
            Some(t) => t.clone(),
            None => String::from_str("unknown"),
        },
    }
}

/// One symbol's append-only log: the lines already flushed to the file,
/// and the lines buffered since the last flush.
pub struct SymbolLog {
    pub symbol: String,
    pub written: Vec<String>,
    pub pending: Vec<String>,
}

/// The lines of `h` that were routed to `sym`, in arrival order.
pub open spec fn lines_in_history(h: Seq<(Seq<char>, Seq<char>)>, sym: Seq<char>) -> Seq<
    Seq<char>,
> {
    h.filter(|p: (Seq<char>, Seq<char>)| p.0 == sym).map_values(
        |p: (Seq<char>, Seq<char>)| p.1,
    )
}

/// The persistence worker's writer table: one log per symbol, created on
/// first use, plus (as a specification-only record) the routed history
/// of every line ever appended.
pub struct Writers {
    files: Vec<SymbolLog>,
    appended: Ghost<Seq<(Seq<char>, Seq<char>)>>,
}

impl Writers {
    pub closed spec fn files_view(self) -> Seq<(Seq<char>, (Seq<Seq<char>>, Seq<Seq<char>>))> {
        self.files@.map_values(
            |f: SymbolLog| (f.symbol@, (f.written.deep_view(), f.pending.deep_view())),
        )
    }

    /// Every (symbol, line) pair appended so far, in arrival order.
    pub closed spec fn history(self) -> Seq<(Seq<char>, Seq<char>)> {
        self.appended@
    }

    pub open spec fn entry_of(self, sym: Seq<char>) -> Option<(Seq<Seq<char>>, Seq<Seq<char>>)> {
        assoc_lookup(self.files_view(), sym)
    }

    /// Whether a log file exists for `sym`.
    pub open spec fn has_file(self, sym: Seq<char>) -> bool {
        self.entry_of(sym) is Some
    }

    /// The lines of `sym`'s log that reached the file.
    pub open spec fn written_of(self, sym: Seq<char>) -> Seq<Seq<char>> {
        match self.entry_of(sym) {
            None => Seq::empty(),
            Some(e) => e.0,
        }
    }

    /// The lines of `sym`'s log still buffered in its writer.
    pub open spec fn pending_of(self, sym: Seq<char>) -> Seq<Seq<char>> {
        match self.entry_of(sym) {
            None => Seq::empty(),
            Some(e) => e.1,
        }
    }

    /// Everything appended under `sym`, flushed or not.
    pub open spec fn lines_of(self, sym: Seq<char>) -> Seq<Seq<char>> {
        self.written_of(sym) + self.pending_of(sym)
    }

    /// The writer table partitions its history: one file per symbol that
    /// received a line, holding exactly that symbol's lines in order.
    pub open spec fn wf(self) -> bool {
        &&& forall|i: int, j: int|
            0 <= i < j < self.files_view().len() ==> (#[trigger] self.files_view()[i]).0 != (
            #[trigger] self.files_view()[j]).0
        &&& forall|sym: Seq<char>|
            #[trigger] self.lines_of(sym) == lines_in_history(self.history(), sym)
        &&& forall|sym: Seq<char>|
            #[trigger] self.has_file(sym) <==> lines_in_history(self.history(), sym).len() > 0
    }

    pub fn new() -> (w: Writers)
        ensures
            w.wf(),
            w.history() == Seq::<(Seq<char>, Seq<char>)>::empty(),
    {
        let w = Writers { files: Vec::new(), appended: Ghost(Seq::empty()) };
        proof {
            assert(w.files_view() =~= Seq::<(Seq<char>, (Seq<Seq<char>>, Seq<Seq<char>>))>::empty());
            assert forall|sym: Seq<char>| #[trigger] w.lines_of(sym) == lines_in_history(
                w.history(),
                sym,
            ) by {
                assert(w.lines_of(sym) =~= Seq::<Seq<char>>::empty());
                assert(lines_in_history(w.history(), sym) =~= Seq::<Seq<char>>::empty());
            }
        }
        w
    }

    /// Appends one line under `sym`, creating that symbol's log on first
    /// use. No other symbol's log is touched.
    #[verifier::loop_isolation(false)]
    pub fn append_line(&mut self, sym: &String, line: &String)
        requires
            old(self).wf(),
        ensures
            final(self).wf(),
            final(self).history() == old(self).history().push((sym@, line@)),
            final(self).written_of(sym@) == old(self).written_of(sym@),
            final(self).pending_of(sym@) == old(self).pending_of(sym@).push(line@),
            forall|k: Seq<char>|
                k != sym@ ==> #[trigger] final(self).entry_of(k) == old(self).entry_of(k),
    {
        let ghost view = self.files_view();
        let ghost h = self.appended@;
        proof {
            self.appended@ = h.push((sym@, line@));
        }
        let mut i: usize = 0;
        while i < self.files.len()
            invariant
                i <= self.files.len(),
                self.files@ == old(self).files@,
                self.appended@ == h.push((sym@, line@)),
                view == self.files_view(),
                view.len() == self.files.len(),
                forall|j: int| 0 <= j < i ==> (#[trigger] view[j]).0 != sym@,
            decreases self.files.len() - i,
        {
            if self.files[i].symbol == *sym {
                self.files[i].pending.push(line.clone());
                proof {
                    let entry = (sym@, (view[i as int].1.0, view[i as int].1.1.push(line@)));
                    assert(self.files@[i as int].pending.deep_view() =~= view[i as int].1.1.push(
                        line@,
                    ));
                    assert(self.files_view() =~= view.update(i as int, entry));
                    self.lemma_after_append(*old(self), view, i as int, sym@, line@);
                }
                return ;
            }
            proof {
                assert(view[i as int].0 == self.files@[i as int].symbol@);
            }
            i += 1;
        }
        let mut pending: Vec<String> = Vec::new();
        pending.push(line.clone());
        self.files.push(SymbolLog { symbol: sym.clone(), written: Vec::new(), pending });
        proof {
            let entry = (sym@, (Seq::<Seq<char>>::empty(), seq![line@]));
            assert(self.files@.last().pending.deep_view() =~= seq![line@]);
            assert(self.files@.last().written.deep_view() =~= Seq::<Seq<char>>::empty());
            assert(self.files_view() =~= view.push(entry));
            lemma_lookup_none(view, sym@);
            lemma_lookup_push(view, entry, sym@);
            assert(self.entry_of(sym@) == Some(entry.1));
            assert(self.pending_of(sym@) =~= old(self).pending_of(sym@).push(line@));
            assert(self.written_of(sym@) =~= old(self).written_of(sym@));
            assert forall|k: Seq<char>| k != sym@ implies #[trigger] self.entry_of(k) == old(
                self,
            ).entry_of(k) by {
                lemma_lookup_push(view, entry, k);
            }
            self.lemma_wf_after_line(*old(self), sym@, line@);
        }
    }

    /// The two quantified `wf` clauses survive appending one line, given
    /// the lookup-level facts the mutation established.
    proof fn lemma_wf_after_line(self, prev: Writers, sym: Seq<char>, line: Seq<char>)
        requires
            prev.wf(),
            self.history() == prev.history().push((sym, line)),
            self.written_of(sym) == prev.written_of(sym),
            self.pending_of(sym) == prev.pending_of(sym).push(line),
            self.has_file(sym),
            forall|i: int, j: int|
                0 <= i < j < self.files_view().len() ==> (#[trigger] self.files_view()[i]).0 != (
                #[trigger] self.files_view()[j]).0,
            forall|k: Seq<char>| k != sym ==> #[trigger] self.entry_of(k) == prev.entry_of(k),
        ensures
            self.wf(),
    {
        assert forall|k: Seq<char>| #[trigger] self.lines_of(k) == lines_in_history(
            self.history(),
            k,
        ) by {
            lemma_lines_push(prev.history(), (sym, line), k);
            if k == sym {
                assert(self.lines_of(k) =~= prev.lines_of(k).push(line));
            } else {
                assert(self.lines_of(k) == prev.lines_of(k));
            }
        }
        assert forall|k: Seq<char>| #[trigger] self.has_file(k) <==> lines_in_history(
            self.history(),
            k,
        ).len() > 0 by {
            lemma_lines_push(prev.history(), (sym, line), k);
            if k == sym {
                assert(lines_in_history(self.history(), k).len() > 0);
            } else {
                assert(prev.has_file(k) <==> lines_in_history(prev.history(), k).len() > 0);
                assert(self.entry_of(k) == prev.entry_of(k));
            }
        }
    }

    /// Helper for the in-place branch of `append_line`.
    proof fn lemma_after_append(
        self,
        prev: Writers,
        view: Seq<(Seq<char>, (Seq<Seq<char>>, Seq<Seq<char>>))>,
        i: int,
        sym: Seq<char>,
        line: Seq<char>,
    )
        requires
            prev.wf(),
            view == prev.files_view(),
            0 <= i < view.len(),
            view[i].0 == sym,
            forall|j: int| 0 <= j < i ==> (#[trigger] view[j]).0 != sym,
            self.files_view() == view.update(i, (sym, (view[i].1.0, view[i].1.1.push(line)))),
            self.history() == prev.history().push((sym, line)),
        ensures
            self.wf(),
            self.written_of(sym) == prev.written_of(sym),
            self.pending_of(sym) == prev.pending_of(sym).push(line),
            forall|k: Seq<char>|
                k != sym ==> #[trigger] self.entry_of(k) == prev.entry_of(k),
    {
        let entry = (sym, (view[i].1.0, view[i].1.1.push(line)));
        lemma_lookup_found(view, sym, i);
        lemma_lookup_update(view, i, entry, sym);
        assert(self.entry_of(sym) == Some(entry.1));
        assert forall|k: Seq<char>| k != sym implies #[trigger] self.entry_of(k) == prev.entry_of(
            k,
        ) by {
            lemma_lookup_update(view, i, entry, k);
        }
        self.lemma_wf_after_line(prev, sym, line);
    }

    /// Flushes every open writer: all buffered lines move to the file,
    /// the drain-checkpoint policy and the final flush at termination.
    #[verifier::loop_isolation(false)]
    pub fn flush_all(&mut self)
        requires
            old(self).wf(),
        ensures
            final(self).wf(),
            final(self).history() == old(self).history(),
            forall|k: Seq<char>| #[trigger] final(self).pending_of(k) == Seq::<Seq<char>>::empty(),
            forall|k: Seq<char>|
                #[trigger] final(self).written_of(k) == old(self).written_of(k) + old(
                    self,
                ).pending_of(k),
            forall|k: Seq<char>| #[trigger] final(self).has_file(k) <==> old(self).has_file(k),
    {
        let ghost view = self.files_view();
        let ghost flush = |e: (Seq<Seq<char>>, Seq<Seq<char>>)| (e.0 + e.1, Seq::<Seq<char>>::empty());
        let mut i: usize = 0;
        while i < self.files.len()
            invariant
                i <= self.files.len(),
                self.appended@ == old(self).appended@,
                self.files@.len() == old(self).files@.len(),
                view == old(self).files_view(),
                view.len() == self.files.len(),
                forall|j: int|
                    i <= j < view.len() ==> #[trigger] self.files_view()[j] == view[j],
                forall|j: int|
                    0 <= j < i ==> #[trigger] self.files_view()[j] == (view[j].0, flush(view[j].1)),
            decreases self.files.len() - i,
        {
            let ghost fs = self.files@;
            let ghost pre = self.files_view();
            let mut f = self.files.remove(i);
            let ghost f0 = f;
            f.written.append(&mut f.pending);
            self.files.insert(i, f);
            proof {
                let fv = self.files@[i as int];
                assert(self.files@ =~= fs.update(i as int, fv));
                assert(pre[i as int] == view[i as int]);
                assert(pre[i as int] == (f0.symbol@, (f0.written.deep_view(), f0.pending.deep_view())));
                assert(fv.written@ == f0.written@ + f0.pending@);
                assert(fv.written.deep_view() =~= f0.written.deep_view() + f0.pending.deep_view());
                assert(fv.pending.deep_view() =~= Seq::<Seq<char>>::empty());
                assert(self.files_view()[i as int] == (view[i as int].0, flush(view[i as int].1)));
                assert forall|j: int| i + 1 <= j < view.len() implies #[trigger] self.files_view()[
                    j] == view[j] by {
                    assert(self.files@[j] == fs[j]);
                    assert(self.files_view()[j] == pre[j]);
                }
                assert forall|j: int| 0 <= j < i + 1 implies #[trigger] self.files_view()[j] == (
                    view[j].0,
                    flush(view[j].1),
                ) by {
                    if j < i {
                        assert(self.files@[j] == fs[j]);
                        assert(self.files_view()[j] == pre[j]);
                    }
                }
            }
            i += 1;
        }
        proof {
            assert(self.files_view() =~= view.map_values(
                |p: (Seq<char>, (Seq<Seq<char>>, Seq<Seq<char>>))| (p.0, flush(p.1)),
            ));
            assert forall|k: Seq<char>| #[trigger] self.pending_of(k) == Seq::<
                Seq<char>,
            >::empty() by {
                lemma_lookup_map(view, flush, k);
                assert(self.pending_of(k) =~= Seq::<Seq<char>>::empty());
            }
            assert forall|k: Seq<char>| #[trigger] self.written_of(k) == old(self).written_of(k)
                + old(self).pending_of(k) by {
                lemma_lookup_map(view, flush, k);
                match assoc_lookup(view, k) {
                    None => {
                        assert(self.written_of(k) =~= old(self).written_of(k) + old(
                            self,
                        ).pending_of(k));
                    },
                    Some(e) => {
                        assert(self.written_of(k) == e.0 + e.1);
                    },
                }
            }
            assert forall|k: Seq<char>| #[trigger] self.has_file(k) <==> old(self).has_file(
                k,
            ) by {
                lemma_lookup_map(view, flush, k);
            }
            assert forall|k: Seq<char>| #[trigger] self.lines_of(k) == lines_in_history(
                self.history(),
                k,
            ) by {
                assert(self.written_of(k) == old(self).written_of(k) + old(self).pending_of(k));
                assert(self.pending_of(k) == Seq::<Seq<char>>::empty());
                assert(self.lines_of(k) =~= old(self).lines_of(k));
                assert(old(self).lines_of(k) == lines_in_history(old(self).history(), k));
            }
            assert forall|k: Seq<char>| #[trigger] self.has_file(k) <==> lines_in_history(
                self.history(),
                k,
            ).len() > 0 by {
                assert(self.has_file(k) <==> old(self).has_file(k));
                assert(old(self).has_file(k) <==> lines_in_history(old(self).history(), k).len()
                    > 0);
            }
            assert forall|a: int, b: int|
                0 <= a < b < self.files_view().len() implies (#[trigger] self.files_view()[a]).0
                != (#[trigger] self.files_view()[b]).0 by {
                assert(self.files_view()[a] == (view[a].0, flush(view[a].1)));
                assert(self.files_view()[b] == (view[b].0, flush(view[b].1)));
                assert((view[a]).0 != (view[b]).0);
            }
        }
    }

    /// Consumes one message: routes it, appends its verbatim line under
    /// the routed symbol, and — at a drain checkpoint, when the fan-in
    /// channel was observed empty — flushes every writer.
    pub fn step(&mut self, rec: &Record, channel_empty: bool)
        requires
            old(self).wf(),
        ensures
            final(self).wf(),
            final(self).history() == old(self).history().push((spec_route(rec@), rec@.raw)),
            channel_empty ==> forall|k: Seq<char>|
                #[trigger] final(self).pending_of(k) == Seq::<Seq<char>>::empty(),
    {
        let sym = route_symbol(rec);
        self.append_line(&sym, &rec.raw);
        if channel_empty {
            self.flush_all();
        }
    }

    /// How many symbol logs exist.
    pub fn file_count(&self) -> (n: usize)
        ensures
            n == self.files_view().len(),
    {
        self.files.len()
    }

    /// The flushed lines of `sym`'s log, oldest first.
    #[verifier::loop_isolation(false)]
    pub fn written_lines(&self, sym: &String) -> (r: Vec<String>)
        ensures
            r.deep_view() == self.written_of(sym@),
    {
        let ghost view = self.files_view();
        let mut i: usize = 0;
        while i < self.files.len()
            invariant
                i <= self.files.len(),
                view == self.files_view(),
                view.len() == self.files.len(),
                forall|j: int| 0 <= j < i ==> (#[trigger] view[j]).0 != sym@,
            decreases self.files.len() - i,
        {
            if self.files[i].symbol == *sym {
                proof {
                    lemma_lookup_found(view, sym@, i as int);
                }
                return clone_lines(&self.files[i].written);
            }
            proof {
                assert(view[i as int].0 == self.files@[i as int].symbol@);
            }
            i += 1;
        }
        let empty: Vec<String> = Vec::new();
        proof {
            lemma_lookup_none(view, sym@);
            assert(empty.deep_view() =~= Seq::<Seq<char>>::empty());
        }
        empty
    }

    /// How many lines are buffered, unflushed, for `sym`.
    #[verifier::loop_isolation(false)]
    pub fn pending_count(&self, sym: &String) -> (n: usize)
        ensures
            n == self.pending_of(sym@).len(),
    {
        let ghost view = self.files_view();
        let mut i: usize = 0;
        while i < self.files.len()
            invariant
                i <= self.files.len(),
                view == self.files_view(),
                view.len() == self.files.len(),
                forall|j: int| 0 <= j < i ==> (#[trigger] view[j]).0 != sym@,
            decreases self.files.len() - i,
        {
            if self.files[i].symbol == *sym {
                proof {
                    lemma_lookup_found(view, sym@, i as int);
                }
                return self.files[i].pending.len();
            }
            proof {
                assert(view[i as int].0 == self.files@[i as int].symbol@);
            }
            i += 1;
        }
        proof {
            lemma_lookup_none(view, sym@);
        }
        0
    }
}

#[verifier::loop_isolation(false)]
fn clone_lines(v: &Vec<String>) -> (r: Vec<String>)
    ensures
        r.deep_view() == v.deep_view(),
{
    let mut r: Vec<String> = Vec::new();
    let mut i: usize = 0;
    while i < v.len()
        invariant
            i <= v.len(),
            r@.len() == i,
            forall|j: int| 0 <= j < i ==> #[trigger] r@[j]@ == v@[j]@,
        decreases v.len() - i,
    {
        r.push(v[i].clone());
        i += 1;
    }
    proof {
        assert forall|j: int| 0 <= j < v@.len() implies r.deep_view()[j] == v.deep_view()[j] by {
            assert(r.deep_view()[j] == r@[j]@);
            assert(v.deep_view()[j] == v@[j]@);
        }
        assert(r.deep_view() =~= v.deep_view());
    }
    r
}

/// Appending one routed line extends exactly its own symbol's line
/// sequence.
pub proof fn lemma_lines_push(
    h: Seq<(Seq<char>, Seq<char>)>,
    p: (Seq<char>, Seq<char>),
    sym: Seq<char>,
)
    ensures
        lines_in_history(h.push(p), sym) == if p.0 == sym {
            lines_in_history(h, sym).push(p.1)
        } else {
            lines_in_history(h, sym)
        },
{
    let pred = |q: (Seq<char>, Seq<char>)| q.0 == sym;
    let val = |q: (Seq<char>, Seq<char>)| q.1;
    assert(h.push(p).drop_last() =~= h);
    assert(h.push(p).last() == p);
    reveal(Seq::filter);
    if pred(p) {
        assert(h.push(p).filter(pred) == h.filter(pred).push(p));
        assert(h.push(p).filter(pred).map_values(val) =~= h.filter(pred).map_values(val).push(
            p.1,
        ));
    } else {
        assert(h.push(p).filter(pred) == h.filter(pred));
    }
}

/// Law: the writer table partitions messages by symbol — each symbol's
/// log holds exactly the lines routed to that symbol, in the order its
/// session sent them, whatever the interleaving across symbols; and a
/// log file exists exactly for the symbols that received a line.
pub proof fn lemma_file_per_symbol(w: Writers, sym: Seq<char>)
    requires
        w.wf(),
    ensures
        w.lines_of(sym) == lines_in_history(w.history(), sym),
        w.has_file(sym) <==> lines_in_history(w.history(), sym).len() > 0,
{
}

/// Law: once every producer is gone and the drained table is flushed,
/// nothing stays buffered — every line ever routed to a symbol stands in
/// that symbol's written file.
pub proof fn lemma_flush_leaves_nothing_buffered(w: Writers, sym: Seq<char>)
    requires
        w.wf(),
        w.pending_of(sym).len() == 0,
    ensures
        w.written_of(sym) == lines_in_history(w.history(), sym),
{
    assert(w.written_of(sym) =~= w.written_of(sym) + w.pending_of(sym));
    assert(w.lines_of(sym) == lines_in_history(w.history(), sym));
}

} // verus!
