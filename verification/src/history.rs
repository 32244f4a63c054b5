//! Undo and redo.
//!
//! Snapshot-based: each edit records the document as it was before. The one
//! thing it is clever about is coalescing: consecutive edits carrying the same
//! key (a slider being dragged) collapse into a single undo step.

use vstd::prelude::*;

verus! {

/// One recorded state: the document, the label of the edit it precedes or
/// follows, and that edit's coalescing key.
pub struct Entry<D> {
    pub doc: D,
    pub label: String,
    pub coalesce: Option<String>,
}

/// An entry, with its strings as character sequences.
pub struct Snapshot<D> {
    pub doc: D,
    pub label: Seq<char>,
    pub coalesce: Option<Seq<char>>,
}

pub open spec fn key_view(k: Option<String>) -> Option<Seq<char>> {
    match k {
        Some(s) => Some(s@),
        None => None,
    }
}

pub open spec fn snap<D>(e: Entry<D>) -> Snapshot<D> {
    Snapshot { doc: e.doc, label: e.label@, coalesce: key_view(e.coalesce) }
}

/// What a history is: how many changes it has seen, the states before each
/// undoable edit (oldest first), the states undone (most recently undone
/// last), the current document, and how many undo steps are kept.
pub struct HistoryView<D> {
    pub revision: int,
    pub past: Seq<Snapshot<D>>,
    pub future: Seq<Snapshot<D>>,
    pub current: D,
    pub limit: int,
}

impl<D> HistoryView<D> {
    /// Whether an edit with this key folds into the last undo step: it has a
    /// key, and the last step was made with the same one.
    pub open spec fn merges(self, coalesce: Option<Seq<char>>) -> bool {
        &&& coalesce is Some
        &&& self.past.len() > 0
        &&& self.past.last().coalesce == coalesce
    }

    /// The history after an edit that produced `next`.
    pub open spec fn edited(self, label: Seq<char>, coalesce: Option<Seq<char>>, next: D) -> Self {
        let past = if self.merges(coalesce) {
            self.past
        } else {
            let p = self.past.push(Snapshot { doc: self.current, label, coalesce });
            if p.len() > self.limit {
                p.drop_first()
            } else {
                p
            }
        };
        HistoryView {
            revision: self.revision + 1,
            past,
            future: Seq::empty(),
            current: next,
            limit: self.limit,
        }
    }

    /// The history after an undo; unchanged when there is nothing to undo.
    pub open spec fn undone(self) -> Self {
        if self.past.len() == 0 {
            self
        } else {
            let e = self.past.last();
            HistoryView {
                revision: self.revision + 1,
                past: self.past.drop_last(),
                future: self.future.push(
                    Snapshot { doc: self.current, label: e.label, coalesce: e.coalesce },
                ),
                current: e.doc,
                limit: self.limit,
            }
        }
    }

    /// The history after a redo; unchanged when there is nothing to redo.
    pub open spec fn redone(self) -> Self {
        if self.future.len() == 0 {
            self
        } else {
            let e = self.future.last();
            HistoryView {
                revision: self.revision + 1,
                past: self.past.push(
                    Snapshot { doc: self.current, label: e.label, coalesce: e.coalesce },
                ),
                future: self.future.drop_last(),
                current: e.doc,
                limit: self.limit,
            }
        }
    }

    /// The history after the current coalescing run is ended.
    pub open spec fn run_ended(self) -> Self {
        if self.past.len() == 0 {
            self
        } else {
            let e = self.past.last();
            HistoryView {
                past: self.past.update(
                    self.past.len() - 1,
                    Snapshot { doc: e.doc, label: e.label, coalesce: None },
                ),
                ..self
            }
        }
    }
}

/// Undo/redo over snapshots of a document.
pub struct History<D> {
    revision: u64,
    past: Vec<Entry<D>>,
    future: Vec<Entry<D>>,
    current: D,
    limit: usize,
}

impl<D> History<D> {
    /// At least one undo step is always kept.
    #[verifier::type_invariant]
    spec fn keeps_a_step(self) -> bool {
        self.limit >= 1
    }
}

impl<D> View for History<D> {
    type V = HistoryView<D>;

    closed spec fn view(&self) -> HistoryView<D> {
        HistoryView {
            revision: self.revision as int,
            past: self.past@.map_values(|e: Entry<D>| snap(e)),
            future: self.future@.map_values(|e: Entry<D>| snap(e)),
            current: self.current,
            limit: self.limit as int,
        }
    }
}

fn same_key(a: &Option<String>, b: &Option<String>) -> (r: bool)
    ensures
        r == (key_view(*a) == key_view(*b)),
{
    match (a, b) {
        (Some(x), Some(y)) => crate::text::str_eq(x.as_str(), y.as_str()),
        (None, None) => true,
        _ => false,
    }
}

impl<D> History<D> {
    /// A history that starts at `doc`, keeping up to two hundred undo steps.
    pub fn new(doc: D) -> (h: Self)
        ensures
            h@ == (HistoryView {
                revision: 0,
                past: Seq::<Snapshot<D>>::empty(),
                future: Seq::<Snapshot<D>>::empty(),
                current: doc,
                limit: 200,
            }),
    {
        let h = History { revision: 0, past: Vec::new(), future: Vec::new(), current: doc, limit: 200 };
        assert(h@.past =~= Seq::<Snapshot<D>>::empty());
        assert(h@.future =~= Seq::<Snapshot<D>>::empty());
        h
    }

    /// The same history keeping up to `limit` undo steps, and at least one.
    pub fn with_limit(self, limit: usize) -> (h: Self)
        ensures
            h@ == (HistoryView { limit: if limit >= 1 { limit as int } else { 1 }, ..self@ }),
    {
        let mut h = self;
        h.limit = if limit >= 1 { limit } else { 1 };
        h
    }

    /// How many times the document has changed. Undo and redo count, because
    /// from the outside they are changes.
    pub fn revision(&self) -> (r: u64)
        ensures
            self@.limit >= 1,
            r == self@.revision,
    {
        proof {
            use_type_invariant(self);
        }
        self.revision
    }

    pub fn document(&self) -> (r: &D)
        ensures
            self@.limit >= 1,
            *r == self@.current,
    {
        proof {
            use_type_invariant(self);
        }
        &self.current
    }

    pub fn can_undo(&self) -> (r: bool)
        ensures
            self@.limit >= 1,
            r == (self@.past.len() > 0),
    {
        proof {
            use_type_invariant(self);
        }
        self.past.len() > 0
    }

    pub fn can_redo(&self) -> (r: bool)
        ensures
            self@.limit >= 1,
            r == (self@.future.len() > 0),
    {
        proof {
            use_type_invariant(self);
        }
        self.future.len() > 0
    }

    /// Label of the edit that [`History::undo`] would reverse.
    pub fn undo_label(&self) -> (r: Option<&str>)
        ensures
            self@.limit >= 1,
            match r {
                Some(s) => self@.past.len() > 0 && s@ == self@.past.last().label,
                None => self@.past.len() == 0,
            },
    {
        proof {
            use_type_invariant(self);
        }
        let n = self.past.len();
        if n == 0 {
            None
        } else {
            Some(self.past[n - 1].label.as_str())
        }
    }

    /// Label of the edit that [`History::redo`] would reapply.
    pub fn redo_label(&self) -> (r: Option<&str>)
        ensures
            self@.limit >= 1,
            match r {
                Some(s) => self@.future.len() > 0 && s@ == self@.future.last().label,
                None => self@.future.len() == 0,
            },
    {
        proof {
            use_type_invariant(self);
        }
        let n = self.future.len();
        if n == 0 {
            None
        } else {
            Some(self.future[n - 1].label.as_str())
        }
    }

    /// Apply an edit, recording the prior state.
    ///
    /// `f` computes the new document from the current one. Consecutive edits
    /// with the same `Some` key merge into one undo step; `None` never merges.
    /// Any edit discards the redo branch.
    pub fn edit<F: FnOnce(&D) -> D>(&mut self, label: &str, coalesce: Option<String>, f: F)
        requires
            old(self)@.revision < u64::MAX,
            f.requires((&old(self)@.current,)),
        ensures
            final(self)@.limit >= 1,
            final(self)@.past.len() > 0,
            exists|next: D|
                f.ensures((&old(self)@.current,), next) && final(self)@ == old(self)@.edited(
                    label@,
                    key_view(coalesce),
                    next,
                ),
    {
        proof {
            use_type_invariant(&*self);
        }
        let ghost before = self@;
        let n = self.past.len();
        let merges = match &coalesce {
            Some(_) => n > 0 && same_key(&self.past[n - 1].coalesce, &coalesce),
            None => false,
        };
        assert(merges == before.merges(key_view(coalesce)));
        let mut next = f(&self.current);
        let ghost produced = next;
        std::mem::swap(&mut self.current, &mut next);
        let mut past: Vec<Entry<D>> = Vec::new();
        std::mem::swap(&mut past, &mut self.past);
        if !merges {
            let entry = Entry { doc: next, label: label.to_owned(), coalesce };
            let ghost e = snap(entry);
            past.push(entry);
            assert(past@.map_values(|e: Entry<D>| snap(e)) =~= before.past.push(e));
            if past.len() > self.limit {
                past.remove(0);
                assert(past@.map_values(|e: Entry<D>| snap(e)) =~= before.past.push(e).drop_first());
            }
        }
        self.past = past;
        self.future = Vec::new();
        self.revision = self.revision + 1;
        assert(self@.future =~= Seq::<Snapshot<D>>::empty());
        assert(self@ == before.edited(label@, key_view(coalesce), produced));
    }

    /// Step back one edit. `false`, with nothing changed, when there is
    /// nothing to undo.
    pub fn undo(&mut self) -> (r: bool)
        requires
            old(self)@.past.len() > 0 ==> old(self)@.revision < u64::MAX,
        ensures
            r == (old(self)@.past.len() > 0),
            final(self)@ == old(self)@.undone(),
            final(self)@.limit >= 1,
    {
        proof {
            use_type_invariant(&*self);
        }
        let ghost before = self@;
        let mut past: Vec<Entry<D>> = Vec::new();
        std::mem::swap(&mut past, &mut self.past);
        match past.pop() {
            None => {
                self.past = past;
                assert(self@.past =~= before.past);
                false
            },
            Some(entry) => {
                let Entry { doc, label, coalesce } = entry;
                let mut restored = doc;
                std::mem::swap(&mut self.current, &mut restored);
                let mut future: Vec<Entry<D>> = Vec::new();
                std::mem::swap(&mut future, &mut self.future);
                future.push(Entry { doc: restored, label, coalesce });
                self.future = future;
                self.past = past;
                self.revision = self.revision + 1;
                assert(self@.past =~= before.past.drop_last());
                assert(self@.future =~= before.undone().future);
                true
            },
        }
    }

    /// Reapply the edit most recently undone. `false`, with nothing changed,
    /// when there is nothing to redo.
    pub fn redo(&mut self) -> (r: bool)
        requires
            old(self)@.future.len() > 0 ==> old(self)@.revision < u64::MAX,
        ensures
            r == (old(self)@.future.len() > 0),
            final(self)@ == old(self)@.redone(),
            final(self)@.limit >= 1,
    {
        proof {
            use_type_invariant(&*self);
        }
        let ghost before = self@;
        let mut future: Vec<Entry<D>> = Vec::new();
        std::mem::swap(&mut future, &mut self.future);
        match future.pop() {
            None => {
                self.future = future;
                assert(self@.future =~= before.future);
                false
            },
            Some(entry) => {
                let Entry { doc, label, coalesce } = entry;
                let mut restored = doc;
                std::mem::swap(&mut self.current, &mut restored);
                let mut past: Vec<Entry<D>> = Vec::new();
                std::mem::swap(&mut past, &mut self.past);
                past.push(Entry { doc: restored, label, coalesce });
                self.past = past;
                self.future = future;
                self.revision = self.revision + 1;
                assert(self@.future =~= before.future.drop_last());
                assert(self@.past =~= before.redone().past);
                true
            },
        }
    }

    /// End a coalescing run, so the next drag of the same control starts a
    /// fresh undo step.
    pub fn break_coalescing(&mut self)
        ensures
            final(self)@ == old(self)@.run_ended(),
            final(self)@.limit >= 1,
    {
        proof {
            use_type_invariant(&*self);
        }
        let ghost before = self@;
        let n = self.past.len();
        if n > 0 {
            let mut past: Vec<Entry<D>> = Vec::new();
            std::mem::swap(&mut past, &mut self.past);
            let mut last = past.pop().unwrap();
            last.coalesce = None;
            past.push(last);
            self.past = past;
            assert(self@.past =~= before.run_ended().past);
        }
    }
}

/// Redo reapplies what undo took back: an undo followed by a redo returns to
/// the same document and the same undo and redo branches, two revisions on.
pub proof fn lemma_redo_undoes_undo<D>(v: HistoryView<D>)
    requires
        v.past.len() > 0,
    ensures
        v.undone().redone() == (HistoryView { revision: v.revision + 2, ..v }),
{
    assert(v.undone().redone().past =~= v.past);
    assert(v.undone().redone().future =~= v.future);
}

/// Undo takes back what redo reapplied.
pub proof fn lemma_undo_undoes_redo<D>(v: HistoryView<D>)
    requires
        v.future.len() > 0,
    ensures
        v.redone().undone() == (HistoryView { revision: v.revision + 2, ..v }),
{
    assert(v.redone().undone().past =~= v.past);
    assert(v.redone().undone().future =~= v.future);
}

/// Undo restores the previous state: an edit that starts a new undo step,
/// undone, gives back the document as it was before the edit.
pub proof fn lemma_undo_restores_the_state_before_an_edit<D>(
    v: HistoryView<D>,
    label: Seq<char>,
    coalesce: Option<Seq<char>>,
    next: D,
)
    requires
        v.limit >= 1,
        !v.merges(coalesce),
    ensures
        v.edited(label, coalesce, next).undone().current == v.current,
        v.past.len() < v.limit ==> v.edited(label, coalesce, next).undone().past == v.past,
{
    let p = v.past.push(Snapshot { doc: v.current, label, coalesce });
    assert(p.len() > v.limit ==> p.drop_first().last() == p.last());
    if v.past.len() < v.limit {
        assert(p.drop_last() =~= v.past);
    }
}

/// A slider drag collapses into one undo step: a second edit with the same
/// key records nothing new, so undoing after two such edits returns to where
/// undoing after the first would have.
pub proof fn lemma_a_coalesced_run_is_one_undo_step<D>(
    v: HistoryView<D>,
    first: Seq<char>,
    second: Seq<char>,
    key: Seq<char>,
    a: D,
    b: D,
)
    requires
        v.limit >= 1,
    ensures
        v.edited(first, Some(key), a).edited(second, Some(key), b).past == v.edited(
            first,
            Some(key),
            a,
        ).past,
        v.edited(first, Some(key), a).edited(second, Some(key), b).undone().current == v.edited(
            first,
            Some(key),
            a,
        ).undone().current,
{
    let w = v.edited(first, Some(key), a);
    if !v.merges(Some(key)) {
        let p = v.past.push(Snapshot { doc: v.current, label: first, coalesce: Some(key) });
        assert(p.len() > v.limit ==> p.drop_first().last() == p.last());
        assert(w.merges(Some(key)));
    } else {
        assert(w.merges(Some(key)));
    }
}

/// Any new edit discards the redo branch.
pub proof fn lemma_an_edit_discards_the_redo_branch<D>(
    v: HistoryView<D>,
    label: Seq<char>,
    coalesce: Option<Seq<char>>,
    next: D,
)
    ensures
        v.edited(label, coalesce, next).future.len() == 0,
{
}

/// Ending a coalescing run makes the next edit a step of its own, whatever
/// its key.
pub proof fn lemma_ending_a_run_starts_a_new_step<D>(v: HistoryView<D>, key: Option<Seq<char>>)
    ensures
        !v.run_ended().merges(key),
{
}

/// The history is bounded: every undo step and every redo step together
/// never number more than the limit, across edits, undos, redos and ended runs.
pub proof fn lemma_history_is_bounded<D>(
    v: HistoryView<D>,
    label: Seq<char>,
    coalesce: Option<Seq<char>>,
    next: D,
)
    requires
        v.limit >= 1,
        v.past.len() + v.future.len() <= v.limit,
    ensures
        v.edited(label, coalesce, next).past.len() <= v.limit,
        v.undone().past.len() + v.undone().future.len() <= v.limit,
        v.redone().past.len() + v.redone().future.len() <= v.limit,
        v.run_ended().past.len() + v.run_ended().future.len() <= v.limit,
{
}

/// Every change moves the revision forward by one, and a refused undo or redo
/// leaves it where it was.
pub proof fn lemma_every_change_moves_the_revision<D>(
    v: HistoryView<D>,
    label: Seq<char>,
    coalesce: Option<Seq<char>>,
    next: D,
)
    ensures
        v.edited(label, coalesce, next).revision == v.revision + 1,
        v.undone().revision == if v.past.len() > 0 { v.revision + 1 } else { v.revision },
        v.redone().revision == if v.future.len() > 0 { v.revision + 1 } else { v.revision },
        v.run_ended().revision == v.revision,
{
}

/// The history after `k` edits made with no coalescing key, the `i`-th
/// labelled `labels(i)` and producing `docs(i)`.
pub open spec fn edited_times<D>(
    v: HistoryView<D>,
    k: nat,
    labels: spec_fn(int) -> Seq<char>,
    docs: spec_fn(int) -> D,
) -> HistoryView<D>
    decreases k,
{
    if k == 0 {
        v
    } else {
        edited_times(v, (k - 1) as nat, labels, docs).edited(labels(k - 1), None, docs(k - 1))
    }
}

/// The history after `m` undos, each refused one changing nothing.
pub open spec fn undone_times<D>(v: HistoryView<D>, m: nat) -> HistoryView<D>
    decreases m,
{
    if m == 0 {
        v
    } else {
        undone_times(v, (m - 1) as nat).undone()
    }
}

/// The smaller of two numbers.
pub open spec fn at_most(a: int, b: int) -> int {
    if a < b { a } else { b }
}

proof fn lemma_edits_fill_to_the_limit<D>(
    v: HistoryView<D>,
    k: nat,
    labels: spec_fn(int) -> Seq<char>,
    docs: spec_fn(int) -> D,
)
    requires
        v.limit >= 1,
        v.past.len() <= v.limit,
    ensures
        edited_times(v, k, labels, docs).past.len() == at_most(v.past.len() + k as int, v.limit),
        edited_times(v, k, labels, docs).limit == v.limit,
    decreases k,
{
    if k > 0 {
        lemma_edits_fill_to_the_limit(v, (k - 1) as nat, labels, docs);
    }
}

proof fn lemma_undos_take_one_step_each<D>(v: HistoryView<D>, m: nat)
    requires
        m <= v.past.len(),
    ensures
        undone_times(v, m).past.len() == v.past.len() - m,
    decreases m,
{
    if m > 0 {
        lemma_undos_take_one_step_each(v, (m - 1) as nat);
    }
}

/// A bounded history keeps no more undo steps than its limit: from a history
/// with nothing to undo, after `k` edits that do not coalesce, exactly the
/// smaller of `k` and the limit undos succeed one after another, and the next
/// is refused.
pub proof fn lemma_undos_after_edits<D>(
    v: HistoryView<D>,
    k: nat,
    labels: spec_fn(int) -> Seq<char>,
    docs: spec_fn(int) -> D,
)
    requires
        v.limit >= 1,
        v.past.len() == 0,
    ensures
        edited_times(v, k, labels, docs).past.len() == at_most(k as int, v.limit),
        forall|m: nat|
            m < at_most(k as int, v.limit) ==> #[trigger] undone_times(
                edited_times(v, k, labels, docs),
                m,
            ).past.len() > 0,
        undone_times(edited_times(v, k, labels, docs), at_most(k as int, v.limit) as nat).past.len()
            == 0,
{
    let w = edited_times(v, k, labels, docs);
    lemma_edits_fill_to_the_limit(v, k, labels, docs);
    assert forall|m: nat| m < at_most(k as int, v.limit) implies #[trigger] undone_times(w, m).past.len()
        > 0 by {
        lemma_undos_take_one_step_each(w, m);
    }
    lemma_undos_take_one_step_each(w, at_most(k as int, v.limit) as nat);
}

} // verus!
