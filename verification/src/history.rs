use vstd::prelude::*;
use crate::ident::{GestureID, StepID};
use crate::keyed::{
    distinct_keys, has_key, lemma_mapped_distinct, lemma_upsert_distinct, lemma_upsert_mapped,
    lookup, mapped, slot, upsert, KeyedList,
};

verus! {

/// Copies a sequence of bytes.
pub fn copy_bytes(bytes: &Vec<u8>) -> (copy: Vec<u8>)
    ensures
        copy@ == bytes@,
{
    let mut copy: Vec<u8> = Vec::new();
    let mut i: usize = 0;
    while i < bytes.len()
        invariant
            i <= bytes.len(),
            copy@.len() == i,
            forall|j: int| 0 <= j < i ==> copy@[j] == bytes@[j],
        decreases bytes.len() - i,
    {
        copy.push(bytes[i]);
        i = i + 1;
    }
    assert(copy@ =~= bytes@);
    copy
}

/// One gesture of the master plan in the form that a step gave it. The
/// gesture itself is carried as its encoded bytes.
#[derive(Clone, Debug, PartialEq, Eq)]
pub struct VersionedGesture {
    pub step: StepID,
    pub gesture: Vec<u8>,
}

/// What a versioned gesture holds.
pub struct VersionedGestureView {
    pub step: StepID,
    pub gesture: Seq<u8>,
}

impl View for VersionedGesture {
    type V = VersionedGestureView;

    open spec fn view(&self) -> VersionedGestureView {
        VersionedGestureView { step: self.step, gesture: self.gesture@ }
    }
}

impl VersionedGesture {
    /// A versioned gesture that holds what this one holds.
    pub fn duplicate(&self) -> (copy: VersionedGesture)
        ensures
            copy@ == self@,
    {
        VersionedGesture { step: self.step, gesture: copy_bytes(&self.gesture) }
    }
}

/// What a plan history holds: every gesture in its latest form, in the order
/// in which the gestures first arrived.
pub type HistoryView = Seq<(GestureID, VersionedGestureView)>;

/// What a mirror knows of a plan history: for each gesture, the step of the
/// form that it holds.
pub type KnownVersions = Seq<(GestureID, StepID)>;

/// The function that takes a versioned gesture to what it holds.
pub open spec fn gesture_view() -> spec_fn(VersionedGesture) -> VersionedGestureView {
    |g: VersionedGesture| g@
}

/// The function that takes a versioned gesture to its step.
pub open spec fn step_of() -> spec_fn(VersionedGestureView) -> StepID {
    |g: VersionedGestureView| g.step
}

/// The master plan: gestures are added to it and given new forms, and never
/// leave it.
#[derive(Debug, PartialEq, Eq)]
pub struct PlanHistory {
    pub gestures: KeyedList<GestureID, VersionedGesture>,
}

impl View for PlanHistory {
    type V = HistoryView;

    open spec fn view(&self) -> HistoryView {
        mapped(self.gestures.entries(), gesture_view())
    }
}

/// The state of the master plan that a mirror knows.
#[derive(Debug, PartialEq, Eq)]
pub struct PlanHistoryKnownState {
    pub known_gesture_versions: KeyedList<GestureID, StepID>,
}

impl View for PlanHistoryKnownState {
    type V = KnownVersions;

    open spec fn view(&self) -> KnownVersions {
        self.known_gesture_versions.entries()
    }
}

/// The gestures of the master plan that changed since a known state.
#[derive(Clone, Debug, PartialEq, Eq)]
pub struct PlanHistoryUpdate {
    pub changed_gestures: Vec<(GestureID, VersionedGesture)>,
}

impl View for PlanHistoryUpdate {
    type V = HistoryView;

    open spec fn view(&self) -> HistoryView {
        mapped(self.changed_gestures@, gesture_view())
    }
}

/// The known state that belongs to a history: each gesture with the step of
/// its latest form.
pub open spec fn known_versions_of(history: HistoryView) -> KnownVersions {
    mapped(history, step_of())
}

/// `history` with each gesture of `changed` stored in its new form, one after
/// the other.
pub open spec fn with_gestures(history: HistoryView, changed: HistoryView) -> HistoryView
    decreases changed.len(),
{
    if changed.len() == 0 {
        history
    } else {
        upsert(with_gestures(history, changed.drop_last()), changed.last().0, changed.last().1)
    }
}

/// Whether a mirror in the state `known` lacks the form `gesture` of the
/// gesture `id`.
pub open spec fn is_news(known: KnownVersions, id: GestureID, gesture: VersionedGestureView) -> bool {
    lookup(known, id) != Some(gesture.step)
}

/// The gestures of `history` whose form a mirror in the state `known` lacks,
/// in the order of `history`.
pub open spec fn changes_since(history: HistoryView, known: KnownVersions) -> HistoryView
    decreases history.len(),
{
    if history.len() == 0 {
        Seq::empty()
    } else {
        let before = changes_since(history.drop_last(), known);
        if is_news(known, history.last().0, history.last().1) {
            before.push(history.last())
        } else {
            before
        }
    }
}

impl PlanHistory {
    /// The master plan without gestures.
    pub fn new() -> (history: PlanHistory)
        ensures
            history@ == Seq::<(GestureID, VersionedGestureView)>::empty(),
    {
        let history = PlanHistory { gestures: KeyedList::new() };
        assert(history@ =~= Seq::<(GestureID, VersionedGestureView)>::empty());
        history
    }

    /// The state that this mirror knows, to be sent with a request for what
    /// changed since.
    pub fn as_known_state(&self) -> (known: PlanHistoryKnownState)
        ensures
            known@ == known_versions_of(self@),
    {
        let mut versions: KeyedList<GestureID, StepID> = KeyedList::new();
        let n = self.gestures.len();
        let mut i: usize = 0;
        while i < n
            invariant
                i <= n,
                n == self.gestures.entries().len(),
                distinct_keys(self.gestures.entries()),
                versions.entries().len() == i,
                forall|j: int|
                    0 <= j < i ==> #[trigger] versions.entries()[j] == (
                        self.gestures.entries()[j].0,
                        self.gestures.entries()[j].1.step,
                    ),
            decreases n - i,
        {
            let id = self.gestures.key_at(i);
            let step = self.gestures.value_at(i).step;
            proof {
                if has_key(versions.entries(), id) {
                    let j = slot(versions.entries(), id);
                    assert(versions.entries()[j].0 == id);
                    assert(self.gestures.entries()[j].0 != self.gestures.entries()[i as int].0);
                }
            }
            versions.insert(id, step);
            i = i + 1;
        }
        assert(versions.entries() =~= known_versions_of(self@));
        PlanHistoryKnownState { known_gesture_versions: versions }
    }

    /// Applies an update that was computed for the state that this mirror
    /// knows.
    pub fn apply_update(&mut self, update: &PlanHistoryUpdate)
        ensures
            final(self)@ == with_gestures(old(self)@, update@),
            distinct_keys(old(self)@),
            distinct_keys(final(self)@),
    {
        let ghost f = gesture_view();
        proof {
            use_type_invariant(&self.gestures);
            lemma_mapped_distinct(self.gestures.entries(), f);
        }
        let mut k: usize = 0;
        assert(update@.take(0) =~= Seq::empty());
        while k < update.changed_gestures.len()
            invariant
                k <= update.changed_gestures.len(),
                f == gesture_view(),
                distinct_keys(self.gestures.entries()),
                self@ == with_gestures(old(self)@, update@.take(k as int)),
            decreases update.changed_gestures.len() - k,
        {
            let id = update.changed_gestures[k].0;
            let copy = update.changed_gestures[k].1.duplicate();
            proof {
                lemma_upsert_mapped(self.gestures.entries(), id, copy, f);
            }
            self.gestures.insert(id, copy);
            k = k + 1;
            proof {
                let taken = update@.take(k as int);
                assert(taken.drop_last() =~= update@.take(k - 1));
                assert(taken.last() == (id, update.changed_gestures@[k - 1].1@));
            }
        }
        assert(update@.take(k as int) =~= update@);
        proof {
            lemma_mapped_distinct(self.gestures.entries(), f);
        }
    }

    /// The update that brings a mirror in the state `known` to this history.
    pub fn update_for(&self, known: &PlanHistoryKnownState) -> (update: PlanHistoryUpdate)
        ensures
            update@ == changes_since(self@, known@),
    {
        let mut changed: Vec<(GestureID, VersionedGesture)> = Vec::new();
        let n = self.gestures.len();
        let mut i: usize = 0;
        assert(self@.take(0) =~= Seq::empty());
        assert(mapped(changed@, gesture_view()) =~= Seq::empty());
        while i < n
            invariant
                i <= n,
                n == self@.len(),
                n == self.gestures.entries().len(),
                mapped(changed@, gesture_view()) == changes_since(self@.take(i as int), known@),
            decreases n - i,
        {
            let id = self.gestures.key_at(i);
            let gesture = self.gestures.value_at(i);
            let news = match known.known_gesture_versions.get(&id) {
                Some(step) => step.0 != gesture.step.0,
                None => true,
            };
            let ghost before = changed@;
            if news {
                changed.push((id, gesture.duplicate()));
                assert(mapped(changed@, gesture_view()) =~= mapped(before, gesture_view()).push(
                    (id, gesture@),
                ));
            }
            i = i + 1;
            proof {
                let taken = self@.take(i as int);
                assert(taken.drop_last() =~= self@.take(i - 1));
                assert(taken.last() == (id, gesture@));
                assert(news == is_news(known@, id, gesture@));
            }
        }
        assert(self@.take(i as int) =~= self@);
        PlanHistoryUpdate { changed_gestures: changed }
    }
}

/// The history that a sequence of edits leads to, starting from the history
/// without gestures. An edit gives a gesture a form.
pub open spec fn replayed(edits: HistoryView) -> HistoryView {
    with_gestures(Seq::empty(), edits)
}

/// The form that the last edit of the gesture `id` gives it, where an edit of
/// `id` is among `edits`.
pub open spec fn latest(edits: HistoryView, id: GestureID) -> Option<VersionedGestureView>
    decreases edits.len(),
{
    if edits.len() == 0 {
        None
    } else if edits.last().0 == id {
        Some(edits.last().1)
    } else {
        latest(edits.drop_last(), id)
    }
}

/// A step names one form of a gesture: two edits of one gesture under one
/// step give it the same form.
pub open spec fn steps_name_forms(edits: HistoryView) -> bool {
    forall|i: int, j: int|
        0 <= i < edits.len() && 0 <= j < edits.len() && (#[trigger] edits[i]).0 == (
        #[trigger] edits[j]).0 && edits[i].1.step == edits[j].1.step ==> edits[i].1 == edits[j].1
}

/// After gestures are stored, a gesture has the form that the last of them
/// gave it, and its earlier form where none of them is about it.
pub proof fn lemma_with_gestures_lookup(history: HistoryView, changed: HistoryView, id: GestureID)
    requires
        distinct_keys(history),
    ensures
        distinct_keys(with_gestures(history, changed)),
        lookup(with_gestures(history, changed), id) == match latest(changed, id) {
            Some(gesture) => Some(gesture),
            None => lookup(history, id),
        },
    decreases changed.len(),
{
    if changed.len() > 0 {
        let before = with_gestures(history, changed.drop_last());
        lemma_with_gestures_lookup(history, changed.drop_last(), id);
        lemma_upsert_distinct(before, changed.last().0, changed.last().1);
        if changed.last().0 != id {
            assert(lookup(upsert(before, changed.last().0, changed.last().1), id) == lookup(
                before,
                id,
            ));
        }
    }
}

/// The form that `latest` finds was given by one of the edits.
pub proof fn lemma_latest_is_an_edit(edits: HistoryView, id: GestureID) -> (i: int)
    requires
        latest(edits, id) is Some,
    ensures
        0 <= i < edits.len(),
        edits[i] == (id, latest(edits, id)->0),
    decreases edits.len(),
{
    if edits.last().0 == id {
        edits.len() - 1
    } else {
        let i = lemma_latest_is_an_edit(edits.drop_last(), id);
        assert(edits.drop_last()[i] == edits[i]);
        i
    }
}

/// A gesture that has a form after some edits has one after more edits.
pub proof fn lemma_latest_stays(edits: HistoryView, seen: int, now: int, id: GestureID)
    requires
        0 <= seen <= now <= edits.len(),
        latest(edits.take(seen), id) is Some,
    ensures
        latest(edits.take(now), id) is Some,
    decreases now - seen,
{
    if seen < now {
        lemma_latest_stays(edits, seen, now - 1, id);
        assert(edits.take(now).drop_last() =~= edits.take(now - 1));
    }
}

/// Among the gestures whose form a mirror lacks, a gesture of the history is
/// found with its form exactly where the mirror lacks that form.
pub proof fn lemma_changes_since_lookup(history: HistoryView, known: KnownVersions, id: GestureID)
    requires
        distinct_keys(history),
    ensures
        latest(changes_since(history, known), id) == match lookup(history, id) {
            Some(gesture) => if is_news(known, id, gesture) {
                Some(gesture)
            } else {
                None
            },
            None => None,
        },
    decreases history.len(),
{
    if history.len() > 0 {
        let rest = history.drop_last();
        let last = history.last();
        assert forall|a: int, b: int| 0 <= a < b < rest.len() implies (#[trigger] rest[a]).0 != (
        #[trigger] rest[b]).0 by {
            assert(history[a].0 != history[b].0);
        }
        lemma_changes_since_lookup(rest, known, id);
        crate::keyed::lemma_slot(history, last.0, history.len() - 1);
        if last.0 == id {
            if has_key(rest, id) {
                let j = slot(rest, id);
                assert(history[j].0 != history[history.len() - 1].0);
            }
            let before = changes_since(rest, known);
            if is_news(known, id, last.1) {
                assert(before.push(last).drop_last() =~= before);
            }
        } else {
            if has_key(history, id) {
                let j = slot(history, id);
                assert(rest[j].0 == id);
                crate::keyed::lemma_slot(rest, id, j);
            }
            if has_key(rest, id) {
                let j = slot(rest, id);
                assert(history[j].0 == id);
                crate::keyed::lemma_slot(history, id, j);
            }
            let before = changes_since(rest, known);
            if is_news(known, last.0, last.1) {
                assert(before.push(last).drop_last() =~= before);
            }
        }
    }
}

/// A mirror that has seen the first `seen` edits of the master plan, and
/// takes the update computed for its known state from the master plan after
/// the first `now` edits, holds for every gesture what replaying those `now`
/// edits from the start gives. This needs steps to name the forms of a
/// gesture.
pub proof fn law_delta_correct(edits: HistoryView, seen: int, now: int)
    requires
        0 <= seen <= now <= edits.len(),
        steps_name_forms(edits),
    ensures
        crate::keyed::to_map(
            with_gestures(
                replayed(edits.take(seen)),
                changes_since(
                    replayed(edits.take(now)),
                    known_versions_of(replayed(edits.take(seen))),
                ),
            ),
        ) == crate::keyed::to_map(replayed(edits.take(now))),
{
    let mirror = replayed(edits.take(seen));
    let authority = replayed(edits.take(now));
    let known = known_versions_of(mirror);
    let update = changes_since(authority, known);
    let after = with_gestures(mirror, update);
    let empty = Seq::<(GestureID, VersionedGestureView)>::empty();
    assert(distinct_keys(empty));
    lemma_with_gestures_lookup(empty, edits.take(seen), GestureID(0));
    lemma_with_gestures_lookup(empty, edits.take(now), GestureID(0));
    lemma_with_gestures_lookup(mirror, update, GestureID(0));
    lemma_mapped_distinct(mirror, step_of());
    assert forall|id: GestureID| lookup(after, id) == lookup(authority, id) by {
        lemma_with_gestures_lookup(empty, edits.take(seen), id);
        lemma_with_gestures_lookup(empty, edits.take(now), id);
        lemma_with_gestures_lookup(mirror, update, id);
        lemma_changes_since_lookup(authority, known, id);
        assert(lookup(empty, id) is None);
        if lookup(mirror, id) is Some {
            lemma_latest_stays(edits, seen, now, id);
            let a = lemma_latest_is_an_edit(edits.take(seen), id);
            let b = lemma_latest_is_an_edit(edits.take(now), id);
            assert(edits.take(seen)[a] == edits[a]);
            assert(edits.take(now)[b] == edits[b]);
            assert(has_key(known, id));
            assert(known[slot(known, id)].1 == mirror[slot(mirror, id)].1.step);
        } else {
            assert(!has_key(known, id));
        }
    }
    assert forall|id: GestureID| has_key(after, id) == has_key(authority, id) by {
        assert(lookup(after, id) == lookup(authority, id));
    }
    assert forall|id: GestureID| has_key(after, id) implies after[slot(after, id)].1
        == authority[slot(authority, id)].1 by {
        assert(lookup(after, id) == lookup(authority, id));
    }
    assert(crate::keyed::to_map(after) =~= crate::keyed::to_map(authority));
}

impl PlanHistoryUpdate {
    /// Whether nothing changed.
    pub fn is_empty(&self) -> (empty: bool)
        ensures
            empty == (self@.len() == 0),
    {
        self.changed_gestures.len() == 0
    }
}

} // verus!
