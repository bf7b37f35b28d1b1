use vstd::prelude::*;
use crate::ident::PrototypeID;
use crate::keyed::{
    distinct_keys, has_key, lemma_mapped_distinct, lemma_upsert_distinct, lemma_upsert_mapped,
    lemma_without_distinct, lemma_without_mapped, lookup, mapped, slot, upsert, without,
    KeyedList,
};
use crate::prototype::{Prototype, PrototypeView};

verus! {

/// What a plan result holds: its prototypes under their identifiers, in the
/// order in which the identifiers first arrived.
pub type ResultView = Seq<(PrototypeID, PrototypeView)>;

/// The function that takes a prototype to what it holds.
pub open spec fn prototype_view() -> spec_fn(Prototype) -> PrototypeView {
    |p: Prototype| p@
}

/// What a proposal would come to if it were carried out: the prototypes that
/// it would place.
#[derive(Debug, PartialEq, Eq)]
pub struct PlanResult {
    pub prototypes: KeyedList<PrototypeID, Prototype>,
}

impl View for PlanResult {
    type V = ResultView;

    open spec fn view(&self) -> ResultView {
        mapped(self.prototypes.entries(), prototype_view())
    }
}

/// What changed in a plan result since a known state of it.
#[derive(Clone, Debug, PartialEq, Eq)]
pub struct PlanResultUpdate {
    /// The prototypes that the known state lacks.
    pub new_prototypes: Vec<Prototype>,
    /// The identifiers whose prototypes are gone.
    pub removed_prototypes: Vec<PrototypeID>,
}

/// What an update of a plan result holds.
pub struct PlanResultUpdateView {
    pub new_prototypes: Seq<PrototypeView>,
    pub removed_prototypes: Seq<PrototypeID>,
}

impl View for PlanResultUpdate {
    type V = PlanResultUpdateView;

    open spec fn view(&self) -> PlanResultUpdateView {
        PlanResultUpdateView {
            new_prototypes: self.new_prototypes@.map_values(|p: Prototype| p@),
            removed_prototypes: self.removed_prototypes@,
        }
    }
}

/// The state of a plan result that a mirror knows: the identifiers of the
/// prototypes that it holds.
#[derive(Clone, Debug, PartialEq, Eq)]
pub struct PlanResultKnownState {
    pub known_prototypes: Vec<PrototypeID>,
}

impl View for PlanResultKnownState {
    type V = Seq<PrototypeID>;

    open spec fn view(&self) -> Seq<PrototypeID> {
        self.known_prototypes@
    }
}

/// The identifiers of a plan result, in order.
pub open spec fn known_state_of(result: ResultView) -> Seq<PrototypeID> {
    result.map_values(|e: (PrototypeID, PrototypeView)| e.0)
}

/// `result` without the prototypes named by `removed`.
pub open spec fn without_all(result: ResultView, removed: Seq<PrototypeID>) -> ResultView
    decreases removed.len(),
{
    if removed.len() == 0 {
        result
    } else {
        without(without_all(result, removed.drop_last()), removed.last())
    }
}

/// `result` with each prototype of `added` stored under its identifier, one
/// after the other.
pub open spec fn with_all(result: ResultView, added: Seq<PrototypeView>) -> ResultView
    decreases added.len(),
{
    if added.len() == 0 {
        result
    } else {
        upsert(with_all(result, added.drop_last()), added.last().id, added.last())
    }
}

/// The plan result that an update makes of `result`: first the removed
/// prototypes leave, then the new ones are stored.
pub open spec fn updated_result(result: ResultView, update: PlanResultUpdateView) -> ResultView {
    with_all(without_all(result, update.removed_prototypes), update.new_prototypes)
}

impl PlanResult {
    /// The plan result without prototypes.
    pub fn new() -> (result: PlanResult)
        ensures
            result@ == Seq::<(PrototypeID, PrototypeView)>::empty(),
    {
        let result = PlanResult { prototypes: KeyedList::new() };
        assert(result@ =~= Seq::<(PrototypeID, PrototypeView)>::empty());
        result
    }

    /// The state that this mirror knows, to be sent with a request for what
    /// changed since.
    pub fn as_known_state(&self) -> (known: PlanResultKnownState)
        ensures
            known@ == known_state_of(self@),
    {
        let mut ids: Vec<PrototypeID> = Vec::new();
        let n = self.prototypes.len();
        let mut i: usize = 0;
        while i < n
            invariant
                i <= n,
                n == self.prototypes.entries().len(),
                ids@.len() == i,
                forall|j: int| 0 <= j < i ==> ids@[j] == self.prototypes.entries()[j].0,
            decreases n - i,
        {
            ids.push(self.prototypes.key_at(i));
            i = i + 1;
        }
        assert(ids@ =~= known_state_of(self@));
        PlanResultKnownState { known_prototypes: ids }
    }

    /// Applies an update that was computed for the state that this mirror
    /// knows.
    pub fn apply_update(&mut self, update: &PlanResultUpdate)
        ensures
            final(self)@ == updated_result(old(self)@, update@),
            distinct_keys(old(self)@),
            distinct_keys(final(self)@),
    {
        let ghost f = prototype_view();
        proof {
            use_type_invariant(&self.prototypes);
            lemma_mapped_distinct(self.prototypes.entries(), f);
        }
        let mut i: usize = 0;
        assert(update.removed_prototypes@.take(0) =~= Seq::empty());
        while i < update.removed_prototypes.len()
            invariant
                i <= update.removed_prototypes.len(),
                f == prototype_view(),
                distinct_keys(self.prototypes.entries()),
                self@ == without_all(old(self)@, update.removed_prototypes@.take(i as int)),
            decreases update.removed_prototypes.len() - i,
        {
            let id = update.removed_prototypes[i];
            proof {
                lemma_without_mapped(self.prototypes.entries(), id, f);
            }
            self.prototypes.remove(&id);
            i = i + 1;
            proof {
                let taken = update.removed_prototypes@.take(i as int);
                assert(taken.drop_last() =~= update.removed_prototypes@.take(i - 1));
                assert(taken.last() == id);
            }
        }
        assert(update.removed_prototypes@.take(i as int) =~= update.removed_prototypes@);
        let ghost base = self@;
        let mut k: usize = 0;
        assert(update@.new_prototypes.take(0) =~= Seq::empty());
        while k < update.new_prototypes.len()
            invariant
                k <= update.new_prototypes.len(),
                f == prototype_view(),
                distinct_keys(self.prototypes.entries()),
                self@ == with_all(base, update@.new_prototypes.take(k as int)),
            decreases update.new_prototypes.len() - k,
        {
            let copy = update.new_prototypes[k].duplicate();
            proof {
                lemma_upsert_mapped(self.prototypes.entries(), copy.id, copy, f);
            }
            self.prototypes.insert(copy.id, copy);
            k = k + 1;
            proof {
                let taken = update@.new_prototypes.take(k as int);
                assert(taken.drop_last() =~= update@.new_prototypes.take(k - 1));
                assert(taken.last() == update.new_prototypes@[k - 1]@);
            }
        }
        assert(update@.new_prototypes.take(k as int) =~= update@.new_prototypes);
        proof {
            lemma_mapped_distinct(self.prototypes.entries(), f);
        }
    }

    /// The update that brings a mirror in the state `known` to this result.
    pub fn update_for(&self, known: &PlanResultKnownState) -> (update: PlanResultUpdate)
        ensures
            update@ == result_changes_since(self@, known@),
    {
        let ghost f = prototype_view();
        let n = self.prototypes.len();
        proof {
            lemma_mapped_distinct(self.prototypes.entries(), f);
        }
        let mut new_prototypes: Vec<Prototype> = Vec::new();
        let mut i: usize = 0;
        assert(self@.take(0) =~= Seq::empty());
        assert(new_prototypes@.map_values(|p: Prototype| p@) =~= Seq::empty());
        while i < n
            invariant
                i <= n,
                n == self@.len(),
                n == self.prototypes.entries().len(),
                new_prototypes@.map_values(|p: Prototype| p@) == news_of(
                    self@.take(i as int),
                    known@,
                ),
            decreases n - i,
        {
            let id = self.prototypes.key_at(i);
            let ghost before = new_prototypes@.map_values(|p: Prototype| p@);
            let news = !holds_id(&known.known_prototypes, id);
            if news {
                let copy = self.prototypes.value_at(i).duplicate();
                new_prototypes.push(copy);
                assert(new_prototypes@.map_values(|p: Prototype| p@) =~= before.push(copy@));
            }
            i = i + 1;
            proof {
                let taken = self@.take(i as int);
                assert(taken.drop_last() =~= self@.take(i - 1));
                assert(taken.last() == self@[i - 1]);
            }
        }
        assert(self@.take(i as int) =~= self@);
        let mut removed_prototypes: Vec<PrototypeID> = Vec::new();
        let mut k: usize = 0;
        assert(known@.take(0) =~= Seq::empty());
        while k < known.known_prototypes.len()
            invariant
                k <= known.known_prototypes.len(),
                f == prototype_view(),
                forall|id: PrototypeID|
                    has_key(self@, id) == has_key(self.prototypes.entries(), id),
                removed_prototypes@ == gone_of(known@.take(k as int), self@),
            decreases known.known_prototypes.len() - k,
        {
            let id = known.known_prototypes[k];
            if self.prototypes.get(&id).is_none() {
                removed_prototypes.push(id);
            }
            k = k + 1;
            proof {
                let taken = known@.take(k as int);
                assert(taken.drop_last() =~= known@.take(k - 1));
                assert(taken.last() == id);
            }
        }
        assert(known@.take(k as int) =~= known@);
        PlanResultUpdate { new_prototypes, removed_prototypes }
    }
}

/// Whether `id` is among `ids`.
pub fn holds_id(ids: &Vec<PrototypeID>, id: PrototypeID) -> (held: bool)
    ensures
        held == ids@.contains(id),
{
    let mut i: usize = 0;
    while i < ids.len()
        invariant
            i <= ids.len(),
            forall|j: int| 0 <= j < i ==> ids@[j] != id,
        decreases ids.len() - i,
    {
        if ids[i].0 == id.0 {
            return true;
        }
        i = i + 1;
    }
    false
}

/// The prototypes of `result` that a mirror in the state `known` lacks, in
/// the order of `result`.
pub open spec fn news_of(result: ResultView, known: Seq<PrototypeID>) -> Seq<PrototypeView>
    decreases result.len(),
{
    if result.len() == 0 {
        Seq::empty()
    } else {
        let before = news_of(result.drop_last(), known);
        if known.contains(result.last().0) {
            before
        } else {
            before.push(result.last().1)
        }
    }
}

/// The identifiers of `known` that `result` does not hold, in the order of
/// `known`.
pub open spec fn gone_of(known: Seq<PrototypeID>, result: ResultView) -> Seq<PrototypeID>
    decreases known.len(),
{
    if known.len() == 0 {
        Seq::empty()
    } else {
        let before = gone_of(known.drop_last(), result);
        if has_key(result, known.last()) {
            before
        } else {
            before.push(known.last())
        }
    }
}

/// The update that brings a mirror in the state `known` to `result`.
pub open spec fn result_changes_since(result: ResultView, known: Seq<PrototypeID>) -> PlanResultUpdateView {
    PlanResultUpdateView {
        new_prototypes: news_of(result, known),
        removed_prototypes: gone_of(known, result),
    }
}

/// Every prototype is stored under its own identifier.
pub open spec fn keyed_by_id(result: ResultView) -> bool {
    forall|i: int| 0 <= i < result.len() ==> (#[trigger] result[i]).0 == result[i].1.id
}

/// An identifier names one prototype: what two results hold under the same
/// identifier is the same.
pub open spec fn ids_name_prototypes(a: ResultView, b: ResultView) -> bool {
    forall|id: PrototypeID| has_key(a, id) && has_key(b, id) ==> lookup(a, id) == lookup(b, id)
}

/// The prototype that the last of `added` with the identifier `id` is,
/// where there is one.
pub open spec fn latest_prototype(added: Seq<PrototypeView>, id: PrototypeID) -> Option<
    PrototypeView,
>
    decreases added.len(),
{
    if added.len() == 0 {
        None
    } else if added.last().id == id {
        Some(added.last())
    } else {
        latest_prototype(added.drop_last(), id)
    }
}

/// After prototypes leave, an identifier holds what it held, unless it was
/// among those that left.
pub proof fn lemma_without_all_lookup(result: ResultView, removed: Seq<PrototypeID>, id: PrototypeID)
    requires
        distinct_keys(result),
    ensures
        distinct_keys(without_all(result, removed)),
        lookup(without_all(result, removed), id) == if removed.contains(id) {
            None
        } else {
            lookup(result, id)
        },
    decreases removed.len(),
{
    if removed.len() > 0 {
        let rest = removed.drop_last();
        let before = without_all(result, rest);
        lemma_without_all_lookup(result, rest, id);
        lemma_without_distinct(before, removed.last());
        if removed.last() == id {
            assert(removed[removed.len() - 1] == id);
        } else {
            assert(lookup(without(before, removed.last()), id) == lookup(before, id));
            if removed.contains(id) {
                let j = removed.index_of(id);
                assert(rest[j] == id);
            }
            if rest.contains(id) {
                let j = rest.index_of(id);
                assert(removed[j] == id);
            }
        }
    }
}

/// After prototypes are stored, an identifier holds the last of them that
/// bears it, and what it held before where none bears it.
pub proof fn lemma_with_all_lookup(result: ResultView, added: Seq<PrototypeView>, id: PrototypeID)
    requires
        distinct_keys(result),
    ensures
        distinct_keys(with_all(result, added)),
        lookup(with_all(result, added), id) == match latest_prototype(added, id) {
            Some(prototype) => Some(prototype),
            None => lookup(result, id),
        },
    decreases added.len(),
{
    if added.len() > 0 {
        let before = with_all(result, added.drop_last());
        lemma_with_all_lookup(result, added.drop_last(), id);
        lemma_upsert_distinct(before, added.last().id, added.last());
        if added.last().id != id {
            assert(lookup(upsert(before, added.last().id, added.last()), id) == lookup(before, id));
        }
    }
}

/// Among the prototypes that a mirror lacks, an identifier of the result is
/// found with its prototype exactly where the mirror does not know it.
pub proof fn lemma_news_lookup(result: ResultView, known: Seq<PrototypeID>, id: PrototypeID)
    requires
        distinct_keys(result),
        keyed_by_id(result),
    ensures
        latest_prototype(news_of(result, known), id) == if known.contains(id) {
            None
        } else {
            lookup(result, id)
        },
    decreases result.len(),
{
    if result.len() > 0 {
        let rest = result.drop_last();
        let last = result.last();
        assert forall|a: int, b: int| 0 <= a < b < rest.len() implies (#[trigger] rest[a]).0 != (
        #[trigger] rest[b]).0 by {
            assert(result[a].0 != result[b].0);
        }
        assert forall|i: int| 0 <= i < rest.len() implies (#[trigger] rest[i]).0
            == rest[i].1.id by {
            assert(result[i].0 == result[i].1.id);
        }
        lemma_news_lookup(rest, known, id);
        crate::keyed::lemma_slot(result, last.0, result.len() - 1);
        let before = news_of(rest, known);
        if !known.contains(last.0) {
            assert(before.push(last.1).drop_last() =~= before);
        }
        if last.0 == id {
            if has_key(rest, id) {
                let j = slot(rest, id);
                assert(result[j].0 != result[result.len() - 1].0);
            }
        } else {
            if has_key(result, id) {
                let j = slot(result, id);
                assert(rest[j].0 == id);
                crate::keyed::lemma_slot(rest, id, j);
            }
            if has_key(rest, id) {
                let j = slot(rest, id);
                assert(result[j].0 == id);
                crate::keyed::lemma_slot(result, id, j);
            }
        }
    }
}

/// An identifier is among those that are gone exactly where the mirror
/// knows it and the result does not hold it.
pub proof fn lemma_gone_contains(known: Seq<PrototypeID>, result: ResultView, id: PrototypeID)
    ensures
        gone_of(known, result).contains(id) <==> known.contains(id) && !has_key(result, id),
    decreases known.len(),
{
    if known.len() > 0 {
        let rest = known.drop_last();
        lemma_gone_contains(rest, result, id);
        let before = gone_of(rest, result);
        let after = gone_of(known, result);
        if known.contains(id) {
            let j = known.index_of(id);
            if j < rest.len() {
                assert(rest[j] == id);
            }
        }
        if rest.contains(id) {
            let j = rest.index_of(id);
            assert(known[j] == id);
        }
        assert(known[known.len() - 1] == known.last());
        if !has_key(result, known.last()) {
            assert(after =~= before.push(known.last()));
            assert(after[after.len() - 1] == known.last());
            if before.contains(id) {
                let j = before.index_of(id);
                assert(after[j] == id);
            }
            if after.contains(id) {
                let j = after.index_of(id);
                if j < before.len() {
                    assert(before[j] == id);
                }
            }
        }
    }
}

/// A mirror of a plan result that takes the update computed for its known
/// state holds for every identifier what the result holds. This needs
/// identifiers to name prototypes, and every prototype of the result to be
/// stored under its own identifier.
pub proof fn law_result_delta_correct(mirror: ResultView, result: ResultView)
    requires
        distinct_keys(mirror),
        distinct_keys(result),
        keyed_by_id(result),
        ids_name_prototypes(mirror, result),
    ensures
        crate::keyed::to_map(
            updated_result(mirror, result_changes_since(result, known_state_of(mirror))),
        ) == crate::keyed::to_map(result),
{
    let known = known_state_of(mirror);
    let update = result_changes_since(result, known);
    let thinned = without_all(mirror, update.removed_prototypes);
    let after = with_all(thinned, update.new_prototypes);
    lemma_without_all_lookup(mirror, update.removed_prototypes, PrototypeID(0));
    lemma_with_all_lookup(thinned, update.new_prototypes, PrototypeID(0));
    assert forall|id: PrototypeID| lookup(after, id) == lookup(result, id) by {
        lemma_without_all_lookup(mirror, update.removed_prototypes, id);
        lemma_with_all_lookup(thinned, update.new_prototypes, id);
        lemma_news_lookup(result, known, id);
        lemma_gone_contains(known, result, id);
        if has_key(mirror, id) {
            let j = slot(mirror, id);
            assert(known[j] == id);
        }
        if known.contains(id) {
            let j = known.index_of(id);
            assert(mirror[j].0 == id);
        }
    }
    assert forall|id: PrototypeID| has_key(after, id) == has_key(result, id) by {
        assert(lookup(after, id) == lookup(result, id));
    }
    assert forall|id: PrototypeID| has_key(after, id) implies after[slot(after, id)].1
        == result[slot(result, id)].1 by {
        assert(lookup(after, id) == lookup(result, id));
    }
    assert(crate::keyed::to_map(after) =~= crate::keyed::to_map(result));
}

} // verus!
