use vstd::prelude::*;
use crate::history::{HistoryView, PlanHistory};
use crate::ident::ProposalID;
use crate::keyed::{
    distinct_keys, has_key, lemma_mapped_distinct, lemma_upsert_distinct, lemma_upsert_mapped,
    lookup, mapped, slot, upsert, KeyedList,
};
use crate::patch::{
    patches_view, path_view, Field, Patch, PatchView, Segment, SegmentView, Value, ValueView,
};
use crate::proposal::{
    with_ongoing, Proposal, ProposalKnownState, ProposalUpdate, ProposalUpdateView, ProposalView,
};

verus! {

/// What the mirror of the proposals holds.
pub type ProposalsView = Seq<(ProposalID, ProposalView)>;

/// What a batch of proposal updates holds.
pub type ProposalUpdatesView = Seq<(ProposalID, ProposalUpdateView)>;

/// The function that takes a proposal to what it holds.
pub open spec fn proposal_view() -> spec_fn(Proposal) -> ProposalView {
    |p: Proposal| p@
}

/// The function that takes a proposal update to what it holds.
pub open spec fn proposal_update_view() -> spec_fn(ProposalUpdate) -> ProposalUpdateView {
    |u: ProposalUpdate| u@
}

/// The function that takes a proposal to the state that a mirror of it
/// knows.
pub open spec fn proposal_known_state() -> spec_fn(ProposalView) -> ProposalKnownState {
    |p: ProposalView| crate::proposal::known_state_of(p)
}

/// The place of the master plan in the state tree.
pub open spec fn master_path() -> Seq<SegmentView> {
    seq![SegmentView::Field(Field::Planning), SegmentView::Field(Field::Master)]
}

/// The place of a proposal in the state tree.
pub open spec fn proposal_path(id: ProposalID) -> Seq<SegmentView> {
    seq![
        SegmentView::Field(Field::Planning),
        SegmentView::Field(Field::Proposals),
        SegmentView::Proposal(id),
    ]
}

/// The place of the ongoing step of a proposal in the state tree.
pub open spec fn ongoing_path(id: ProposalID) -> Seq<SegmentView> {
    proposal_path(id).push(SegmentView::Field(Field::Ongoing))
}

/// The command that replaces the master plan shown.
pub open spec fn master_patch(history: HistoryView) -> PatchView {
    PatchView::SetAt { path: master_path(), value: ValueView::MasterPlan(history) }
}

/// Whether a batch of updates can be applied to the mirrored proposals: an
/// update of the ongoing step alone needs its proposal to be mirrored.
pub open spec fn accepted(proposals: ProposalsView, updates: ProposalUpdatesView) -> bool {
    forall|i: int|
        0 <= i < updates.len() && (#[trigger] updates[i]).1 is ChangedOngoing ==> has_key(
            proposals,
            updates[i].0,
        )
}

/// The mirrored proposals after one update: a changed ongoing step goes into
/// the proposal that is mirrored under the identifier, a proposal that changed
/// completely is stored whole, also where none was mirrored before.
pub open spec fn with_proposal_update(
    proposals: ProposalsView,
    id: ProposalID,
    update: ProposalUpdateView,
) -> ProposalsView {
    match update {
        ProposalUpdateView::Unchanged => proposals,
        ProposalUpdateView::ChangedOngoing(ongoing) => match lookup(proposals, id) {
            Some(proposal) => upsert(proposals, id, with_ongoing(proposal, ongoing)),
            None => proposals,
        },
        ProposalUpdateView::ChangedCompletely(whole) => upsert(proposals, id, whole),
    }
}

/// The mirrored proposals after a batch of updates, applied in order.
pub open spec fn with_proposal_updates(
    proposals: ProposalsView,
    updates: ProposalUpdatesView,
) -> ProposalsView
    decreases updates.len(),
{
    if updates.len() == 0 {
        proposals
    } else {
        with_proposal_update(
            with_proposal_updates(proposals, updates.drop_last()),
            updates.last().0,
            updates.last().1,
        )
    }
}

/// The commands that show one update: none where nothing changed, one that
/// replaces the ongoing step alone, or one that replaces the whole proposal.
pub open spec fn proposal_patch(id: ProposalID, update: ProposalUpdateView) -> Seq<PatchView> {
    match update {
        ProposalUpdateView::Unchanged => Seq::empty(),
        ProposalUpdateView::ChangedOngoing(ongoing) => seq![
            PatchView::SetAt { path: ongoing_path(id), value: ValueView::Step(ongoing) },
        ],
        ProposalUpdateView::ChangedCompletely(whole) => seq![
            PatchView::SetAt { path: proposal_path(id), value: ValueView::Proposal(whole) },
        ],
    }
}

/// The commands that show a batch of updates, in order.
pub open spec fn proposal_patches(updates: ProposalUpdatesView) -> Seq<PatchView>
    decreases updates.len(),
{
    if updates.len() == 0 {
        Seq::empty()
    } else {
        proposal_patches(updates.drop_last()) + proposal_patch(updates.last().0, updates.last().1)
    }
}

/// Applying updates keeps the identifiers apart and loses no proposal.
pub proof fn lemma_updates_keep_keys(proposals: ProposalsView, updates: ProposalUpdatesView)
    requires
        distinct_keys(proposals),
    ensures
        distinct_keys(with_proposal_updates(proposals, updates)),
        forall|id: ProposalID|
            has_key(proposals, id) ==> has_key(with_proposal_updates(proposals, updates), id),
    decreases updates.len(),
{
    if updates.len() > 0 {
        let before = with_proposal_updates(proposals, updates.drop_last());
        lemma_updates_keep_keys(proposals, updates.drop_last());
        let id = updates.last().0;
        match updates.last().1 {
            ProposalUpdateView::Unchanged => {},
            ProposalUpdateView::ChangedOngoing(ongoing) => {
                if lookup(before, id) is Some {
                    lemma_upsert_distinct(before, id, with_ongoing(lookup(before, id)->0, ongoing));
                }
            },
            ProposalUpdateView::ChangedCompletely(whole) => {
                lemma_upsert_distinct(before, id, whole);
            },
        }
        let after = with_proposal_updates(proposals, updates);
        assert forall|other: ProposalID| has_key(proposals, other) implies has_key(
            after,
            other,
        ) by {
            assert(has_key(before, other));
        }
    }
}

/// Copies the master plan.
pub fn duplicate_history(history: &PlanHistory) -> (copy: PlanHistory)
    ensures
        copy@ == history@,
{
    let ghost f = crate::history::gesture_view();
    let mut gestures = KeyedList::new();
    let n = history.gestures.len();
    let mut i: usize = 0;
    proof {
        lemma_mapped_distinct(history.gestures.entries(), f);
    }
    while i < n
        invariant
            i <= n,
            n == history.gestures.entries().len(),
            f == crate::history::gesture_view(),
            distinct_keys(history.gestures.entries()),
            distinct_keys(gestures.entries()),
            mapped(gestures.entries(), f) == history@.take(i as int),
        decreases n - i,
    {
        let id = history.gestures.key_at(i);
        let gesture = history.gestures.value_at(i).duplicate();
        proof {
            lemma_upsert_mapped(gestures.entries(), id, gesture, f);
            let so_far = mapped(gestures.entries(), f);
            if has_key(so_far, id) {
                let j = slot(so_far, id);
                assert(so_far[j].0 == id);
                assert(history.gestures.entries()[j].0 != history.gestures.entries()[i as int].0);
            }
        }
        gestures.insert(id, gesture);
        i = i + 1;
        assert(mapped(gestures.entries(), f) =~= history@.take(i as int));
    }
    assert(history@.take(i as int) =~= history@);
    PlanHistory { gestures }
}

/// Works out the command that replaces the master plan shown.
pub fn master_plan_patch(history: &PlanHistory) -> (patch: Patch)
    ensures
        patch@ == master_patch(history@),
{
    let mut path: Vec<Segment> = Vec::new();
    path.push(Segment::Field(Field::Planning));
    path.push(Segment::Field(Field::Master));
    assert(path_view(path@) =~= master_path());
    Patch::SetAt { path, value: Value::MasterPlan(duplicate_history(history)) }
}

/// The place of a proposal in the state tree, and below it that of its
/// ongoing step where `ongoing` is set.
pub fn path_of_proposal(id: ProposalID, ongoing: bool) -> (path: Vec<Segment>)
    ensures
        path_view(path@) == if ongoing {
            ongoing_path(id)
        } else {
            proposal_path(id)
        },
{
    let mut path: Vec<Segment> = Vec::new();
    path.push(Segment::Field(Field::Planning));
    path.push(Segment::Field(Field::Proposals));
    path.push(Segment::Proposal(id));
    assert(path_view(path@) =~= proposal_path(id));
    if ongoing {
        path.push(Segment::Field(Field::Ongoing));
        assert(path_view(path@) =~= ongoing_path(id));
    }
    path
}

/// Whether a batch of updates can be applied to the mirrored proposals.
pub fn accepts(
    proposals: &KeyedList<ProposalID, Proposal>,
    updates: &KeyedList<ProposalID, ProposalUpdate>,
) -> (ok: bool)
    ensures
        ok == accepted(
            mapped(proposals.entries(), proposal_view()),
            mapped(updates.entries(), proposal_update_view()),
        ),
{
    let ghost ps = mapped(proposals.entries(), proposal_view());
    let ghost us = mapped(updates.entries(), proposal_update_view());
    let n = updates.len();
    proof {
        use_type_invariant(proposals);
        lemma_mapped_distinct(proposals.entries(), proposal_view());
    }
    let mut i: usize = 0;
    while i < n
        invariant
            i <= n,
            n == updates.entries().len(),
            ps == mapped(proposals.entries(), proposal_view()),
            us == mapped(updates.entries(), proposal_update_view()),
            forall|id: ProposalID| has_key(ps, id) == has_key(proposals.entries(), id),
            forall|j: int|
                0 <= j < i && (#[trigger] us[j]).1 is ChangedOngoing ==> has_key(ps, us[j].0),
        decreases n - i,
    {
        let id = updates.key_at(i);
        match updates.value_at(i) {
            ProposalUpdate::ChangedOngoing(_) => {
                if proposals.get(&id).is_none() {
                    assert(us[i as int].1 is ChangedOngoing);
                    assert(!has_key(ps, us[i as int].0));
                    return false;
                }
            },
            _ => {},
        }
        i = i + 1;
    }
    true
}

/// Applies a batch of updates to the mirrored proposals, and adds the
/// commands that show them to `patches`.
pub fn apply_proposal_updates(
    proposals: &mut KeyedList<ProposalID, Proposal>,
    updates: &KeyedList<ProposalID, ProposalUpdate>,
    patches: &mut Vec<Patch>,
)
    requires
        accepted(
            mapped(old(proposals).entries(), proposal_view()),
            mapped(updates.entries(), proposal_update_view()),
        ),
    ensures
        mapped(final(proposals).entries(), proposal_view()) == with_proposal_updates(
            mapped(old(proposals).entries(), proposal_view()),
            mapped(updates.entries(), proposal_update_view()),
        ),
        patches_view(final(patches)@) == patches_view(old(patches)@) + proposal_patches(
            mapped(updates.entries(), proposal_update_view()),
        ),
{
    let ghost f = proposal_view();
    let ghost ps = mapped(proposals.entries(), f);
    let ghost us = mapped(updates.entries(), proposal_update_view());
    let ghost shown = patches_view(patches@);
    let n = updates.len();
    proof {
        use_type_invariant(&*proposals);
        lemma_mapped_distinct(proposals.entries(), f);
    }
    let mut i: usize = 0;
    assert(us.take(0) =~= Seq::empty());
    assert(patches_view(patches@) =~= shown + proposal_patches(us.take(0)));
    while i < n
        invariant
            i <= n,
            n == updates.entries().len(),
            f == proposal_view(),
            us == mapped(updates.entries(), proposal_update_view()),
            accepted(ps, us),
            distinct_keys(ps),
            distinct_keys(proposals.entries()),
            mapped(proposals.entries(), f) == with_proposal_updates(ps, us.take(i as int)),
            patches_view(patches@) == shown + proposal_patches(us.take(i as int)),
        decreases n - i,
    {
        let id = updates.key_at(i);
        let ghost before = mapped(proposals.entries(), f);
        let ghost shown_before = patches_view(patches@);
        proof {
            lemma_updates_keep_keys(ps, us.take(i as int));
            lemma_mapped_distinct(proposals.entries(), f);
            let taken = us.take(i + 1);
            assert(taken.drop_last() =~= us.take(i as int));
            assert(taken.last() == us[i as int]);
            assert(us[i as int] == (id, updates.entries()[i as int].1@));
        }
        match updates.value_at(i) {
            ProposalUpdate::Unchanged => {
                assert(patches_view(patches@) =~= shown + proposal_patches(us.take(i + 1)));
            },
            ProposalUpdate::ChangedOngoing(ongoing) => {
                assert(us[i as int].1 is ChangedOngoing);
                assert(has_key(ps, id));
                assert(has_key(before, id));
                match proposals.get(&id) {
                    Some(mirrored) => {
                        let mut changed = mirrored.duplicate();
                        changed.set_ongoing_step(ongoing.duplicate());
                        proof {
                            lemma_upsert_mapped(proposals.entries(), id, changed, f);
                            assert(before[slot(before, id)].1 == mirrored@);
                        }
                        proposals.insert(id, changed);
                    },
                    None => {},
                }
                patches.push(
                    Patch::SetAt {
                        path: path_of_proposal(id, true),
                        value: Value::Step(ongoing.duplicate()),
                    },
                );
                assert(patches_view(patches@) =~= shown_before + proposal_patch(id, us[i as int].1));
            },
            ProposalUpdate::ChangedCompletely(whole) => {
                let copy = whole.duplicate();
                proof {
                    lemma_upsert_mapped(proposals.entries(), id, copy, f);
                }
                proposals.insert(id, copy);
                patches.push(
                    Patch::SetAt {
                        path: path_of_proposal(id, false),
                        value: Value::Proposal(whole.duplicate()),
                    },
                );
                assert(patches_view(patches@) =~= shown_before + proposal_patch(id, us[i as int].1));
            },
        }
        i = i + 1;
    }
    assert(us.take(i as int) =~= us);
}

} // verus!
