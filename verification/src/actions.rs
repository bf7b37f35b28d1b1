use vstd::prelude::*;
use crate::ident::PrototypeID;

verus! {

/// One step of carrying a proposal out.
#[derive(Clone, Copy, Debug, PartialEq, Eq)]
pub enum Action {
    /// Build the prototype.
    Construct(PrototypeID),
    /// Turn the first prototype, which exists, into the second.
    Morph(PrototypeID, PrototypeID),
    /// Take the prototype away.
    Destruct(PrototypeID),
}

/// What an action says of the prototype that it is aimed at.
#[derive(Clone, Copy, Debug, PartialEq, Eq)]
pub enum Verdict {
    Construct,
    Morph,
    Destruct,
}

/// A batch of actions that belong together.
#[derive(Clone, Debug, PartialEq, Eq)]
pub struct ActionGroup(pub Vec<Action>);

/// The action groups of a proposal, in the order in which they are carried
/// out.
#[derive(Clone, Debug, PartialEq, Eq)]
pub struct ActionGroups(pub Vec<ActionGroup>);

impl View for ActionGroup {
    type V = Seq<Action>;

    open spec fn view(&self) -> Seq<Action> {
        self.0@
    }
}

impl View for ActionGroups {
    type V = Seq<Seq<Action>>;

    open spec fn view(&self) -> Seq<Seq<Action>> {
        self.0@.map_values(|group: ActionGroup| group@)
    }
}

/// What `action` says of `id`: nothing, unless it is aimed at `id`. A morph is
/// aimed at the prototype that it makes, not at the one that it starts from.
pub open spec fn verdict_of(action: Action, id: PrototypeID) -> Option<Verdict> {
    match action {
        Action::Construct(target) => if target == id {
            Some(Verdict::Construct)
        } else {
            None
        },
        Action::Morph(_, target) => if target == id {
            Some(Verdict::Morph)
        } else {
            None
        },
        Action::Destruct(target) => if target == id {
            Some(Verdict::Destruct)
        } else {
            None
        },
    }
}

/// Whether `action` is aimed at `id`.
pub open spec fn targets(action: Action, id: PrototypeID) -> bool {
    verdict_of(action, id) is Some
}

/// What the first action of `actions` that is aimed at `id` says of it.
pub open spec fn first_verdict(actions: Seq<Action>, id: PrototypeID) -> Option<Verdict>
    decreases actions.len(),
{
    if actions.len() == 0 {
        None
    } else if targets(actions[0], id) {
        verdict_of(actions[0], id)
    } else {
        first_verdict(actions.drop_first(), id)
    }
}

/// What governs `id`: the verdict of the first group that holds an action
/// aimed at `id`.
pub open spec fn governing_verdict(groups: Seq<Seq<Action>>, id: PrototypeID) -> Option<Verdict>
    decreases groups.len(),
{
    if groups.len() == 0 {
        None
    } else if first_verdict(groups[0], id) is Some {
        first_verdict(groups[0], id)
    } else {
        governing_verdict(groups.drop_first(), id)
    }
}

/// How many actions of `actions` are aimed at `id`.
pub open spec fn times_targeted_in(actions: Seq<Action>, id: PrototypeID) -> nat
    decreases actions.len(),
{
    if actions.len() == 0 {
        0
    } else {
        times_targeted_in(actions.drop_first(), id) + if targets(actions[0], id) {
            1nat
        } else {
            0nat
        }
    }
}

/// How many actions of all groups are aimed at `id`.
pub open spec fn times_targeted(groups: Seq<Seq<Action>>, id: PrototypeID) -> nat
    decreases groups.len(),
{
    if groups.len() == 0 {
        0
    } else {
        times_targeted(groups.drop_first(), id) + times_targeted_in(groups[0], id)
    }
}

/// Where a prototype of a preview stands with respect to the actions.
#[derive(Clone, Copy, Debug, PartialEq, Eq)]
pub enum Classification {
    /// No action is aimed at it: it belongs to the world as it is.
    Ignored,
    /// It is to be built.
    ToConstruct,
    /// It comes out of a morph: it counts as existing and is not built anew.
    Morphed,
    /// It is to be taken away.
    ToDestruct,
}

/// The class that a governing verdict puts a prototype in.
pub open spec fn class_of(verdict: Option<Verdict>) -> Classification {
    match verdict {
        None => Classification::Ignored,
        Some(Verdict::Construct) => Classification::ToConstruct,
        Some(Verdict::Morph) => Classification::Morphed,
        Some(Verdict::Destruct) => Classification::ToDestruct,
    }
}

/// The class of the prototype `id` under the action groups.
pub open spec fn classification(groups: Seq<Seq<Action>>, id: PrototypeID) -> Classification {
    class_of(governing_verdict(groups, id))
}

impl Action {
    /// What this action says of `id`.
    pub fn verdict_for(&self, id: PrototypeID) -> (verdict: Option<Verdict>)
        ensures
            verdict == verdict_of(*self, id),
    {
        match *self {
            Action::Construct(target) => if target.0 == id.0 {
                Some(Verdict::Construct)
            } else {
                None
            },
            Action::Morph(_, target) => if target.0 == id.0 {
                Some(Verdict::Morph)
            } else {
                None
            },
            Action::Destruct(target) => if target.0 == id.0 {
                Some(Verdict::Destruct)
            } else {
                None
            },
        }
    }
}

impl ActionGroup {
    /// What the first action of this group that is aimed at `id` says of it.
    pub fn first_verdict_for(&self, id: PrototypeID) -> (verdict: Option<Verdict>)
        ensures
            verdict == first_verdict(self@, id),
    {
        let mut i: usize = 0;
        assert(self@.skip(0) =~= self@);
        while i < self.0.len()
            invariant
                i <= self.0.len(),
                first_verdict(self@, id) == first_verdict(self@.skip(i as int), id),
            decreases self.0.len() - i,
        {
            let verdict = self.0[i].verdict_for(id);
            assert(self@.skip(i as int)[0] == self@[i as int]);
            if verdict.is_some() {
                return verdict;
            }
            assert(self@.skip(i as int).drop_first() =~= self@.skip(i as int + 1));
            i = i + 1;
        }
        None
    }

    /// A group that holds the actions of this one.
    pub fn duplicate(&self) -> (copy: ActionGroup)
        ensures
            copy@ == self@,
    {
        let mut actions: Vec<Action> = Vec::new();
        let mut i: usize = 0;
        while i < self.0.len()
            invariant
                i <= self.0.len(),
                actions@.len() == i,
                forall|j: int| 0 <= j < i ==> actions@[j] == self.0@[j],
            decreases self.0.len() - i,
        {
            actions.push(self.0[i]);
            i = i + 1;
        }
        assert(actions@ =~= self.0@);
        ActionGroup(actions)
    }
}

impl ActionGroups {
    /// No action groups.
    pub fn new() -> (groups: ActionGroups)
        ensures
            groups@ == Seq::<Seq<Action>>::empty(),
    {
        let groups = ActionGroups(Vec::new());
        assert(groups@ =~= Seq::<Seq<Action>>::empty());
        groups
    }

    /// What governs the prototype `id`: the verdict of the first action, in
    /// the order of the groups, that is aimed at it.
    pub fn governing_verdict_for(&self, id: PrototypeID) -> (verdict: Option<Verdict>)
        ensures
            verdict == governing_verdict(self@, id),
    {
        let mut i: usize = 0;
        assert(self@.skip(0) =~= self@);
        while i < self.0.len()
            invariant
                i <= self.0.len(),
                governing_verdict(self@, id) == governing_verdict(self@.skip(i as int), id),
            decreases self.0.len() - i,
        {
            let verdict = self.0[i].first_verdict_for(id);
            assert(self@.skip(i as int)[0] == self.0@[i as int]@);
            if verdict.is_some() {
                return verdict;
            }
            assert(self@.skip(i as int).drop_first() =~= self@.skip(i as int + 1));
            i = i + 1;
        }
        None
    }

    /// The class of the prototype `id` under these action groups.
    pub fn classify(&self, id: PrototypeID) -> (class: Classification)
        ensures
            class == classification(self@, id),
    {
        match self.governing_verdict_for(id) {
            None => Classification::Ignored,
            Some(Verdict::Construct) => Classification::ToConstruct,
            Some(Verdict::Morph) => Classification::Morphed,
            Some(Verdict::Destruct) => Classification::ToDestruct,
        }
    }

    /// Action groups that hold what these hold.
    pub fn duplicate(&self) -> (copy: ActionGroups)
        ensures
            copy@ == self@,
    {
        let mut groups: Vec<ActionGroup> = Vec::new();
        let mut i: usize = 0;
        while i < self.0.len()
            invariant
                i <= self.0.len(),
                groups@.len() == i,
                forall|j: int| 0 <= j < i ==> (#[trigger] groups@[j])@ == self.0@[j]@,
            decreases self.0.len() - i,
        {
            groups.push(self.0[i].duplicate());
            i = i + 1;
        }
        let copy = ActionGroups(groups);
        assert(copy@ =~= self@);
        copy
    }
}

/// The first action that is aimed at a prototype governs it: a group gives
/// the verdict of an action of its own before which no action of the group
/// is aimed at the prototype, and gives nothing where none is aimed at it.
pub proof fn law_first_action_governs(actions: Seq<Action>, id: PrototypeID)
    ensures
        match first_verdict(actions, id) {
            Some(verdict) => exists|i: int|
                0 <= i < actions.len() && verdict_of(#[trigger] actions[i], id) == Some(verdict)
                    && forall|j: int| 0 <= j < i ==> !targets(#[trigger] actions[j], id),
            None => forall|i: int| 0 <= i < actions.len() ==> !targets(#[trigger] actions[i], id),
        },
    decreases actions.len(),
{
    if actions.len() > 0 {
        let rest = actions.drop_first();
        law_first_action_governs(rest, id);
        if targets(actions[0], id) {
            assert(verdict_of(actions[0], id) == first_verdict(actions, id));
        } else {
            match first_verdict(rest, id) {
                Some(verdict) => {
                    let i = choose|i: int|
                        0 <= i < rest.len() && verdict_of(#[trigger] rest[i], id) == Some(verdict)
                            && forall|j: int| 0 <= j < i ==> !targets(#[trigger] rest[j], id);
                    assert(actions[i + 1] == rest[i]);
                    assert forall|j: int| 0 <= j < i + 1 implies !targets(
                        #[trigger] actions[j],
                        id,
                    ) by {
                        if j > 0 {
                            assert(actions[j] == rest[j - 1]);
                        }
                    }
                    assert(verdict_of(actions[i + 1], id) == Some(verdict));
                },
                None => {
                    assert forall|i: int| 0 <= i < actions.len() implies !targets(
                        #[trigger] actions[i],
                        id,
                    ) by {
                        if i > 0 {
                            assert(actions[i] == rest[i - 1]);
                        }
                    }
                },
            }
        }
    }
}

/// The first group that holds an action aimed at a prototype governs it: the
/// groups give what such a group gives before which no group gives anything,
/// and nothing where no group gives anything.
pub proof fn law_first_group_governs(groups: Seq<Seq<Action>>, id: PrototypeID)
    ensures
        match governing_verdict(groups, id) {
            Some(verdict) => exists|g: int|
                0 <= g < groups.len() && first_verdict(#[trigger] groups[g], id) == Some(verdict)
                    && forall|h: int| 0 <= h < g ==> first_verdict(#[trigger] groups[h], id) is None,
            None => forall|g: int|
                0 <= g < groups.len() ==> first_verdict(#[trigger] groups[g], id) is None,
        },
    decreases groups.len(),
{
    if groups.len() > 0 {
        let rest = groups.drop_first();
        law_first_group_governs(rest, id);
        if first_verdict(groups[0], id) is Some {
            assert(first_verdict(groups[0], id) == governing_verdict(groups, id));
        } else {
            match governing_verdict(rest, id) {
                Some(verdict) => {
                    let g = choose|g: int|
                        0 <= g < rest.len() && first_verdict(#[trigger] rest[g], id) == Some(
                            verdict,
                        ) && forall|h: int|
                            0 <= h < g ==> first_verdict(#[trigger] rest[h], id) is None;
                    assert(groups[g + 1] == rest[g]);
                    assert forall|h: int| 0 <= h < g + 1 implies first_verdict(
                        #[trigger] groups[h],
                        id,
                    ) is None by {
                        if h > 0 {
                            assert(groups[h] == rest[h - 1]);
                        }
                    }
                    assert(first_verdict(groups[g + 1], id) == Some(verdict));
                },
                None => {
                    assert forall|g: int| 0 <= g < groups.len() implies first_verdict(
                        #[trigger] groups[g],
                        id,
                    ) is None by {
                        if g > 0 {
                            assert(groups[g] == rest[g - 1]);
                        }
                    }
                },
            }
        }
    }
}

/// Where no action of a group is aimed at a prototype, the group says
/// nothing of it; where exactly one is, the group says what that action says.
pub proof fn lemma_group_verdict(actions: Seq<Action>, id: PrototypeID)
    ensures
        times_targeted_in(actions, id) == 0 <==> first_verdict(actions, id) is None,
        times_targeted_in(actions, id) == 1 ==> forall|i: int|
            0 <= i < actions.len() && targets(#[trigger] actions[i], id) ==> first_verdict(
                actions,
                id,
            ) == verdict_of(actions[i], id),
    decreases actions.len(),
{
    if actions.len() > 0 {
        let rest = actions.drop_first();
        lemma_group_verdict(rest, id);
        if times_targeted_in(actions, id) == 1 {
            assert forall|i: int|
                0 <= i < actions.len() && targets(#[trigger] actions[i], id) implies first_verdict(
                actions,
                id,
            ) == verdict_of(actions[i], id) by {
                if i > 0 {
                    assert(rest[i - 1] == actions[i]);
                    if targets(actions[0], id) {
                        lemma_targeted_nowhere(rest, id, i - 1);
                    }
                }
            }
        }
    }
}

/// Where no action of a group is aimed at a prototype, none of its actions
/// is.
pub proof fn lemma_targeted_nowhere(actions: Seq<Action>, id: PrototypeID, i: int)
    requires
        times_targeted_in(actions, id) == 0,
        0 <= i < actions.len(),
    ensures
        !targets(actions[i], id),
    decreases actions.len(),
{
    if i > 0 {
        assert(actions.drop_first()[i - 1] == actions[i]);
        lemma_targeted_nowhere(actions.drop_first(), id, i - 1);
    }
}

/// Every prototype falls in exactly one class, and which one is settled as
/// follows. A prototype at which no action is aimed is ignored, and only
/// such a prototype is. A prototype at which exactly one action is aimed
/// is in the class that this action names: to construct for a construct, to
/// destruct for a destruct, morphed for a morph.
pub proof fn law_classification_partition(groups: Seq<Seq<Action>>, id: PrototypeID)
    ensures
        times_targeted(groups, id) == 0 <==> classification(groups, id)
            == Classification::Ignored,
        times_targeted(groups, id) == 1 ==> forall|g: int, i: int|
            0 <= g < groups.len() && 0 <= i < groups[g].len() && targets(
                #[trigger] groups[g][i],
                id,
            ) ==> classification(groups, id) == class_of(verdict_of(groups[g][i], id)),
        times_targeted(groups, id) == 1 ==> forall|g: int, i: int|
            0 <= g < groups.len() && 0 <= i < groups[g].len() && targets(
                #[trigger] groups[g][i],
                id,
            ) && !(groups[g][i] is Morph) ==> (classification(groups, id)
                == Classification::ToConstruct) != (classification(groups, id)
                == Classification::ToDestruct),
    decreases groups.len(),
{
    if groups.len() > 0 {
        let rest = groups.drop_first();
        law_classification_partition(rest, id);
        lemma_group_verdict(groups[0], id);
        if times_targeted(groups, id) == 1 {
            assert forall|g: int, i: int|
                0 <= g < groups.len() && 0 <= i < groups[g].len() && targets(
                    #[trigger] groups[g][i],
                    id,
                ) implies classification(groups, id) == class_of(
                verdict_of(groups[g][i], id),
            ) by {
                if g == 0 {
                    if times_targeted_in(groups[0], id) == 0 {
                        lemma_targeted_nowhere(groups[0], id, i);
                    }
                } else {
                    assert(rest[g - 1] == groups[g]);
                    if times_targeted(rest, id) == 0 {
                        lemma_untargeted(rest, id, g - 1, i);
                    }
                }
            }
        }
    }
}

/// Where no action of any group is aimed at a prototype, no single action
/// is.
pub proof fn lemma_untargeted(groups: Seq<Seq<Action>>, id: PrototypeID, g: int, i: int)
    requires
        times_targeted(groups, id) == 0,
        0 <= g < groups.len(),
        0 <= i < groups[g].len(),
    ensures
        !targets(groups[g][i], id),
    decreases groups.len(),
{
    if g == 0 {
        lemma_targeted_nowhere(groups[0], id, i);
    } else {
        assert(groups.drop_first()[g - 1] == groups[g]);
        lemma_untargeted(groups.drop_first(), id, g - 1, i);
    }
}

} // verus!
