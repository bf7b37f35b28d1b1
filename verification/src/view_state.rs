use vstd::prelude::*;
use crate::keyed::{
    distinct_keys, has_key, lemma_slot, lemma_to_map_push, lemma_to_map_remove, slot, to_map,
};
use crate::patch::{
    patches_view, path_view, Patch, PatchView, PathView, Segment, SegmentView, Value, ValueView,
};

verus! {

/// The state tree of the presentation surface, as far as commands have
/// filled it: the values that were put, each under the path where it was
/// put.
pub type TreeView = Map<PathView, ValueView>;

/// The paths that lie at `path` or below it.
pub open spec fn at_or_below(path: PathView) -> Set<PathView> {
    Set::new(|p: PathView| path.is_prefix_of(p))
}

/// The paths that lie at or below one of the entries `keys` of `path`.
pub open spec fn below_keys(path: PathView, keys: Seq<SegmentView>) -> Set<PathView> {
    Set::new(
        |p: PathView| exists|i: int| 0 <= i < keys.len() && #[trigger] path.push(keys[i]).is_prefix_of(p),
    )
}

/// The tree after a command. Putting a value at a path replaces whatever was
/// at that path or below it. Taking keys out of what is at a path removes
/// whatever was at or below those entries, and nothing else.
pub open spec fn applied(tree: TreeView, patch: PatchView) -> TreeView {
    match patch {
        PatchView::SetAt { path, value } => tree.remove_keys(at_or_below(path)).insert(path, value),
        PatchView::UnsetAt { path, keys } => tree.remove_keys(below_keys(path, keys)),
    }
}

/// The tree after a batch of commands, carried out in order.
pub open spec fn applied_all(tree: TreeView, patches: Seq<PatchView>) -> TreeView
    decreases patches.len(),
{
    if patches.len() == 0 {
        tree
    } else {
        applied(applied_all(tree, patches.drop_last()), patches.last())
    }
}

/// Putting the same value at the same path a second time changes nothing.
pub proof fn law_set_idempotent(tree: TreeView, path: PathView, value: ValueView)
    ensures
        applied(
            applied(tree, PatchView::SetAt { path, value }),
            PatchView::SetAt { path, value },
        ) == applied(tree, PatchView::SetAt { path, value }),
{
    let once = applied(tree, PatchView::SetAt { path, value });
    let twice = applied(once, PatchView::SetAt { path, value });
    assert(path.is_prefix_of(path));
    assert(twice =~= once);
}

/// Taking the same keys out a second time changes nothing.
pub proof fn law_unset_idempotent(tree: TreeView, path: PathView, keys: Seq<SegmentView>)
    ensures
        applied(
            applied(tree, PatchView::UnsetAt { path, keys }),
            PatchView::UnsetAt { path, keys },
        ) == applied(tree, PatchView::UnsetAt { path, keys }),
{
    let once = applied(tree, PatchView::UnsetAt { path, keys });
    let twice = applied(once, PatchView::UnsetAt { path, keys });
    assert(twice =~= once);
}

/// Taking a key out of a keyed store undoes putting a value under that key:
/// where nothing was at or below the entry before, the tree is as it was.
pub proof fn law_unset_undoes_set(
    tree: TreeView,
    store: PathView,
    key: SegmentView,
    value: ValueView,
)
    requires
        forall|p: PathView| tree.dom().contains(p) ==> !store.push(key).is_prefix_of(p),
    ensures
        applied(
            applied(tree, PatchView::SetAt { path: store.push(key), value }),
            PatchView::UnsetAt { path: store, keys: seq![key] },
        ) == tree,
{
    let path = store.push(key);
    let keys = seq![key];
    let put = applied(tree, PatchView::SetAt { path, value });
    let taken = applied(put, PatchView::UnsetAt { path: store, keys });
    assert(keys[0] == key);
    assert(path.is_prefix_of(path));
    assert(below_keys(store, keys).contains(path));
    assert forall|p: PathView| tree.dom().contains(p) implies !below_keys(store, keys).contains(
        p,
    ) by {
        if below_keys(store, keys).contains(p) {
            let i = choose|i: int| 0 <= i < keys.len() && #[trigger] store.push(keys[i]).is_prefix_of(p);
            assert(keys[i] == key);
        }
    }
    assert(taken =~= tree);
}

/// Whether two steps of a path are the same.
pub fn same_segment(a: &Segment, b: &Segment) -> (same: bool)
    ensures
        same == (a@ == b@),
{
    match (*a, *b) {
        (Segment::Field(x), Segment::Field(y)) => x == y,
        (Segment::Entity(x), Segment::Entity(y)) => x.instance_id == y.instance_id && x.type_id
            == y.type_id && x.machine == y.machine && x.version == y.version,
        (Segment::Proposal(x), Segment::Proposal(y)) => x.0 == y.0,
        (Segment::Name(x), Segment::Name(y)) => {
            let left = x.to_owned();
            let right = y.to_owned();
            left == right
        },
        _ => false,
    }
}

/// Whether `path` lies at `prefix` followed by `last`, or below it. With
/// nothing for `last`, whether it lies at `prefix` or below it.
pub fn lies_below(path: &Vec<Segment>, prefix: &Vec<Segment>, last: Option<&Segment>) -> (below:
    bool)
    ensures
        below == match last {
            Some(key) => path_view(prefix@).push(key@).is_prefix_of(path_view(path@)),
            None => path_view(prefix@).is_prefix_of(path_view(path@)),
        },
{
    let ghost whole = path_view(path@);
    let ghost start = path_view(prefix@);
    let extra: usize = if last.is_some() {
        1
    } else {
        0
    };
    if path.len() < prefix.len() || path.len() - prefix.len() < extra {
        return false;
    }
    let mut i: usize = 0;
    while i < prefix.len()
        invariant
            i <= prefix.len(),
            prefix.len() <= path.len(),
            last is Some ==> prefix.len() < path.len(),
            whole == path_view(path@),
            start == path_view(prefix@),
            forall|j: int| 0 <= j < i ==> whole[j] == start[j],
        decreases prefix.len() - i,
    {
        if !same_segment(&path[i], &prefix[i]) {
            assert(whole[i as int] != start[i as int]);
            assert(whole.subrange(0, start.len() as int)[i as int] != start[i as int]);
            proof {
                if last is Some {
                    let longer = start.push(last->0@);
                    assert(longer[i as int] == start[i as int]);
                    assert(longer.len() <= whole.len());
                    assert(whole.subrange(0, longer.len() as int)[i as int] == whole[i as int]);
                }
            }
            return false;
        }
        i = i + 1;
    }
    assert(whole.subrange(0, start.len() as int) =~= start);
    match last {
        Some(key) => {
            let same = same_segment(&path[prefix.len()], key);
            proof {
                let longer = start.push(key@);
                if same {
                    assert(whole.subrange(0, longer.len() as int) =~= longer);
                } else {
                    assert(whole.subrange(0, longer.len() as int)[start.len() as int]
                        != longer[start.len() as int]);
                }
            }
            same
        },
        None => true,
    }
}

/// Whether `path` lies at or below one of the entries `keys` of `store`.
pub fn lies_below_keys(path: &Vec<Segment>, store: &Vec<Segment>, keys: &Vec<Segment>) -> (below:
    bool)
    ensures
        below == below_keys(path_view(store@), path_view(keys@)).contains(path_view(path@)),
{
    let ghost ks = path_view(keys@);
    let mut i: usize = 0;
    while i < keys.len()
        invariant
            i <= keys.len(),
            ks == path_view(keys@),
            forall|j: int|
                0 <= j < i ==> !(#[trigger] path_view(store@).push(ks[j])).is_prefix_of(
                    path_view(path@),
                ),
        decreases keys.len() - i,
    {
        if lies_below(path, store, Some(&keys[i])) {
            assert(path_view(store@).push(ks[i as int]).is_prefix_of(path_view(path@)));
            return true;
        }
        i = i + 1;
    }
    false
}

/// One value of the tree with the path where it was put.
#[derive(Debug, PartialEq, Eq)]
pub struct Leaf {
    pub path: Vec<Segment>,
    pub value: Value,
}

/// What the leaves hold, as pairs.
pub open spec fn leaves_view(leaves: Seq<Leaf>) -> Seq<(PathView, ValueView)> {
    leaves.map_values(|leaf: Leaf| (path_view(leaf.path@), leaf.value@))
}

/// A presentation surface that only remembers: it carries commands out on a
/// tree of its own, which can then be looked at.
#[derive(Debug, PartialEq, Eq)]
pub struct ViewState {
    leaves: Vec<Leaf>,
}

impl ViewState {
    #[verifier::type_invariant]
    spec fn paths_are_distinct(&self) -> bool {
        distinct_keys(leaves_view(self.leaves@))
    }

    /// The values held, by path.
    pub closed spec fn tree(&self) -> TreeView {
        to_map(leaves_view(self.leaves@))
    }

    /// The tree in which nothing was put.
    pub fn new() -> (state: ViewState)
        ensures
            state.tree() == Map::<PathView, ValueView>::empty(),
    {
        let state = ViewState { leaves: Vec::new() };
        assert(state.tree() =~= Map::<PathView, ValueView>::empty());
        state
    }

    /// The number of values held.
    pub fn len(&self) -> (n: usize)
        ensures
            n == self.tree().dom().len(),
            self.tree().dom().finite(),
    {
        proof {
            use_type_invariant(self);
            lemma_to_map_len(leaves_view(self.leaves@));
        }
        self.leaves.len()
    }

    /// The value that was put at `path`, where one is held there.
    pub fn get(&self, path: &Vec<Segment>) -> (found: Option<&Value>)
        ensures
            found is Some <==> self.tree().dom().contains(path_view(path@)),
            found is Some ==> found->0@ == self.tree()[path_view(path@)],
    {
        proof {
            use_type_invariant(self);
        }
        let ghost entries = leaves_view(self.leaves@);
        let mut i: usize = 0;
        while i < self.leaves.len()
            invariant
                i <= self.leaves.len(),
                entries == leaves_view(self.leaves@),
                distinct_keys(entries),
                forall|j: int| 0 <= j < i ==> (#[trigger] entries[j]).0 != path_view(path@),
            decreases self.leaves.len() - i,
        {
            let leaf = &self.leaves[i];
            if leaf.path.len() == path.len() && lies_below(&leaf.path, path, None) {
                assert(entries[i as int].0 =~= path_view(path@));
                proof {
                    lemma_slot(entries, path_view(path@), i as int);
                }
                return Some(&leaf.value);
            }
            proof {
                if entries[i as int].0 == path_view(path@) {
                    assert(path_view(path@).is_prefix_of(entries[i as int].0));
                }
            }
            i = i + 1;
        }
        None
    }

    /// Carries a command out.
    pub fn apply(&mut self, patch: Patch)
        ensures
            final(self).tree() == applied(old(self).tree(), patch@),
    {
        proof {
            use_type_invariant(&*self);
        }
        let mut taken = ViewState { leaves: Vec::new() };
        core::mem::swap(self, &mut taken);
        let mut leaves = taken.leaves;
        let ghost before = leaves_view(leaves@);
        let ghost gone = match patch@ {
            PatchView::SetAt { path, value } => at_or_below(path),
            PatchView::UnsetAt { path, keys } => below_keys(path, keys),
        };
        let mut i: usize = 0;
        while i < leaves.len()
            invariant
                i <= leaves.len(),
                distinct_keys(leaves_view(leaves@)),
                gone == match patch@ {
                    PatchView::SetAt { path, value } => at_or_below(path),
                    PatchView::UnsetAt { path, keys } => below_keys(path, keys),
                },
                to_map(leaves_view(leaves@)).remove_keys(gone) == to_map(before).remove_keys(gone),
                forall|j: int| 0 <= j < i ==> !gone.contains((#[trigger] leaves_view(leaves@)[j]).0),
            decreases leaves.len() - i,
        {
            let goes = match &patch {
                Patch::SetAt { path, value } => lies_below(&leaves[i].path, path, None),
                Patch::UnsetAt { path, keys } => lies_below_keys(&leaves[i].path, path, keys),
            };
            assert(goes == gone.contains(leaves_view(leaves@)[i as int].0));
            if goes {
                let ghost current = leaves_view(leaves@);
                proof {
                    lemma_to_map_remove(current, i as int);
                }
                leaves.remove(i);
                assert(leaves_view(leaves@) =~= current.remove(i as int));
                assert(to_map(leaves_view(leaves@)).remove_keys(gone) =~= to_map(
                    current,
                ).remove_keys(gone));
            } else {
                i = i + 1;
            }
        }
        proof {
            let kept = leaves_view(leaves@);
            assert forall|p: PathView| has_key(kept, p) implies !gone.contains(p) by {
                let j = slot(kept, p);
                assert(kept[j].0 == p);
            }
            assert(to_map(kept).remove_keys(gone) =~= to_map(kept));
        }
        match patch {
            Patch::SetAt { path, value } => {
                let ghost kept = leaves_view(leaves@);
                proof {
                    let p = path_view(path@);
                    assert(p.is_prefix_of(p));
                    if has_key(kept, p) {
                        let j = slot(kept, p);
                        assert(kept[j].0 == p);
                    }
                    lemma_to_map_push(kept, p, value@);
                }
                leaves.push(Leaf { path, value });
                assert(leaves_view(leaves@) =~= kept.push((path_view(path@), value@)));
            },
            Patch::UnsetAt { path, keys } => {},
        }
        *self = ViewState { leaves };
    }

    /// Carries a batch of commands out, in order.
    pub fn apply_all(&mut self, patches: Vec<Patch>)
        ensures
            final(self).tree() == applied_all(old(self).tree(), patches_view(patches@)),
    {
        let ghost all = patches_view(patches@);
        let mut rest = patches;
        let mut done: usize = 0;
        let total = rest.len();
        assert(all.take(0) =~= Seq::empty());
        while rest.len() > 0
            invariant
                done + rest.len() == total,
                total == all.len(),
                patches_view(rest@) == all.skip(done as int),
                self.tree() == applied_all(old(self).tree(), all.take(done as int)),
            decreases rest.len(),
        {
            let ghost remaining = patches_view(rest@);
            let ghost held = rest@;
            let patch = rest.remove(0);
            proof {
                assert(patch@ == remaining[0]);
                assert(remaining[0] == all[done as int]);
                assert forall|j: int| 0 <= j < rest@.len() implies #[trigger] patches_view(
                    rest@,
                )[j] == all.skip(done + 1)[j] by {
                    assert(rest@[j] == held[j + 1]);
                    assert(remaining[j + 1] == held[j + 1]@);
                    assert(remaining[j + 1] == all.skip(done as int)[j + 1]);
                }
                assert(patches_view(rest@) =~= all.skip(done + 1));
                let taken = all.take(done + 1);
                assert(taken.drop_last() =~= all.take(done as int));
                assert(taken.last() == patch@);
            }
            self.apply(patch);
            done = done + 1;
        }
        assert(all.take(done as int) =~= all);
    }
}

/// The map of entries with distinct keys has as many keys as there are
/// entries.
pub proof fn lemma_to_map_len<K, V>(s: Seq<(K, V)>)
    requires
        distinct_keys(s),
    ensures
        to_map(s).dom().finite(),
        to_map(s).dom().len() == s.len(),
    decreases s.len(),
{
    if s.len() == 0 {
        assert(to_map(s).dom() =~= Set::empty());
    } else {
        let rest = s.drop_last();
        let last = s.last();
        assert forall|a: int, b: int| 0 <= a < b < rest.len() implies (#[trigger] rest[a]).0 != (
        #[trigger] rest[b]).0 by {
            assert(s[a].0 != s[b].0);
        }
        lemma_to_map_len(rest);
        if has_key(rest, last.0) {
            let j = slot(rest, last.0);
            assert(s[j].0 != s[s.len() - 1].0);
        }
        lemma_to_map_push(rest, last.0, last.1);
        assert(rest.push(last) =~= s);
        assert(to_map(s).dom() =~= to_map(rest).dom().insert(last.0));
    }
}

} // verus!
