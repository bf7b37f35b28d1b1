use vstd::prelude::*;
use crate::ident::RawID;
use crate::keyed::{
    distinct_keys, has_key, lemma_slot, lemma_upsert_distinct, lemma_upsert_mapped, lookup,
    mapped, slot, upsert, KeyedList,
};
use crate::mesh::{extend_with_instances, flat_instances, Instance};
use crate::patch::{member_path, Field, Patch, PatchView, Value, ValueView};

verus! {

/// What the mirror of the instance reports holds: for every source that has
/// reported, the instances of its latest report.
pub type BuffersView = Seq<(RawID, Seq<Instance>)>;

/// The function that takes a buffer to the instances that it holds.
pub open spec fn buffer_view() -> spec_fn(Vec<Instance>) -> Seq<Instance> {
    |buffer: Vec<Instance>| buffer@
}

/// The instances of all sources, source after source.
pub open spec fn all_instances(buffers: BuffersView) -> Seq<Instance>
    decreases buffers.len(),
{
    if buffers.len() == 0 {
        Seq::empty()
    } else {
        all_instances(buffers.drop_last()) + buffers.last().1
    }
}

/// The frame that is drawn: the instances of all sources as one flat array.
pub open spec fn aggregated(buffers: BuffersView) -> Seq<u32> {
    flat_instances(all_instances(buffers))
}

/// The command that replaces the instances drawn by those of all sources.
pub open spec fn car_instances_patch(buffers: BuffersView) -> PatchView {
    PatchView::SetAt {
        path: member_path(Field::Transport, Field::Rendering, Field::CarInstances),
        value: ValueView::Instances(aggregated(buffers)),
    }
}

/// Laying out two runs of instances one after the other gives the layout of
/// the first followed by that of the second.
pub proof fn lemma_flat_instances_concat(a: Seq<Instance>, b: Seq<Instance>)
    ensures
        flat_instances(a + b) == flat_instances(a) + flat_instances(b),
{
    let left = flat_instances(a + b);
    let right = flat_instances(a) + flat_instances(b);
    assert(left.len() == right.len());
    assert forall|j: int| 0 <= j < left.len() implies left[j] == right[j] by {
        if j < 8 * a.len() {
            assert(j / 8 < a.len());
        } else {
            let k = j - 8 * a.len();
            assert(k / 8 == j / 8 - a.len());
            assert(k % 8 == j % 8);
            assert((a + b)[j / 8] == b[k / 8]);
        }
    }
    assert(left =~= right);
}

/// Copies a run of instances.
pub fn copy_instances(instances: &Vec<Instance>) -> (copy: Vec<Instance>)
    ensures
        copy@ == instances@,
{
    let mut copy: Vec<Instance> = Vec::new();
    let mut i: usize = 0;
    while i < instances.len()
        invariant
            i <= instances.len(),
            copy@.len() == i,
            forall|j: int| 0 <= j < i ==> copy@[j] == instances@[j],
        decreases instances.len() - i,
    {
        copy.push(instances[i]);
        i = i + 1;
    }
    assert(copy@ =~= instances@);
    copy
}

/// Stores the report of a source in place of its earlier report.
pub fn store_report(
    buffers: &mut KeyedList<RawID, Vec<Instance>>,
    source: RawID,
    instances: &Vec<Instance>,
)
    ensures
        mapped(final(buffers).entries(), buffer_view()) == upsert(
            mapped(old(buffers).entries(), buffer_view()),
            source,
            instances@,
        ),
{
    let copy = copy_instances(instances);
    proof {
        use_type_invariant(&*buffers);
        lemma_upsert_mapped(buffers.entries(), source, copy, buffer_view());
    }
    buffers.insert(source, copy);
}

/// Works out the frame that is drawn from the reports held.
pub fn aggregate(buffers: &KeyedList<RawID, Vec<Instance>>) -> (frame: Vec<u32>)
    ensures
        frame@ == aggregated(mapped(buffers.entries(), buffer_view())),
{
    let ghost view = mapped(buffers.entries(), buffer_view());
    let mut frame: Vec<u32> = Vec::new();
    let n = buffers.len();
    let mut i: usize = 0;
    assert(view.take(0) =~= Seq::empty());
    assert(frame@ =~= aggregated(view.take(0)));
    while i < n
        invariant
            i <= n,
            n == buffers.entries().len(),
            view == mapped(buffers.entries(), buffer_view()),
            frame@ == aggregated(view.take(i as int)),
        decreases n - i,
    {
        let buffer = buffers.value_at(i);
        proof {
            let taken = view.take(i + 1);
            assert(taken.drop_last() =~= view.take(i as int));
            assert(taken.last().1 == buffer@);
            lemma_flat_instances_concat(all_instances(view.take(i as int)), buffer@);
        }
        extend_with_instances(&mut frame, buffer);
        i = i + 1;
    }
    assert(view.take(i as int) =~= view);
    frame
}

/// Works out the command that replaces the instances drawn.
pub fn aggregate_patch(buffers: &KeyedList<RawID, Vec<Instance>>) -> (patch: Patch)
    ensures
        patch@ == car_instances_patch(mapped(buffers.entries(), buffer_view())),
{
    let path = crate::patch::members(Field::Transport, Field::Rendering, Field::CarInstances);
    Patch::SetAt { path, value: Value::Instances(aggregate(buffers)) }
}

/// A report replaces the earlier report of its source: after two reports of
/// one source the mirror, and with it the frame drawn, is what it would be
/// had only the second arrived.
pub proof fn law_report_replaces(
    buffers: BuffersView,
    source: RawID,
    first: Seq<Instance>,
    second: Seq<Instance>,
)
    requires
        distinct_keys(buffers),
    ensures
        upsert(upsert(buffers, source, first), source, second) == upsert(buffers, source, second),
        aggregated(upsert(upsert(buffers, source, first), source, second)) == aggregated(
            upsert(buffers, source, second),
        ),
        lookup(upsert(upsert(buffers, source, first), source, second), source) == Some(second),
{
    let once = upsert(buffers, source, first);
    lemma_upsert_distinct(buffers, source, first);
    lemma_upsert_distinct(once, source, second);
    if has_key(buffers, source) {
        let i = slot(buffers, source);
        assert(once[i].0 == source);
        lemma_slot(once, source, i);
    } else {
        let i = buffers.len() as int;
        assert(once[i].0 == source);
        lemma_slot(once, source, i);
    }
    assert(upsert(once, source, second) =~= upsert(buffers, source, second));
}

/// The order in which two sources report does not change what the mirror
/// holds for any source. Where both sources have reported before, it does
/// not change the frame drawn either.
pub proof fn law_reports_commute(
    buffers: BuffersView,
    a: RawID,
    from_a: Seq<Instance>,
    b: RawID,
    from_b: Seq<Instance>,
)
    requires
        distinct_keys(buffers),
        a != b,
    ensures
        forall|source: RawID|
            lookup(upsert(upsert(buffers, a, from_a), b, from_b), source) == lookup(
                upsert(upsert(buffers, b, from_b), a, from_a),
                source,
            ),
        has_key(buffers, a) && has_key(buffers, b) ==> aggregated(
            upsert(upsert(buffers, a, from_a), b, from_b),
        ) == aggregated(upsert(upsert(buffers, b, from_b), a, from_a)),
{
    if has_key(buffers, a) && has_key(buffers, b) {
        let i = slot(buffers, a);
        let j = slot(buffers, b);
        let with_a = upsert(buffers, a, from_a);
        let with_b = upsert(buffers, b, from_b);
        assert(with_a[j].0 == b);
        assert(with_b[i].0 == a);
        lemma_upsert_distinct(buffers, a, from_a);
        lemma_upsert_distinct(buffers, b, from_b);
        lemma_slot(with_a, b, j);
        lemma_slot(with_b, a, i);
        assert(upsert(with_a, b, from_b) =~= upsert(with_b, a, from_a));
    }
    let a_first = upsert(buffers, a, from_a);
    let b_first = upsert(buffers, b, from_b);
    lemma_upsert_distinct(buffers, a, from_a);
    lemma_upsert_distinct(a_first, b, from_b);
    lemma_upsert_distinct(buffers, b, from_b);
    lemma_upsert_distinct(b_first, a, from_a);
    assert forall|source: RawID|
        lookup(upsert(a_first, b, from_b), source) == lookup(
            upsert(b_first, a, from_a),
            source,
        ) by {
        if source == a {
            assert(lookup(upsert(a_first, b, from_b), a) == lookup(a_first, a));
        } else if source == b {
            assert(lookup(upsert(b_first, a, from_a), b) == lookup(b_first, b));
        } else {
            assert(lookup(upsert(a_first, b, from_b), source) == lookup(a_first, source));
            assert(lookup(a_first, source) == lookup(buffers, source));
            assert(lookup(upsert(b_first, a, from_a), source) == lookup(b_first, source));
            assert(lookup(b_first, source) == lookup(buffers, source));
        }
    }
}

} // verus!
