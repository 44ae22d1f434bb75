//! The laws the library lives by, stated over the model and proved: what
//! identity generation, teardown, the update operations and the dispatcher
//! guarantee on all inputs.

use vstd::prelude::*;

use crate::ident::{lemma_ident_injective, spec_ident};
use crate::model::{InternalItem, TouchbarModel, free_items, free_one_item, model_generate,
    model_update_slider, model_wf, obj_class, shrinks_to, teardown_bar, teardown_list,
    lemma_free_items_shrinks, lemma_shrink_preserves_wf, lemma_shrinks_trans,
    lemma_teardown_bar_shrinks, lemma_teardown_list_shrinks, lemma_wf_remove_bar};
use crate::store::ClassModel;

verus! {

/// Handle uniqueness: generating an identity advances the serial by one,
/// and distinct serials always yield distinct identity strings — so the
/// identities of sequential create operations are pairwise distinct and
/// carry strictly increasing serials.
pub proof fn law_identity_uniqueness(m: TouchbarModel, a: nat, b: nat)
    requires
        a != b,
    ensures
        spec_ident(a) != spec_ident(b),
        model_generate(m).0.next_serial == (m.next_serial + 1) as u64,
        obj_class(model_generate(m).0.store, model_generate(m).1) == Some(
            ClassModel::Text { contents: spec_ident(m.next_serial as nat) },
        ),
    {
    lemma_ident_injective(a, b);
}

/// Idempotent updates: setting a slider to a value it already shows
/// changes nothing, and the slider then reports exactly that value.
pub proof fn law_update_slider_idempotent(m: TouchbarModel, id: u64, v: u64)
    ensures
        model_update_slider(model_update_slider(m, id, v), id, v) == model_update_slider(m, id, v),
        (obj_class(m.store, id) matches Some(ClassModel::SliderItem { .. })) ==> (obj_class(
            model_update_slider(m, id, v).store,
            id,
        ) matches Some(ClassModel::SliderItem { min: _, max: _, value: vv, continuous: _ }) && vv
            == v),
{
    let m1 = model_update_slider(m, id, v);
    match obj_class(m.store, id) {
        Some(ClassModel::SliderItem { min, max, value, continuous }) => {
            assert(model_update_slider(m1, id, v).store.objects =~= m1.store.objects);
            assert(model_update_slider(m1, id, v) =~~= m1);
        },
        _ => {},
    }
}

/// Freeing a list of items leaves an item that is not in the list
/// registered and unchanged.
proof fn lemma_free_items_keeps(m: TouchbarModel, ids: Seq<u64>, id: u64)
    requires
        !ids.contains(id),
    ensures
        free_items(m, ids).0.items.dom().contains(id) == m.items.dom().contains(id),
        m.items.dom().contains(id) ==> free_items(m, ids).0.items[id] == m.items[id],
    decreases ids.len(),
{
    if ids.len() > 0 {
        assert(ids[0] != id);
        assert(!ids.drop_first().contains(id)) by {
            if ids.drop_first().contains(id) {
                let i = choose|i: int|
                    0 <= i < ids.drop_first().len() && ids.drop_first()[i] == id;
                assert(ids[i + 1] == id);
            }
        }
        lemma_free_items_keeps(free_one_item(m, ids[0]).0, ids.drop_first(), id);
    }
}

/// Freeing a list of items removes every listed registered item.
proof fn lemma_free_items_removes(m: TouchbarModel, ids: Seq<u64>)
    ensures
        forall|x: u64| ids.contains(x) ==> !free_items(m, ids).0.items.dom().contains(x),
    decreases ids.len(),
{
    if ids.len() > 0 {
        let m1 = free_one_item(m, ids[0]).0;
        lemma_free_items_removes(m1, ids.drop_first());
        lemma_free_items_shrinks(m1, ids.drop_first());
        assert forall|x: u64| ids.contains(x) implies !free_items(m, ids).0.items.dom().contains(
            x,
        ) by {
            let i = choose|i: int| 0 <= i < ids.len() && ids[i] == x;
            if i == 0 {
                assert(!m1.items.dom().contains(x));
            } else {
                assert(ids.drop_first()[i - 1] == x);
                assert(ids.drop_first().contains(x));
            }
        }
    }
}

/// Freeing a bar's items collects the child bar of every listed,
/// registered popover item for the recursion that follows.
proof fn lemma_free_items_collects(m: TouchbarModel, ids: Seq<u64>, p: u64, c: u64)
    requires
        ids.contains(p),
        m.items.dom().contains(p),
        m.items[p].kind is Popover,
        m.items[p].child_bar == Some(c),
    ensures
        free_items(m, ids).1.contains(c),
    decreases ids.len(),
{
    let r1 = free_one_item(m, ids[0]);
    let r2 = free_items(r1.0, ids.drop_first());
    if ids[0] == p {
        assert(r1.1 == seq![c]);
        assert((r1.1 + r2.1)[0] == c);
    } else {
        let i = choose|i: int| 0 <= i < ids.len() && ids[i] == p;
        assert(ids.drop_first()[i - 1] == p);
        lemma_free_items_collects(r1.0, ids.drop_first(), p, c);
        let j = choose|j: int| 0 <= j < r2.1.len() && r2.1[j] == c;
        assert((r1.1 + r2.1)[r1.1.len() + j] == c);
    }
}

/// The state reached mid-teardown, after a bar's items are freed and its
/// own identity and object are released.
pub open spec fn after_bar_phase(m: TouchbarModel, bar: u64) -> TouchbarModel {
    let b = m.bars[bar];
    let m0 = TouchbarModel { bars: m.bars.remove(bar), ..m };
    let fr = free_items(m0, b.items);
    TouchbarModel {
        store: crate::store::spec_release(crate::store::spec_release(fr.0.store, b.ident), bar),
        ..fr.0
    }
}

/// Mid-teardown well-formedness: the bar phase preserves the model
/// invariant.
proof fn lemma_after_bar_phase_wf(m: TouchbarModel, bar: u64)
    requires
        model_wf(m),
    ensures
        model_wf(after_bar_phase(m, bar)),
        shrinks_to(TouchbarModel { bars: m.bars.remove(bar), ..m }, after_bar_phase(m, bar)),
{
    let b = m.bars[bar];
    let m0 = TouchbarModel { bars: m.bars.remove(bar), ..m };
    let fr = free_items(m0, b.items);
    let m2 = after_bar_phase(m, bar);
    lemma_wf_remove_bar(m, bar);
    lemma_free_items_shrinks(m0, b.items);
    lemma_shrink_preserves_wf(m0, fr.0);
    crate::model::lemma_release_store_wf(fr.0.store, b.ident);
    crate::model::lemma_release_store_wf(crate::store::spec_release(fr.0.store, b.ident), bar);
    crate::model::lemma_wf_store_only(fr.0, m2);
    assert(shrinks_to(fr.0, m2)) by {
        assert(fr.0.store.trace =~= m2.store.trace.subrange(0, fr.0.store.trace.len() as int));
    }
    lemma_shrinks_trans(m0, fr.0, m2);
}

/// Leak by design: an item attached to no registered bar survives any
/// teardown unchanged.  Only handles listed on a registered bar are ever
/// freed, so whatever was created but never attached to the torn-down
/// tree stays registered.
pub proof fn law_leak_by_design(m: TouchbarModel, bar: u64, fuel: nat, id: u64)
    requires
        m.items.dom().contains(id),
        forall|b: u64| #[trigger]
            m.bars.dom().contains(b) ==> !m.bars[b].items.contains(id),
    ensures
        teardown_bar(m, bar, fuel).items.dom().contains(id),
        teardown_bar(m, bar, fuel).items[id] == m.items[id],
    decreases fuel, 0nat, 0nat,
{
    if fuel == 0 || !m.bars.dom().contains(bar) {
    } else {
        let b = m.bars[bar];
        let m0 = TouchbarModel { bars: m.bars.remove(bar), ..m };
        let fr = free_items(m0, b.items);
        let m2 = after_bar_phase(m, bar);
        assert(!b.items.contains(id));
        lemma_free_items_keeps(m0, b.items, id);
        lemma_free_items_shrinks(m0, b.items);
        assert forall|bb: u64| #[trigger] m2.bars.dom().contains(bb) implies !m2.bars[bb].items.contains(
            id,
        ) by {
            assert(m.bars.dom().contains(bb));
        }
        law_leak_by_design_list(m2, fr.1, (fuel - 1) as nat, id);
    }
}

/// List form of [`law_leak_by_design`].
pub proof fn law_leak_by_design_list(m: TouchbarModel, subs: Seq<u64>, fuel: nat, id: u64)
    requires
        m.items.dom().contains(id),
        forall|b: u64| #[trigger]
            m.bars.dom().contains(b) ==> !m.bars[b].items.contains(id),
    ensures
        teardown_list(m, subs, fuel).items.dom().contains(id),
        teardown_list(m, subs, fuel).items[id] == m.items[id],
    decreases fuel, 1nat, subs.len(),
{
    if subs.len() > 0 {
        let r1 = teardown_bar(m, subs[0], fuel);
        law_leak_by_design(m, subs[0], fuel, id);
        lemma_teardown_bar_shrinks(m, subs[0], fuel);
        assert forall|bb: u64| #[trigger] r1.bars.dom().contains(bb) implies !r1.bars[bb].items.contains(
            id,
        ) by {
            assert(m.bars.dom().contains(bb));
        }
        law_leak_by_design_list(r1, subs.drop_first(), fuel, id);
    }
}

/// Every child bar collected while freeing items is the child bar of
/// some registered popover item.
proof fn lemma_free_items_sub_provenance(m: TouchbarModel, ids: Seq<u64>)
    ensures
        forall|c: u64| #[trigger] free_items(m, ids).1.contains(c) ==> exists|k: u64|
            m.items.dom().contains(k) && m.items[k].child_bar == Some(c),
    decreases ids.len(),
{
    if ids.len() > 0 {
        let r1 = free_one_item(m, ids[0]);
        let r2 = free_items(r1.0, ids.drop_first());
        lemma_free_items_sub_provenance(r1.0, ids.drop_first());
        crate::model::lemma_free_one_item_shrinks(m, ids[0]);
        assert forall|c: u64| #[trigger] free_items(m, ids).1.contains(c) implies exists|k: u64|
            m.items.dom().contains(k) && m.items[k].child_bar == Some(c) by {
            let i = choose|i: int|
                0 <= i < free_items(m, ids).1.len() && free_items(m, ids).1[i] == c;
            if i < r1.1.len() {
                assert(r1.1[i] == c);
                assert(m.items.dom().contains(ids[0]) && m.items[ids[0]].child_bar == Some(c));
            } else {
                assert(r2.1[i - r1.1.len()] == c);
                assert(r2.1.contains(c));
                let k = choose|k: u64|
                    r1.0.items.dom().contains(k) && r1.0.items[k].child_bar == Some(c);
                assert(m.items.dom().contains(k) && m.items[k].child_bar == Some(c));
            }
        }
    }
}

/// Teardown unregisters no bar it was not led to: every removed bar is
/// either the torn-down bar itself or the child bar of some item that
/// was registered when the teardown began.
pub proof fn law_teardown_bar_provenance(m: TouchbarModel, bar: u64, fuel: nat)
    ensures
        forall|b: u64|
            #![trigger teardown_bar(m, bar, fuel).bars.dom().contains(b)]
            m.bars.dom().contains(b) && !teardown_bar(m, bar, fuel).bars.dom().contains(b) ==> b
                == bar || exists|k: u64|
                m.items.dom().contains(k) && m.items[k].child_bar == Some(b),
    decreases fuel, 0nat, 0nat,
{
    if fuel == 0 || !m.bars.dom().contains(bar) {
    } else {
        let b0 = m.bars[bar];
        let m0 = TouchbarModel { bars: m.bars.remove(bar), ..m };
        let fr = free_items(m0, b0.items);
        let m2 = after_bar_phase(m, bar);
        let r = teardown_bar(m, bar, fuel);
        assert(r == teardown_list(m2, fr.1, (fuel - 1) as nat));
        lemma_free_items_sub_provenance(m0, b0.items);
        lemma_free_items_shrinks(m0, b0.items);
        crate::model::lemma_free_items_bars(m0, b0.items);
        law_teardown_list_provenance(m2, fr.1, (fuel - 1) as nat);
        assert forall|b: u64|
            m.bars.dom().contains(b) && !(#[trigger] r.bars.dom().contains(b)) && b != bar implies exists|
            k: u64,
        | m.items.dom().contains(k) && m.items[k].child_bar == Some(b) by {
            assert(m2.bars.dom().contains(b));
            if fr.1.contains(b) {
                let k = choose|k: u64|
                    m0.items.dom().contains(k) && m0.items[k].child_bar == Some(b);
                assert(m.items.dom().contains(k) && m.items[k].child_bar == Some(b));
            } else {
                let k = choose|k: u64|
                    m2.items.dom().contains(k) && m2.items[k].child_bar == Some(b);
                assert(m.items.dom().contains(k) && m.items[k].child_bar == Some(b));
            }
        }
    }
}

/// List form of [`law_teardown_bar_provenance`]: every bar a list
/// teardown unregisters is listed or linked from a registered item.
pub proof fn law_teardown_list_provenance(m: TouchbarModel, subs: Seq<u64>, fuel: nat)
    ensures
        forall|b: u64|
            #![trigger teardown_list(m, subs, fuel).bars.dom().contains(b)]
            m.bars.dom().contains(b) && !teardown_list(m, subs, fuel).bars.dom().contains(b)
                ==> subs.contains(b) || exists|k: u64|
                m.items.dom().contains(k) && m.items[k].child_bar == Some(b),
    decreases fuel, 1nat, subs.len(),
{
    if subs.len() > 0 {
        let r1 = teardown_bar(m, subs[0], fuel);
        let r = teardown_list(m, subs, fuel);
        law_teardown_bar_provenance(m, subs[0], fuel);
        lemma_teardown_bar_shrinks(m, subs[0], fuel);
        law_teardown_list_provenance(r1, subs.drop_first(), fuel);
        assert forall|b: u64|
            m.bars.dom().contains(b) && !(#[trigger] r.bars.dom().contains(b)) implies subs.contains(
            b,
        ) || exists|k: u64| m.items.dom().contains(k) && m.items[k].child_bar == Some(b) by {
            if !r1.bars.dom().contains(b) {
                if b == subs[0] {
                    assert(subs.contains(b));
                }
            } else {
                if subs.drop_first().contains(b) {
                    let i = choose|i: int|
                        0 <= i < subs.drop_first().len() && subs.drop_first()[i] == b;
                    assert(subs[i + 1] == b);
                    assert(subs.contains(b));
                } else {
                    let k = choose|k: u64|
                        r1.items.dom().contains(k) && r1.items[k].child_bar == Some(b);
                    assert(m.items.dom().contains(k) && m.items[k].child_bar == Some(b));
                }
            }
        }
    }
}

/// Leak by design, bar form: a bar that is not the one being torn down
/// and that no registered item points to as its child bar survives any
/// teardown with its record unchanged.
pub proof fn law_leak_by_design_bars(m: TouchbarModel, bar: u64, fuel: nat, b: u64)
    requires
        m.bars.dom().contains(b),
        b != bar,
        forall|k: u64| #[trigger] m.items.dom().contains(k) ==> m.items[k].child_bar != Some(b),
    ensures
        teardown_bar(m, bar, fuel).bars.dom().contains(b),
        teardown_bar(m, bar, fuel).bars[b] == m.bars[b],
{
    law_teardown_bar_provenance(m, bar, fuel);
    lemma_teardown_bar_shrinks(m, bar, fuel);
    if !teardown_bar(m, bar, fuel).bars.dom().contains(b) {
        let k = choose|k: u64| m.items.dom().contains(k) && m.items[k].child_bar == Some(b);
    }
}

/// A registered bar that is not the current root and that no registered
/// item links to as a child survives the root replacement's teardown, so
/// it satisfies the root-replacement precondition.
pub proof fn law_fresh_bar_survives_replacement(m: TouchbarModel, b: u64)
    requires
        m.bars.dom().contains(b),
        m.root matches Some(r) ==> r != b,
        forall|k: u64| #[trigger] m.items.dom().contains(k) ==> m.items[k].child_bar != Some(b),
    ensures
        crate::model::after_root_teardown(m).bars.dom().contains(b),
{
    match m.root {
        Some(r) => {
            law_leak_by_design_bars(m, r, crate::model::teardown_fuel(m), b);
        },
        None => {},
    }
}

/// Every item a teardown unregisters was listed on some bar that the
/// same teardown unregistered: items attached only to surviving bars
/// survive too.
pub proof fn law_teardown_item_provenance(m: TouchbarModel, bar: u64, fuel: nat)
    ensures
        forall|j: u64|
            #![trigger teardown_bar(m, bar, fuel).items.dom().contains(j)]
            m.items.dom().contains(j) && !teardown_bar(m, bar, fuel).items.dom().contains(j)
                ==> exists|b: u64|
                m.bars.dom().contains(b) && !teardown_bar(m, bar, fuel).bars.dom().contains(b)
                    && m.bars[b].items.contains(j),
    decreases fuel, 0nat, 0nat,
{
    if fuel == 0 || !m.bars.dom().contains(bar) {
    } else {
        let b0 = m.bars[bar];
        let m0 = TouchbarModel { bars: m.bars.remove(bar), ..m };
        let fr = free_items(m0, b0.items);
        let m2 = after_bar_phase(m, bar);
        let r = teardown_bar(m, bar, fuel);
        assert(r == teardown_list(m2, fr.1, (fuel - 1) as nat));
        lemma_free_items_shrinks(m0, b0.items);
        crate::model::lemma_free_items_bars(m0, b0.items);
        lemma_teardown_list_shrinks(m2, fr.1, (fuel - 1) as nat);
        law_teardown_item_list_provenance(m2, fr.1, (fuel - 1) as nat);
        assert(!r.bars.dom().contains(bar));
        assert forall|j: u64|
            m.items.dom().contains(j) && !(#[trigger] r.items.dom().contains(j)) implies exists|
            b: u64,
        | m.bars.dom().contains(b) && !r.bars.dom().contains(b) && m.bars[b].items.contains(j) by {
            if !m2.items.dom().contains(j) {
                lemma_items_removed_are_listed(m0, b0.items, j);
                assert(m.bars.dom().contains(bar) && !r.bars.dom().contains(bar)
                    && m.bars[bar].items.contains(j));
            } else {
                let b = choose|b: u64|
                    m2.bars.dom().contains(b) && !r.bars.dom().contains(b) && m2.bars[b].items.contains(
                        j,
                    );
                assert(m.bars.dom().contains(b) && m.bars[b] == m2.bars[b]);
            }
        }
    }
}

/// List form of [`law_teardown_item_provenance`].
pub proof fn law_teardown_item_list_provenance(m: TouchbarModel, subs: Seq<u64>, fuel: nat)
    ensures
        forall|j: u64|
            #![trigger teardown_list(m, subs, fuel).items.dom().contains(j)]
            m.items.dom().contains(j) && !teardown_list(m, subs, fuel).items.dom().contains(j)
                ==> exists|b: u64|
                m.bars.dom().contains(b) && !teardown_list(m, subs, fuel).bars.dom().contains(b)
                    && m.bars[b].items.contains(j),
    decreases fuel, 1nat, subs.len(),
{
    if subs.len() > 0 {
        let r1 = teardown_bar(m, subs[0], fuel);
        let r = teardown_list(m, subs, fuel);
        law_teardown_item_provenance(m, subs[0], fuel);
        lemma_teardown_bar_shrinks(m, subs[0], fuel);
        law_teardown_item_list_provenance(r1, subs.drop_first(), fuel);
        lemma_teardown_list_shrinks(r1, subs.drop_first(), fuel);
        assert forall|j: u64|
            m.items.dom().contains(j) && !(#[trigger] r.items.dom().contains(j)) implies exists|
            b: u64,
        | m.bars.dom().contains(b) && !r.bars.dom().contains(b) && m.bars[b].items.contains(j) by {
            if !r1.items.dom().contains(j) {
                let b = choose|b: u64|
                    m.bars.dom().contains(b) && !r1.bars.dom().contains(b) && m.bars[b].items.contains(
                        j,
                    );
                assert(m.bars.dom().contains(b) && !r.bars.dom().contains(b));
            } else {
                let b = choose|b: u64|
                    r1.bars.dom().contains(b) && !r.bars.dom().contains(b) && r1.bars[b].items.contains(
                        j,
                    );
                assert(m.bars.dom().contains(b) && m.bars[b] == r1.bars[b]);
            }
        }
    }
}

/// An item removed by freeing a list of items was in the list.
proof fn lemma_items_removed_are_listed(m: TouchbarModel, ids: Seq<u64>, j: u64)
    requires
        m.items.dom().contains(j),
        !free_items(m, ids).0.items.dom().contains(j),
    ensures
        ids.contains(j),
{
    if !ids.contains(j) {
        lemma_free_items_keeps(m, ids, j);
    }
}

/// Teardown completeness, bar form: every bar unregistered by a teardown
/// loses all the items its record listed — none of them stays registered.
pub proof fn law_teardown_bar_completeness(m: TouchbarModel, bar: u64, fuel: nat)
    requires
        model_wf(m),
        fuel >= m.bars.dom().len(),
    ensures
        forall|b: u64, j: u64|
            #![trigger m.bars[b].items.contains(j)]
            m.bars.dom().contains(b) && !teardown_bar(m, bar, fuel).bars.dom().contains(b)
                && m.bars[b].items.contains(j) ==> !teardown_bar(
                m,
                bar,
                fuel,
            ).items.dom().contains(j),
    decreases fuel, 0nat, 0nat,
{
    if fuel == 0 || !m.bars.dom().contains(bar) {
    } else {
        let b0 = m.bars[bar];
        let m0 = TouchbarModel { bars: m.bars.remove(bar), ..m };
        let fr = free_items(m0, b0.items);
        let m2 = after_bar_phase(m, bar);
        let r = teardown_bar(m, bar, fuel);
        assert(r == teardown_list(m2, fr.1, (fuel - 1) as nat));
        lemma_free_items_removes(m0, b0.items);
        lemma_after_bar_phase_wf(m, bar);
        vstd::set::axiom_set_remove_len(m.bars.dom(), bar);
        lemma_wf_remove_bar(m, bar);
        lemma_shrink_preserves_wf(m0, m2);
        crate::model::lemma_free_items_bars(m0, b0.items);
        law_teardown_list_completeness(m2, fr.1, (fuel - 1) as nat);
        lemma_teardown_list_shrinks(m2, fr.1, (fuel - 1) as nat);
        assert forall|b: u64, j: u64|
            m.bars.dom().contains(b) && !r.bars.dom().contains(b) && #[trigger] m.bars[b].items.contains(
                j,
            ) implies !r.items.dom().contains(j) by {
            if b == bar {
                assert(!fr.0.items.dom().contains(j));
                assert(!m2.items.dom().contains(j));
            } else {
                assert(m2.bars.dom().contains(b));
                assert(m2.bars[b] == m.bars[b]);
                assert(m2.bars[b].items.contains(j));
            }
        }
    }
}

/// Teardown completeness, list form.
pub proof fn law_teardown_list_completeness(m: TouchbarModel, subs: Seq<u64>, fuel: nat)
    requires
        model_wf(m),
        fuel >= m.bars.dom().len(),
    ensures
        forall|b: u64, j: u64|
            #![trigger m.bars[b].items.contains(j)]
            m.bars.dom().contains(b) && !teardown_list(m, subs, fuel).bars.dom().contains(b)
                && m.bars[b].items.contains(j) ==> !teardown_list(
                m,
                subs,
                fuel,
            ).items.dom().contains(j),
    decreases fuel, 1nat, subs.len(),
{
    if subs.len() > 0 {
        let r1 = teardown_bar(m, subs[0], fuel);
        let r = teardown_list(m, subs, fuel);
        law_teardown_bar_completeness(m, subs[0], fuel);
        lemma_teardown_bar_shrinks(m, subs[0], fuel);
        lemma_shrink_preserves_wf(m, r1);
        law_teardown_list_completeness(r1, subs.drop_first(), fuel);
        lemma_teardown_list_shrinks(r1, subs.drop_first(), fuel);
        assert forall|b: u64, j: u64|
            m.bars.dom().contains(b) && !r.bars.dom().contains(b) && #[trigger] m.bars[b].items.contains(
                j,
            ) implies !r.items.dom().contains(j) by {
            if r1.bars.dom().contains(b) {
                assert(r1.bars[b] == m.bars[b]);
                assert(r1.bars[b].items.contains(j));
            } else {
                assert(!r1.items.dom().contains(j));
            }
        }
    }
}

/// A teardown unregisters the bar it is asked to tear down.
proof fn lemma_teardown_removes_bar(m: TouchbarModel, bar: u64, fuel: nat)
    requires
        model_wf(m),
        m.bars.dom().contains(bar),
        fuel >= m.bars.dom().len(),
    ensures
        !teardown_bar(m, bar, fuel).bars.dom().contains(bar),
{
    vstd::set::axiom_set_remove_len(m.bars.dom(), bar);
    let b0 = m.bars[bar];
    let m0 = TouchbarModel { bars: m.bars.remove(bar), ..m };
    let fr = free_items(m0, b0.items);
    let m2 = after_bar_phase(m, bar);
    lemma_free_items_shrinks(m0, b0.items);
    crate::model::lemma_free_items_bars(m0, b0.items);
    lemma_after_bar_phase_wf(m, bar);
    assert(teardown_bar(m, bar, fuel) == teardown_list(m2, fr.1, (fuel - 1) as nat));
    lemma_teardown_list_shrinks(m2, fr.1, (fuel - 1) as nat);
}

/// Tearing down a list of bars unregisters every bar in the list.
proof fn lemma_teardown_list_removes_bars(m: TouchbarModel, subs: Seq<u64>, fuel: nat, c: u64)
    requires
        model_wf(m),
        fuel >= m.bars.dom().len(),
        subs.contains(c),
    ensures
        !teardown_list(m, subs, fuel).bars.dom().contains(c),
    decreases subs.len(),
{
    let r1 = teardown_bar(m, subs[0], fuel);
    lemma_teardown_bar_shrinks(m, subs[0], fuel);
    lemma_shrink_preserves_wf(m, r1);
    if subs[0] == c {
        if m.bars.dom().contains(c) {
            lemma_teardown_removes_bar(m, c, fuel);
        }
        lemma_teardown_list_shrinks(r1, subs.drop_first(), fuel);
    } else {
        let i = choose|i: int| 0 <= i < subs.len() && subs[i] == c;
        assert(subs.drop_first()[i - 1] == c);
        lemma_teardown_list_removes_bars(r1, subs.drop_first(), fuel, c);
    }
}

/// Recursive teardown completeness: given a root bar carrying a popover
/// item that points to a registered child bar, replacing that root
/// unregisters the root, all the root's items, the child bar, and all the
/// child bar's items.
pub proof fn law_recursive_teardown_completeness(
    m: TouchbarModel,
    root: u64,
    p: u64,
    c: u64,
    fuel: nat,
)
    requires
        model_wf(m),
        fuel >= m.bars.dom().len(),
        m.bars.dom().contains(root),
        m.bars[root].items.contains(p),
        m.items.dom().contains(p),
        m.items[p].child_bar == Some(c),
        m.bars.dom().contains(c),
    ensures
        !teardown_bar(m, root, fuel).bars.dom().contains(root),
        forall|i: u64| #[trigger]
            m.bars[root].items.contains(i) ==> !teardown_bar(m, root, fuel).items.dom().contains(i),
        !teardown_bar(m, root, fuel).bars.dom().contains(c),
        forall|j: u64| #[trigger]
            m.bars[c].items.contains(j) ==> !teardown_bar(m, root, fuel).items.dom().contains(j),
{
    let r = teardown_bar(m, root, fuel);
    vstd::set::axiom_set_remove_len(m.bars.dom(), root);
    lemma_teardown_removes_bar(m, root, fuel);
    law_teardown_bar_completeness(m, root, fuel);
    let b0 = m.bars[root];
    let m0 = TouchbarModel { bars: m.bars.remove(root), ..m };
    let fr = free_items(m0, b0.items);
    let m2 = after_bar_phase(m, root);
    lemma_free_items_collects(m0, b0.items, p, c);
    lemma_after_bar_phase_wf(m, root);
    crate::model::lemma_free_items_bars(m0, b0.items);
    lemma_wf_remove_bar(m, root);
    lemma_shrink_preserves_wf(m0, m2);
    assert(r == teardown_list(m2, fr.1, (fuel - 1) as nat));
    lemma_teardown_list_removes_bars(m2, fr.1, (fuel - 1) as nat, c);
    assert forall|i: u64| #[trigger] m.bars[root].items.contains(i) implies !r.items.dom().contains(
        i,
    ) by {
        assert(m.bars[root].items.contains(i) && m.bars.dom().contains(root)
            && !r.bars.dom().contains(root));
    }
    assert forall|j: u64| #[trigger] m.bars[c].items.contains(j) implies !r.items.dom().contains(
        j,
    ) by {
        assert(m.bars[c].items.contains(j) && m.bars.dom().contains(c) && !r.bars.dom().contains(
            c,
        ));
    }
}

/// A prefix index reads the same value through the longer sequence.
proof fn lemma_prefix_index(a: Seq<u64>, b: Seq<u64>, p: int)
    requires
        a.is_prefix_of(b),
        0 <= p < a.len(),
    ensures
        b[p] == a[p],
{
    assert(b.subrange(0, a.len() as int)[p] == b[p]);
}

/// Freeing a list of items releases every listed, registered item's own
/// object within that phase of the trace.
proof fn lemma_free_items_trace(m: TouchbarModel, ids: Seq<u64>)
    requires
        model_wf(m),
    ensures
        forall|x: u64| #![trigger ids.contains(x)]
            ids.contains(x) && m.items.dom().contains(x) ==> exists|p: int|
                m.store.trace.len() <= p < free_items(m, ids).0.store.trace.len() && free_items(
                    m,
                    ids,
                ).0.store.trace[p] == x,
    decreases ids.len(),
{
    if ids.len() > 0 {
        let m1 = free_one_item(m, ids[0]).0;
        crate::model::lemma_free_one_item_shrinks(m, ids[0]);
        lemma_shrink_preserves_wf(m, m1);
        lemma_free_items_trace(m1, ids.drop_first());
        lemma_free_items_shrinks(m1, ids.drop_first());
        let fin = free_items(m, ids).0;
        assert forall|x: u64|
            ids.contains(x) && m.items.dom().contains(x) implies exists|p: int|
            m.store.trace.len() <= p < fin.store.trace.len() && fin.store.trace[p] == x by {
            if x == ids[0] {
                let it = m.items[x];
                let base: int = match it.control {
                    Some(c) => if !(it.kind is Slider) {
                        m.store.trace.len() as int + 1
                    } else {
                        m.store.trace.len() as int
                    },
                    None => m.store.trace.len() as int,
                };
                assert(it.view == x);
                assert(m1.store.trace[base] == x);
                assert(m.store.trace.len() <= base < m1.store.trace.len());
                lemma_prefix_index(m1.store.trace, fin.store.trace, base);
            } else {
                let i = choose|i: int| 0 <= i < ids.len() && ids[i] == x;
                assert(ids.drop_first()[i - 1] == x);
                assert(ids.drop_first().contains(x));
                assert(m1.items.dom().contains(x) && m1.items[x] == m.items[x]);
                let p = choose|p: int|
                    m1.store.trace.len() <= p < fin.store.trace.len() && fin.store.trace[p] == x;
                assert(m.store.trace.len() <= p);
            }
        }
    }
}

/// Teardown order: within one bar's item list, every registered item's
/// own object is released strictly before the bar's own release and
/// before any release performed for the bar's child bars — the items
/// phase of the trace ends, then the bar's identity and object are
/// released, and only then does the recursion into child bars extend the
/// trace.
pub proof fn law_items_freed_before_subbars(m: TouchbarModel, bar: u64, fuel: nat)
    requires
        model_wf(m),
        m.bars.dom().contains(bar),
        1 <= fuel,
    ensures
        ({
            let b = m.bars[bar];
            let m0 = TouchbarModel { bars: m.bars.remove(bar), ..m };
            let fr = free_items(m0, b.items);
            let r = teardown_bar(m, bar, fuel);
            &&& fr.0.store.trace.push(b.ident).push(bar).is_prefix_of(r.store.trace)
            &&& forall|i: u64| #[trigger]
                b.items.contains(i) && m.items.dom().contains(i) ==> exists|p: int|
                    m.store.trace.len() <= p < fr.0.store.trace.len() && r.store.trace[p] == i
        }),
{
    let b = m.bars[bar];
    let m0 = TouchbarModel { bars: m.bars.remove(bar), ..m };
    let fr = free_items(m0, b.items);
    let m2 = after_bar_phase(m, bar);
    let r = teardown_bar(m, bar, fuel);
    assert(r == teardown_list(m2, fr.1, (fuel - 1) as nat));
    lemma_wf_remove_bar(m, bar);
    lemma_free_items_trace(m0, b.items);
    lemma_teardown_list_shrinks(m2, fr.1, (fuel - 1) as nat);
    assert(m2.store.trace == fr.0.store.trace.push(b.ident).push(bar));
    assert forall|i: u64| #[trigger]
        b.items.contains(i) && m.items.dom().contains(i) implies exists|p: int|
        m.store.trace.len() <= p < fr.0.store.trace.len() && r.store.trace[p] == i by {
        let p = choose|p: int|
            m0.store.trace.len() <= p < fr.0.store.trace.len() && fr.0.store.trace[p] == i;
        assert(fr.0.store.trace.is_prefix_of(m2.store.trace)) by {
            assert(fr.0.store.trace =~= m2.store.trace.subrange(
                0,
                fr.0.store.trace.len() as int,
            ));
        }
        lemma_prefix_index(fr.0.store.trace, m2.store.trace, p);
        lemma_prefix_index(m2.store.trace, r.store.trace, p);
    }
}

/// Dispatcher miss-safety: a native reference that is no registered
/// item's control dispatches to nothing — no callback is resolved.
pub proof fn law_dispatch_miss(s: Seq<(u64, InternalItem)>, sender: u64)
    requires
        forall|i: int| 0 <= i < s.len() ==> (#[trigger] s[i]).1.control != Some(sender),
    ensures
        crate::dispatch::spec_dispatch_button(s, sender) is None,
        crate::dispatch::spec_dispatch_tap(s, sender) is None,
        crate::dispatch::sf_view_from_control(s, sender) is None,
    decreases s.len(),
{
    if s.len() > 0 {
        assert(s[0].1.control != Some(sender));
        assert(forall|i: int|
            0 <= i < s.drop_first().len() ==> (#[trigger] s.drop_first()[i]).1.control != Some(
                sender,
            )) by {
            assert(forall|i: int|
                0 <= i < s.drop_first().len() ==> s.drop_first()[i] == s[i + 1]);
        }
        law_dispatch_miss(s.drop_first(), sender);
    }
}

} // verus!
