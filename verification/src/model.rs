//! Mathematical model of the whole controller: the object store, the two
//! registries, the identity serial, and the root registration — together
//! with the recursive teardown function that defines what replacing the
//! root bar does.

use vstd::prelude::*;

use crate::interface::ItemKind;
use crate::store::{ClassModel, ObjModel, StoreModel, spec_release, store_model_wf};

verus! {

/// A registered item record.  All references are opaque object references
/// into the store; callback and data-source tokens belong to the host.
#[derive(Clone, Copy, Debug)]
pub struct InternalItem {
    /// The item's kind.
    pub kind: ItemKind,
    /// The item container object; equal to the handle the item is
    /// registered under.
    pub view: u64,
    /// The identity string object.
    pub ident: u64,
    /// The control that receives input (button, text field, slider,
    /// scrubber), when the item has one.
    pub control: Option<u64>,
    /// The shared data source token of a scrubber.
    pub data_source: Option<u64>,
    /// Callback token invoked on button press.
    pub button_cb: Option<u64>,
    /// Callback token invoked on slider movement.
    pub slider_cb: Option<u64>,
    /// Callback token invoked on swipe gestures.
    pub swipe_cb: Option<u64>,
    /// Callback token invoked on tap gestures.
    pub tap_cb: Option<u64>,
    /// The bar presented by a popover item.
    pub child_bar: Option<u64>,
}

impl View for InternalItem {
    type V = InternalItem;

    open spec fn view(&self) -> InternalItem {
        *self
    }
}

/// A registered bar record, as seen by contracts.
#[verifier::ext_equal]
pub struct BarModel {
    /// The bar object; equal to the handle the bar is registered under.
    pub view: u64,
    /// The identity string object.
    pub ident: u64,
    /// The items placed on the bar, in display order.
    pub items: Seq<u64>,
}

/// The full model state of a controller.
#[verifier::ext_equal]
pub struct TouchbarModel {
    /// The native object store.
    pub store: StoreModel,
    /// The bar registry.
    pub bars: Map<u64, BarModel>,
    /// The item registry.
    pub items: Map<u64, InternalItem>,
    /// Serial number of the next generated identity.
    pub next_serial: u64,
    /// The bar currently registered as root, if any.
    pub root: Option<u64>,
    /// The identity object of the root bar, if any.
    pub root_ident: Option<u64>,
    /// The control-strip title.
    pub title: Seq<char>,
    /// The control-strip icon image, if one was set.
    pub icon: Option<u64>,
    /// The tray item currently registered with the control strip.
    pub tray: Option<u64>,
}

/// Core well-formedness of a model state.  (Root consistency is stated
/// separately, since teardown transiently unregisters the root bar.)
pub open spec fn model_wf(m: TouchbarModel) -> bool {
    &&& store_model_wf(m.store)
    &&& m.bars.dom().finite()
    &&& m.items.dom().finite()
    &&& forall|k: u64| #[trigger]
        m.bars.dom().contains(k) ==> m.bars[k].view == k && 0 < k < m.store.next
            && m.bars[k].ident < m.store.next
    &&& forall|k: u64| #[trigger]
        m.items.dom().contains(k) ==> m.items[k].view == k && 0 < k < m.store.next
            && m.items[k].ident < m.store.next && (m.items[k].control matches Some(c) ==> c
            < m.store.next) && (m.items[k].kind is Popover <==> m.items[k].child_bar is Some)
}

/// Root consistency: a registered root refers to a live bar and carries
/// that bar's identity.
pub open spec fn root_ok(m: TouchbarModel) -> bool {
    &&& (m.root matches Some(r) ==> m.bars.dom().contains(r) && m.root_ident == Some(
        m.bars[r].ident,
    ))
    &&& (m.root is None ==> m.root_ident is None)
}

/// Allocation in the model store.
pub open spec fn spec_alloc(s: StoreModel, class: ClassModel, rc: u64) -> (StoreModel, u64) {
    (
        StoreModel {
            objects: s.objects.insert(s.next, ObjModel { rc, class }),
            next: (s.next + 1) as u64,
            trace: s.trace,
        },
        s.next,
    )
}

/// Releases an item's native objects: its control (sliders excepted, whose
/// control is owned by the item object itself), its view, and its identity
/// string, in that order.
pub open spec fn free_item_store(s: StoreModel, it: InternalItem) -> StoreModel {
    let s1 = match it.control {
        Some(c) => if !(it.kind is Slider) {
            spec_release(s, c)
        } else {
            s
        },
        None => s,
    };
    let s2 = spec_release(s1, it.view);
    spec_release(s2, it.ident)
}

/// Frees one registered item: removes it from the registry, releases its
/// native objects, and reports the child bar to recurse into if the item
/// was a popover.  Unregistered handles are skipped.
pub open spec fn free_one_item(m: TouchbarModel, id: u64) -> (TouchbarModel, Seq<u64>) {
    if m.items.dom().contains(id) {
        let it = m.items[id];
        let m1 = TouchbarModel {
            items: m.items.remove(id),
            store: free_item_store(m.store, it),
            ..m
        };
        if it.kind is Popover {
            match it.child_bar {
                Some(c) => (m1, seq![c]),
                None => (m1, Seq::empty()),
            }
        } else {
            (m1, Seq::empty())
        }
    } else {
        (m, Seq::empty())
    }
}

/// Frees a bar's items front to back, collecting the child bars of its
/// popover items in order.
pub open spec fn free_items(m: TouchbarModel, ids: Seq<u64>) -> (TouchbarModel, Seq<u64>)
    decreases ids.len(),
{
    if ids.len() == 0 {
        (m, Seq::<u64>::empty())
    } else {
        let r1 = free_one_item(m, ids[0]);
        let r2 = free_items(r1.0, ids.drop_first());
        (r2.0, r1.1 + r2.1)
    }
}

/// Tears one bar down: unregisters it, frees its items in order, releases
/// the bar's identity and the bar object itself, then recurses into the
/// child bars its popover items pointed to.  `fuel` bounds the recursion
/// depth; any fuel at least the number of registered bars is enough, since
/// every level unregisters a bar first.
pub open spec fn teardown_bar(m: TouchbarModel, bar: u64, fuel: nat) -> TouchbarModel
    decreases fuel, 0nat, 0nat,
{
    if fuel == 0 || !m.bars.dom().contains(bar) {
        m
    } else {
        let b = m.bars[bar];
        let m0 = TouchbarModel { bars: m.bars.remove(bar), ..m };
        let r = free_items(m0, b.items);
        let m2 = TouchbarModel {
            store: spec_release(spec_release(r.0.store, b.ident), bar),
            ..r.0
        };
        teardown_list(m2, r.1, (fuel - 1) as nat)
    }
}

/// Tears a list of bars down, in order.
pub open spec fn teardown_list(m: TouchbarModel, subs: Seq<u64>, fuel: nat) -> TouchbarModel
    decreases fuel, 1nat, subs.len(),
{
    if subs.len() == 0 {
        m
    } else {
        teardown_list(teardown_bar(m, subs[0], fuel), subs.drop_first(), fuel)
    }
}

/// What teardown leaves alone and what it can only do: registries only
/// lose entries (surviving records unchanged), store objects only lose
/// retains (classes unchanged), the reference counter stands still, the
/// release trace only grows, and the generator, root registration, title,
/// icon and tray are untouched.
pub open spec fn shrinks_to(m: TouchbarModel, r: TouchbarModel) -> bool {
    &&& forall|k: u64| #[trigger] r.bars.dom().contains(k) ==> m.bars.dom().contains(k) && r.bars[k]
        == m.bars[k]
    &&& forall|k: u64| #[trigger] r.items.dom().contains(k) ==> m.items.dom().contains(k)
        && r.items[k] == m.items[k]
    &&& forall|k: u64| #[trigger] r.store.objects.dom().contains(k) ==> m.store.objects.dom().contains(
        k,
    ) && r.store.objects[k].class == m.store.objects[k].class && r.store.objects[k].rc
        <= m.store.objects[k].rc
    &&& r.store.next == m.store.next
    &&& m.store.trace.is_prefix_of(r.store.trace)
    &&& r.next_serial == m.next_serial
    &&& r.root == m.root
    &&& r.root_ident == m.root_ident
    &&& r.title == m.title
    &&& r.icon == m.icon
    &&& r.tray == m.tray
}

/// `shrinks_to` composes.
pub proof fn lemma_shrinks_trans(a: TouchbarModel, b: TouchbarModel, c: TouchbarModel)
    requires
        shrinks_to(a, b),
        shrinks_to(b, c),
    ensures
        shrinks_to(a, c),
{
    assert(a.store.trace.is_prefix_of(c.store.trace)) by {
        assert(a.store.trace =~= c.store.trace.subrange(0, a.store.trace.len() as int));
    }
}

/// A release only shrinks the store.
proof fn lemma_release_shrinks(m: TouchbarModel, r: u64)
    ensures
        shrinks_to(m, TouchbarModel { store: spec_release(m.store, r), ..m }),
{
    let s = spec_release(m.store, r);
    assert(m.store.trace.is_prefix_of(s.trace)) by {
        assert(m.store.trace =~= s.trace.subrange(0, m.store.trace.len() as int));
    }
}

/// Freeing one item only shrinks the state.
pub proof fn lemma_free_one_item_shrinks(m: TouchbarModel, id: u64)
    ensures
        shrinks_to(m, free_one_item(m, id).0),
{
    if m.items.dom().contains(id) {
        let it = m.items[id];
        let ma = TouchbarModel { items: m.items.remove(id), ..m };
        assert(shrinks_to(m, ma)) by {
            assert(m.store.trace =~= m.store.trace.subrange(0, m.store.trace.len() as int));
        }
        match it.control {
            Some(c) => if !(it.kind is Slider) {
                lemma_release_shrinks(ma, c);
            },
            None => (),
        }
        let mb = TouchbarModel {
            store: match it.control {
                Some(c) => if !(it.kind is Slider) {
                    spec_release(ma.store, c)
                } else {
                    ma.store
                },
                None => ma.store,
            },
            ..ma
        };
        lemma_release_shrinks(mb, it.view);
        let mc = TouchbarModel { store: spec_release(mb.store, it.view), ..mb };
        lemma_release_shrinks(mc, it.ident);
        let md = TouchbarModel { store: spec_release(mc.store, it.ident), ..mc };
        assert(md == free_one_item(m, id).0);
        lemma_shrinks_trans(m, ma, mb);
        lemma_shrinks_trans(m, mb, mc);
        lemma_shrinks_trans(m, mc, md);
    } else {
        assert(m.store.trace =~= m.store.trace.subrange(0, m.store.trace.len() as int));
    }
}

/// Freeing an item list only shrinks the state.
pub proof fn lemma_free_items_shrinks(m: TouchbarModel, ids: Seq<u64>)
    ensures
        shrinks_to(m, free_items(m, ids).0),
    decreases ids.len(),
{
    if ids.len() == 0 {
        assert(m.store.trace =~= m.store.trace.subrange(0, m.store.trace.len() as int));
    } else {
        lemma_free_one_item_shrinks(m, ids[0]);
        lemma_free_items_shrinks(free_one_item(m, ids[0]).0, ids.drop_first());
        lemma_shrinks_trans(m, free_one_item(m, ids[0]).0, free_items(m, ids).0);
    }
}

/// Freeing items never touches the bar registry.
pub proof fn lemma_free_items_bars(m: TouchbarModel, ids: Seq<u64>)
    ensures
        free_items(m, ids).0.bars == m.bars,
    decreases ids.len(),
{
    if ids.len() > 0 {
        lemma_free_items_bars(free_one_item(m, ids[0]).0, ids.drop_first());
    }
}

/// Teardown only shrinks the state.
pub proof fn lemma_teardown_bar_shrinks(m: TouchbarModel, bar: u64, fuel: nat)
    ensures
        shrinks_to(m, teardown_bar(m, bar, fuel)),
    decreases fuel, 0nat, 0nat,
{
    if fuel == 0 || !m.bars.dom().contains(bar) {
        assert(m.store.trace =~= m.store.trace.subrange(0, m.store.trace.len() as int));
    } else {
        let b = m.bars[bar];
        let m0 = TouchbarModel { bars: m.bars.remove(bar), ..m };
        assert(shrinks_to(m, m0)) by {
            assert(m.store.trace =~= m.store.trace.subrange(0, m.store.trace.len() as int));
        }
        let r = free_items(m0, b.items);
        lemma_free_items_shrinks(m0, b.items);
        let ma = TouchbarModel { store: spec_release(r.0.store, b.ident), ..r.0 };
        lemma_release_shrinks(r.0, b.ident);
        let m2 = TouchbarModel { store: spec_release(ma.store, bar), ..ma };
        lemma_release_shrinks(ma, bar);
        lemma_teardown_list_shrinks(m2, r.1, (fuel - 1) as nat);
        lemma_shrinks_trans(m, m0, r.0);
        lemma_shrinks_trans(m, r.0, ma);
        lemma_shrinks_trans(m, ma, m2);
        lemma_shrinks_trans(m, m2, teardown_list(m2, r.1, (fuel - 1) as nat));
    }
}

/// Tearing a list of bars down only shrinks the state.
pub proof fn lemma_teardown_list_shrinks(m: TouchbarModel, subs: Seq<u64>, fuel: nat)
    ensures
        shrinks_to(m, teardown_list(m, subs, fuel)),
    decreases fuel, 1nat, subs.len(),
{
    if subs.len() == 0 {
        assert(m.store.trace =~= m.store.trace.subrange(0, m.store.trace.len() as int));
    } else {
        lemma_teardown_bar_shrinks(m, subs[0], fuel);
        lemma_teardown_list_shrinks(teardown_bar(m, subs[0], fuel), subs.drop_first(), fuel);
        lemma_shrinks_trans(m, teardown_bar(m, subs[0], fuel), teardown_list(m, subs, fuel));
    }
}

/// A shrunken state of a well-formed state is well-formed, and its
/// registries are no larger.
pub proof fn lemma_shrink_preserves_wf(m: TouchbarModel, r: TouchbarModel)
    requires
        model_wf(m),
        shrinks_to(m, r),
    ensures
        model_wf(r),
        r.bars.dom().len() <= m.bars.dom().len(),
        r.items.dom().len() <= m.items.dom().len(),
{
    assert(r.bars.dom() <= m.bars.dom());
    assert(r.items.dom() <= m.items.dom());
    assert(r.store.objects.dom() <= m.store.objects.dom());
    vstd::set_lib::lemma_len_subset(r.bars.dom(), m.bars.dom());
    vstd::set_lib::lemma_len_subset(r.items.dom(), m.items.dom());
}

/// Whether there is room to create one more UI element (each create
/// allocates at most four objects) and one more identity serial.
pub open spec fn can_create(m: TouchbarModel) -> bool {
    &&& m.store.next + 4 <= u64::MAX
    &&& m.next_serial < u64::MAX
}

/// The class of a live object, if the reference is live.
pub open spec fn obj_class(s: StoreModel, r: u64) -> Option<ClassModel> {
    if s.objects.dom().contains(r) {
        Some(s.objects[r].class)
    } else {
        None
    }
}

/// Replaces the state of a live object, keeping its retain count; dead
/// references are ignored.
pub open spec fn set_class(s: StoreModel, r: u64, class: ClassModel) -> StoreModel {
    if s.objects.dom().contains(r) {
        StoreModel {
            objects: s.objects.insert(r, ObjModel { rc: s.objects[r].rc, class }),
            next: s.next,
            trace: s.trace,
        }
    } else {
        s
    }
}

/// The contents of a live string object.
pub open spec fn text_of(s: StoreModel, r: u64) -> Option<Seq<char>> {
    match obj_class(s, r) {
        Some(ClassModel::Text { contents }) => Some(contents),
        _ => None,
    }
}

/// Whether a label text asks for the multi-line (smaller) font.
pub open spec fn contains_newline(s: Seq<char>) -> bool {
    exists|i: int| 0 <= i < s.len() && s[i] == '\n'
}

/// Generating an identity: allocates the string object for the current
/// serial and advances the serial.
pub open spec fn model_generate(m: TouchbarModel) -> (TouchbarModel, u64) {
    let a = spec_alloc(
        m.store,
        ClassModel::Text { contents: crate::ident::spec_ident(m.next_serial as nat) },
        1,
    );
    (TouchbarModel { store: a.0, next_serial: (m.next_serial + 1) as u64, ..m }, a.1)
}

/// Creating an empty bar: an identity and a bar object, registered empty.
pub open spec fn model_create_bar(m: TouchbarModel) -> (TouchbarModel, u64) {
    let g = model_generate(m);
    let a = spec_alloc(g.0.store, ClassModel::Bar { display_idents: Seq::empty() }, 1);
    let bar = a.1;
    (
        TouchbarModel {
            store: a.0,
            bars: g.0.bars.insert(bar, BarModel { view: bar, ident: g.1, items: Seq::empty() }),
            ..g.0
        },
        bar,
    )
}

/// Allocating a button control: `0` (nil) when neither an image nor a
/// title is given.  A given image object is consumed: its source is copied
/// onto the button and the image is released.
pub open spec fn model_alloc_button(
    m: TouchbarModel,
    image: Option<u64>,
    text: Option<Seq<char>>,
) -> (TouchbarModel, u64) {
    if image is None && text is None {
        (m, 0)
    } else {
        let source = match image {
            Some(i) => match obj_class(m.store, i) {
                Some(ClassModel::Image { source }) => Some(source),
                _ => None,
            },
            None => None,
        };
        let a = spec_alloc(
            m.store,
            ClassModel::ButtonControl { title: text, image: source, width: None },
            1,
        );
        let s2 = match image {
            Some(i) => spec_release(a.0, i),
            None => a.0,
        };
        (TouchbarModel { store: s2, ..m }, a.1)
    }
}

/// The registered item record shared by every create operation.
pub open spec fn blank_item(kind: ItemKind, view: u64, ident: u64) -> InternalItem {
    InternalItem {
        kind,
        view,
        ident,
        control: None,
        data_source: None,
        button_cb: None,
        slider_cb: None,
        swipe_cb: None,
        tap_cb: None,
        child_bar: None,
    }
}

/// Creating a button item: identity, button control, item container.
pub open spec fn model_create_button(
    m: TouchbarModel,
    image: Option<u64>,
    text: Option<Seq<char>>,
    cb: u64,
) -> (TouchbarModel, u64) {
    let g = model_generate(m);
    let b = model_alloc_button(g.0, image, text);
    let a = spec_alloc(b.0.store, ClassModel::ItemContainer { content: b.1 }, 1);
    let item = a.1;
    let rec = InternalItem {
        control: Some(b.1),
        button_cb: Some(cb),
        ..blank_item(ItemKind::Button, item, g.1)
    };
    (TouchbarModel { store: a.0, items: b.0.items.insert(item, rec), ..b.0 }, item)
}

/// Creating a popover item: identity, button control, item container; the
/// given bar becomes the item's child bar.
pub open spec fn model_create_popover_item(
    m: TouchbarModel,
    image: Option<u64>,
    text: Option<Seq<char>>,
    bar: u64,
) -> (TouchbarModel, u64) {
    let g = model_generate(m);
    let b = model_alloc_button(g.0, image, text);
    let a = spec_alloc(b.0.store, ClassModel::ItemContainer { content: b.1 }, 1);
    let item = a.1;
    let rec = InternalItem {
        control: Some(b.1),
        child_bar: Some(bar),
        ..blank_item(ItemKind::Popover, item, g.1)
    };
    (TouchbarModel { store: a.0, items: b.0.items.insert(item, rec), ..b.0 }, item)
}

/// Creating a label: identity, text-field control, item container.
pub open spec fn model_create_label(m: TouchbarModel, text: Seq<char>) -> (TouchbarModel, u64) {
    let g = model_generate(m);
    let c = spec_alloc(
        g.0.store,
        ClassModel::LabelControl { text, multiline: contains_newline(text), width: None },
        1,
    );
    let a = spec_alloc(c.0, ClassModel::ItemContainer { content: c.1 }, 1);
    let item = a.1;
    let rec = InternalItem { control: Some(c.1), ..blank_item(ItemKind::Label, item, g.1) };
    (TouchbarModel { store: a.0, items: g.0.items.insert(item, rec), ..g.0 }, item)
}

/// Creating a text scrubber: identity, scrubber control, item container;
/// the data-source token is recorded for the dispatcher.
pub open spec fn model_create_text_scrubber(m: TouchbarModel, data: u64) -> (TouchbarModel, u64) {
    let g = model_generate(m);
    let c = spec_alloc(g.0.store, ClassModel::ScrubberControl { selected: None }, 1);
    let a = spec_alloc(c.0, ClassModel::ItemContainer { content: c.1 }, 1);
    let item = a.1;
    let rec = InternalItem {
        control: Some(c.1),
        data_source: Some(data),
        ..blank_item(ItemKind::Scrubber, item, g.1)
    };
    (TouchbarModel { store: a.0, items: g.0.items.insert(item, rec), ..g.0 }, item)
}

/// Creating a slider: identity, then a single object that is both the
/// item and its slider control.  The value starts at the minimum.
pub open spec fn model_create_slider(
    m: TouchbarModel,
    min: u64,
    max: u64,
    continuous: bool,
    cb: u64,
) -> (TouchbarModel, u64) {
    let g = model_generate(m);
    let a = spec_alloc(g.0.store, ClassModel::SliderItem { min, max, value: min, continuous }, 1);
    let item = a.1;
    let rec = InternalItem {
        control: Some(item),
        slider_cb: Some(cb),
        ..blank_item(ItemKind::Slider, item, g.1)
    };
    (TouchbarModel { store: a.0, items: g.0.items.insert(item, rec), ..g.0 }, item)
}

/// Creating a spacer: one string object serves as both the item's view
/// and its identity, so it is retained twice and both references are
/// released at teardown.
pub open spec fn model_create_spacer(m: TouchbarModel, marker: Seq<char>) -> (TouchbarModel, u64) {
    let a = spec_alloc(m.store, ClassModel::Text { contents: marker }, 2);
    let item = a.1;
    let rec = blank_item(ItemKind::Spacer, item, item);
    (TouchbarModel { store: a.0, items: m.items.insert(item, rec), ..m }, item)
}

/// Creating an image object from a path or template name.
pub open spec fn model_create_image(m: TouchbarModel, source: Seq<char>) -> (TouchbarModel, u64) {
    let a = spec_alloc(m.store, ClassModel::Image { source }, 1);
    (TouchbarModel { store: a.0, ..m }, a.1)
}

/// Setting the control-strip icon: allocates an image from the path and
/// remembers it.
pub open spec fn model_set_icon(m: TouchbarModel, path: Seq<char>) -> TouchbarModel {
    let a = spec_alloc(m.store, ClassModel::Image { source: path }, 1);
    TouchbarModel { store: a.0, icon: Some(a.1), ..m }
}

/// The identities of the registered items among `ids`, in order.
pub open spec fn resolved_idents(m: TouchbarModel, ids: Seq<u64>) -> Seq<u64>
    decreases ids.len(),
{
    if ids.len() == 0 {
        Seq::<u64>::empty()
    } else {
        let rest = resolved_idents(m, ids.drop_first());
        if m.items.dom().contains(ids[0]) {
            seq![m.items[ids[0]].ident] + rest
        } else {
            rest
        }
    }
}

/// The registered handles among `ids`, in order.
pub open spec fn kept_ids(m: TouchbarModel, ids: Seq<u64>) -> Seq<u64>
    decreases ids.len(),
{
    if ids.len() == 0 {
        Seq::<u64>::empty()
    } else {
        let rest = kept_ids(m, ids.drop_first());
        if m.items.dom().contains(ids[0]) {
            seq![ids[0]] + rest
        } else {
            rest
        }
    }
}

/// Adding items to a bar: handles that do not resolve are skipped, the
/// rest are appended to the bar's ordered list, and the bar object is
/// handed the identity list of the resulting order.  Unknown bars are
/// ignored.
pub open spec fn model_add_items(m: TouchbarModel, bar: u64, ids: Seq<u64>) -> TouchbarModel {
    if m.bars.dom().contains(bar) {
        let b = m.bars[bar];
        let kept = kept_ids(m, ids);
        let new_items = b.items + kept;
        let display = resolved_idents(m, new_items);
        TouchbarModel {
            bars: m.bars.insert(bar, BarModel { view: b.view, ident: b.ident, items: new_items }),
            store: set_class(m.store, bar, ClassModel::Bar { display_idents: display }),
            ..m
        }
    } else {
        m
    }
}

/// Refreshing the tray registration: the old tray item is released and a
/// new one is allocated, showing the icon if one is set, else the title.
pub open spec fn model_refresh_tray(m: TouchbarModel) -> TouchbarModel {
    let s1 = match m.tray {
        Some(t) => spec_release(m.store, t),
        None => m.store,
    };
    let a = spec_alloc(s1, ClassModel::TrayItem { uses_icon: m.icon is Some }, 1);
    TouchbarModel { store: a.0, tray: Some(a.1), ..m }
}

/// The fuel with which root replacement runs the teardown; always enough,
/// since every teardown level unregisters a bar.
pub open spec fn teardown_fuel(m: TouchbarModel) -> nat {
    m.bars.dom().len() + 1
}

/// The state after the current root's tree (if any) has been torn down.
pub open spec fn after_root_teardown(m: TouchbarModel) -> TouchbarModel {
    match m.root {
        Some(r) => teardown_bar(m, r, teardown_fuel(m)),
        None => m,
    }
}

/// Replacing the root bar: the previous root's whole tree is torn down,
/// the new bar is recorded as root with its identity, and the tray
/// registration is refreshed.
pub open spec fn model_set_root(m: TouchbarModel, bar: u64) -> TouchbarModel {
    let m1 = after_root_teardown(m);
    let m2 = TouchbarModel { root: Some(bar), root_ident: Some(m1.bars[bar].ident), ..m1 };
    model_refresh_tray(m2)
}

/// Updating a label's text, and its font for single- or multi-line
/// rendering; ignored unless the handle resolves to an item showing a
/// text field.
pub open spec fn model_update_label(m: TouchbarModel, id: u64, text: Seq<char>) -> TouchbarModel {
    match obj_class(m.store, id) {
        Some(ClassModel::ItemContainer { content }) => match obj_class(m.store, content) {
            Some(ClassModel::LabelControl { text: _, multiline: _, width }) => TouchbarModel {
                store: set_class(
                    m.store,
                    content,
                    ClassModel::LabelControl { text, multiline: contains_newline(text), width },
                ),
                ..m
            },
            _ => m,
        },
        _ => m,
    }
}

/// Pinning a label's width; ignored unless the handle resolves to an item
/// showing a text field.
pub open spec fn model_update_label_width(m: TouchbarModel, id: u64, w: u32) -> TouchbarModel {
    match obj_class(m.store, id) {
        Some(ClassModel::ItemContainer { content }) => match obj_class(m.store, content) {
            Some(ClassModel::LabelControl { text, multiline, width: _ }) => TouchbarModel {
                store: set_class(
                    m.store,
                    content,
                    ClassModel::LabelControl { text, multiline, width: Some(w) },
                ),
                ..m
            },
            _ => m,
        },
        _ => m,
    }
}

/// Updating a button's image and/or title.  A given image object is
/// consumed: if it is live its source replaces the button's, and it is
/// released either way.
pub open spec fn model_update_button(
    m: TouchbarModel,
    id: u64,
    image: Option<u64>,
    text: Option<Seq<char>>,
) -> TouchbarModel {
    match obj_class(m.store, id) {
        Some(ClassModel::ItemContainer { content }) => match obj_class(m.store, content) {
            Some(ClassModel::ButtonControl { title, image: old_img, width }) => {
                let new_img = match image {
                    Some(i) => match obj_class(m.store, i) {
                        Some(ClassModel::Image { source }) => Some(source),
                        _ => old_img,
                    },
                    None => old_img,
                };
                let new_title = match text {
                    Some(t) => Some(t),
                    None => title,
                };
                let s1 = set_class(
                    m.store,
                    content,
                    ClassModel::ButtonControl { title: new_title, image: new_img, width },
                );
                let s2 = match image {
                    Some(i) => spec_release(s1, i),
                    None => s1,
                };
                TouchbarModel { store: s2, ..m }
            },
            _ => m,
        },
        _ => m,
    }
}

/// Pinning a button's width; ignored unless the handle resolves to an
/// item showing a button.
pub open spec fn model_update_button_width(m: TouchbarModel, id: u64, w: u32) -> TouchbarModel {
    match obj_class(m.store, id) {
        Some(ClassModel::ItemContainer { content }) => match obj_class(m.store, content) {
            Some(ClassModel::ButtonControl { title, image, width: _ }) => TouchbarModel {
                store: set_class(
                    m.store,
                    content,
                    ClassModel::ButtonControl { title, image, width: Some(w) },
                ),
                ..m
            },
            _ => m,
        },
        _ => m,
    }
}

/// Setting a slider's current value; ignored unless the handle resolves
/// to a slider item.
pub open spec fn model_update_slider(m: TouchbarModel, id: u64, value: u64) -> TouchbarModel {
    match obj_class(m.store, id) {
        Some(ClassModel::SliderItem { min, max, value: _, continuous }) => TouchbarModel {
            store: set_class(m.store, id, ClassModel::SliderItem { min, max, value, continuous }),
            ..m
        },
        _ => m,
    }
}

/// Marking an index of a scrubber as selected; ignored unless the handle
/// resolves to an item showing a scrubber.
pub open spec fn model_select_scrubber(m: TouchbarModel, id: u64, index: u32) -> TouchbarModel {
    match obj_class(m.store, id) {
        Some(ClassModel::ItemContainer { content }) => match obj_class(m.store, content) {
            Some(ClassModel::ScrubberControl { selected: _ }) => TouchbarModel {
                store: set_class(
                    m.store,
                    content,
                    ClassModel::ScrubberControl { selected: Some(index) },
                ),
                ..m
            },
            _ => m,
        },
        _ => m,
    }
}

/// Attaching a swipe-gesture callback to an item with a visible control;
/// ignored otherwise.
pub open spec fn model_add_swipe(m: TouchbarModel, id: u64, cb: u64) -> TouchbarModel {
    if m.items.dom().contains(id) && m.items[id].control is Some {
        let it = m.items[id];
        TouchbarModel {
            items: m.items.insert(id, InternalItem { swipe_cb: Some(cb), ..it }),
            ..m
        }
    } else {
        m
    }
}

/// Attaching a tap-gesture callback to an item with a visible control;
/// ignored otherwise.
pub open spec fn model_add_tap(m: TouchbarModel, id: u64, cb: u64) -> TouchbarModel {
    if m.items.dom().contains(id) && m.items[id].control is Some {
        let it = m.items[id];
        TouchbarModel { items: m.items.insert(id, InternalItem { tap_cb: Some(cb), ..it }), ..m }
    } else {
        m
    }
}

/// Unregistering a bar preserves well-formedness.
pub proof fn lemma_wf_remove_bar(m: TouchbarModel, bar: u64)
    requires
        model_wf(m),
    ensures
        model_wf(TouchbarModel { bars: m.bars.remove(bar), ..m }),
{
}

/// A release preserves store well-formedness.
pub proof fn lemma_release_store_wf(s: StoreModel, r: u64)
    requires
        store_model_wf(s),
    ensures
        store_model_wf(spec_release(s, r)),
{
}

/// Registering one fresh item preserves well-formedness.
pub proof fn lemma_wf_add_item(m0: TouchbarModel, m1: TouchbarModel, id: u64, rec: InternalItem)
    requires
        model_wf(m0),
        store_model_wf(m1.store),
        m1.bars == m0.bars,
        m1.items == m0.items.insert(id, rec),
        m1.store.next >= m0.store.next,
        rec.view == id,
        0 < id < m1.store.next,
        rec.ident < m1.store.next,
        rec.control matches Some(c) ==> c < m1.store.next,
        rec.kind is Popover <==> rec.child_bar is Some,
    ensures
        model_wf(m1),
{
    assert(m1.items.dom() =~= m0.items.dom().insert(id));
}

/// Registering one fresh bar preserves well-formedness.
pub proof fn lemma_wf_add_bar(m0: TouchbarModel, m1: TouchbarModel, id: u64, rec: BarModel)
    requires
        model_wf(m0),
        store_model_wf(m1.store),
        m1.items == m0.items,
        m1.bars == m0.bars.insert(id, rec),
        m1.store.next >= m0.store.next,
        rec.view == id,
        0 < id < m1.store.next,
        rec.ident < m1.store.next,
    ensures
        model_wf(m1),
{
    assert(m1.bars.dom() =~= m0.bars.dom().insert(id));
}

/// A change that touches only the store (without lowering `next`)
/// preserves well-formedness of the registries.
pub proof fn lemma_wf_store_only(m0: TouchbarModel, m1: TouchbarModel)
    requires
        model_wf(m0),
        store_model_wf(m1.store),
        m1.bars == m0.bars,
        m1.items == m0.items,
        m1.store.next >= m0.store.next,
    ensures
        model_wf(m1),
{
}

/// Appending an id to the list being freed continues where the shorter
/// list left off.
pub proof fn lemma_free_items_snoc(m: TouchbarModel, ids: Seq<u64>, id: u64)
    ensures
        free_items(m, ids.push(id)) == {
            let r1 = free_items(m, ids);
            let r2 = free_one_item(r1.0, id);
            (r2.0, r1.1 + r2.1)
        },
    decreases ids.len(),
{
    reveal_with_fuel(free_items, 3);
    let r1 = free_items(m, ids);
    let r2 = free_one_item(r1.0, id);
    if ids.len() == 0 {
        assert(ids.push(id)[0] == id);
        assert(ids.push(id).drop_first() =~= Seq::<u64>::empty());
        assert(free_items(m, ids.push(id)).0 == r2.0);
        assert(free_items(m, ids.push(id)).1 =~= (r1.1 + r2.1));
    } else {
        assert(ids.push(id)[0] == ids[0]);
        assert(ids.push(id).drop_first() =~= ids.drop_first().push(id));
        let s1 = free_one_item(m, ids[0]);
        lemma_free_items_snoc(s1.0, ids.drop_first(), id);
        let a1 = free_items(s1.0, ids.drop_first());
        let a2 = free_one_item(a1.0, id);
        assert(free_items(m, ids.push(id)) == (a2.0, s1.1 + (a1.1 + a2.1)));
        assert(r1 == (a1.0, s1.1 + a1.1));
        assert(free_items(m, ids.push(id)).1 =~= (r1.1 + r2.1));
    }
}

} // verus!
