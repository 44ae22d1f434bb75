//! The controller: facade operations over the item and bar registries,
//! the identity generator, and the native object store.  Every operation's
//! contract states its exact effect as a transition of the model state.

use vstd::prelude::*;

use crate::ident::ident_text;
use crate::interface::{BarId, CallbackToken, ImageTemplate, ItemId, ItemKind, ScrubberDataRef,
    SpacerType, TouchbarImage};
use crate::model::{BarModel, InternalItem, TouchbarModel, blank_item, can_create,
    contains_newline, model_alloc_button, model_create_bar, model_create_button,
    model_create_image, model_create_label, model_create_popover_item, model_create_slider,
    model_create_spacer, model_create_text_scrubber, model_generate, model_set_icon, model_wf,
    root_ok};
use crate::registry::Registry;
use crate::store::{NativeClass, NativeStore};

verus! {

/// A registered bar record: its bar object, its identity string, and the
/// ordered items placed on it.
pub struct InternalBar {
    /// The bar object; equal to the handle the bar is registered under.
    pub view: u64,
    /// The identity string object.
    pub ident: u64,
    /// The items placed on the bar, in display order.
    pub items: Vec<u64>,
}

impl View for InternalBar {
    type V = BarModel;

    open spec fn view(&self) -> BarModel {
        BarModel { view: self.view, ident: self.ident, items: self.items@ }
    }
}

/// The Touch Bar controller: registries, identity generator, object
/// store, and the current root registration.
pub struct Touchbar {
    store: NativeStore,
    item_reg: Registry<InternalItem>,
    bar_reg: Registry<InternalBar>,
    next_item_id: u64,
    root_bar: Option<u64>,
    root_ident: Option<u64>,
    title: String,
    icon: Option<u64>,
    tray_item: Option<u64>,
}

impl View for Touchbar {
    type V = TouchbarModel;

    closed spec fn view(&self) -> TouchbarModel {
        TouchbarModel {
            store: self.store@,
            bars: self.bar_reg@,
            items: self.item_reg@,
            next_serial: self.next_item_id,
            root: self.root_bar,
            root_ident: self.root_ident,
            title: self.title@,
            icon: self.icon,
            tray: self.tray_item,
        }
    }
}

impl Touchbar {
    /// The registered items in registration order (handles increase, so
    /// this is also handle order).  Reverse lookups scan this sequence.
    pub closed spec fn items_seq(&self) -> Seq<(u64, InternalItem)> {
        self.item_reg.entries_seq()
    }

    /// Structural part of the invariant: the containers are well-formed.
    pub closed spec fn wf_containers(&self) -> bool {
        &&& self.store.wf()
        &&& self.item_reg.wf()
        &&& self.bar_reg.wf()
    }

    /// The invariant preserved by every operation except mid-teardown:
    /// containers are well-formed and the model state is well-formed.
    pub open spec fn wf_core(&self) -> bool {
        &&& self.wf_containers()
        &&& model_wf(self@)
    }

    /// The full invariant: additionally, the root registration refers to
    /// a live bar.
    pub open spec fn wf(&self) -> bool {
        &&& self.wf_core()
        &&& root_ok(self@)
    }

    /// Exports the connection between `items_seq` and the item map.
    pub proof fn lemma_items_seq(&self)
        requires
            self.wf_core(),
        ensures
            forall|k: u64|
                self@.items.dom().contains(k) <==> exists|i: int|
                    0 <= i < self.items_seq().len() && (#[trigger] self.items_seq()[i]).0 == k,
            forall|i: int|
                0 <= i < self.items_seq().len() ==> self@.items.dom().contains(
                    (#[trigger] self.items_seq()[i]).0,
                ) && self@.items[self.items_seq()[i].0] == self.items_seq()[i].1,
    {
        self.item_reg.lemma_view();
    }

    /// One-time construction of a controller with the given control-strip
    /// title.  Everything starts empty; no bar is registered as root.
    pub fn alloc_controller(title: &str) -> (r: Touchbar)
        ensures
            r.wf(),
            r@.bars == Map::<u64, BarModel>::empty(),
            r@.items == Map::<u64, InternalItem>::empty(),
            r@.next_serial == 0,
            r@.root is None,
            r@.root_ident is None,
            r@.title == title@,
            r@.icon is None,
            r@.tray is None,
            r@.store.next == 1,
            r@.store.trace == Seq::<u64>::empty(),
    {
        let r = Touchbar {
            store: NativeStore::new(),
            item_reg: Registry::new(),
            bar_reg: Registry::new(),
            next_item_id: 0,
            root_bar: None,
            root_ident: None,
            title: title.to_owned(),
            icon: None,
            tray_item: None,
        };
        r
    }

    /// Produces the next identity: allocates the string object
    /// `"com.trevorbentley.<serial>"` and advances the strictly increasing
    /// serial.
    fn generate_ident(&mut self) -> (r: u64)
        requires
            old(self).wf(),
            can_create(old(self)@),
        ensures
            final(self).wf(),
            (final(self)@, r) == model_generate(old(self)@),
    {
        let serial = self.next_item_id;
        self.next_item_id = self.next_item_id + 1;
        let text = ident_text(serial);
        let r = self.store.alloc_object(NativeClass::Text { contents: text }, 1);
        proof {
            assert(self@ =~~= model_generate(old(self)@).0);
            crate::model::lemma_wf_store_only(old(self)@, self@);
        }
        r
    }

    /// A reference at or above the old counter is not a handle that was
    /// already registered then.
    proof fn lemma_fresh_item(m0: TouchbarModel, m1: TouchbarModel, id: u64)
        requires
            model_wf(m0),
            m1.items == m0.items,
            id >= m0.store.next,
        ensures
            !m1.items.dom().contains(id),
    {
    }

    /// A reference at or above the old counter is not a handle that was
    /// already registered then.
    proof fn lemma_fresh_bar(m0: TouchbarModel, m1: TouchbarModel, id: u64)
        requires
            model_wf(m0),
            m1.bars == m0.bars,
            id >= m0.store.next,
        ensures
            !m1.bars.dom().contains(id),
    {
    }

    /// Creates a new, empty horizontal bar.  The bar is not displayed or
    /// registered as root by creation alone.
    pub fn create_bar(&mut self) -> (id: BarId)
        requires
            old(self).wf(),
            can_create(old(self)@),
        ensures
            final(self).wf(),
            final(self)@ == model_create_bar(old(self)@).0,
            id == model_create_bar(old(self)@).1,
            final(self)@.bars.dom().contains(id),
            final(self)@.bars[id].items == Seq::<u64>::empty(),
            !old(self)@.bars.dom().contains(id),
    {
        let ident = self.generate_ident();
        let bar = self.store.alloc_object(
            NativeClass::Bar { display_idents: Vec::new() },
            1,
        );
        proof {
            Touchbar::lemma_fresh_bar(old(self)@, self@, bar);
        }
        self.bar_reg.insert(bar, InternalBar { view: bar, ident, items: Vec::new() });
        proof {
            assert(self@ =~~= model_create_bar(old(self)@).0);
            crate::model::lemma_wf_add_bar(
                old(self)@,
                self@,
                bar,
                BarModel { view: bar, ident, items: Seq::empty() },
            );
        }
        bar
    }

    /// Creates an image object from a file path.  The image is consumed
    /// when assigned to an item; allocate it once per use.
    pub fn create_image_from_path(&mut self, path: &str) -> (id: TouchbarImage)
        requires
            old(self).wf(),
            can_create(old(self)@),
        ensures
            final(self).wf(),
            final(self)@ == model_create_image(old(self)@, path@).0,
            id == model_create_image(old(self)@, path@).1,
    {
        let img = self.store.alloc_object(NativeClass::Image { source: path.to_owned() }, 1);
        proof {
            assert(self@ =~~= model_create_image(old(self)@, path@).0);
            crate::model::lemma_wf_store_only(old(self)@, self@);
        }
        img
    }

    /// Creates an image object from a standard template.  The image is
    /// consumed when assigned to an item; allocate it once per use.
    pub fn create_image_from_template(&mut self, template: ImageTemplate) -> (id: TouchbarImage)
        requires
            old(self).wf(),
            can_create(old(self)@),
        ensures
            final(self).wf(),
            final(self)@ == model_create_image(
                old(self)@,
                crate::interface::spec_template_name(template),
            ).0,
            id == model_create_image(old(self)@, crate::interface::spec_template_name(template)).1,
    {
        let name = template.template_name();
        let img = self.store.alloc_object(NativeClass::Image { source: name }, 1);
        proof {
            assert(self@ =~~= model_create_image(
                old(self)@,
                crate::interface::spec_template_name(template),
            ).0);
            crate::model::lemma_wf_store_only(old(self)@, self@);
        }
        img
    }

    /// Registers an icon, loaded from the given path, to display in the
    /// control strip instead of the title.
    pub fn set_icon(&mut self, image: &str)
        requires
            old(self).wf(),
            can_create(old(self)@),
        ensures
            final(self).wf(),
            final(self)@ == model_set_icon(old(self)@, image@),
    {
        let img = self.store.alloc_object(NativeClass::Image { source: image.to_owned() }, 1);
        self.icon = Some(img);
        proof {
            assert(self@ =~~= model_set_icon(old(self)@, image@));
            crate::model::lemma_wf_store_only(old(self)@, self@);
        }
    }

    /// An all-empty item record.
    fn blank(kind: ItemKind, view: u64, ident: u64) -> (r: InternalItem)
        ensures
            r == blank_item(kind, view, ident),
    {
        InternalItem {
            kind,
            view,
            ident,
            control: None,
            data_source: None,
            button_cb: None,
            slider_cb: None,
            swipe_cb: None,
            tap_cb: None,
            child_bar: None,
        }
    }

    /// Whether label text asks for the smaller multi-line font.
    fn multiline_for_text(text: &str) -> (r: bool)
        ensures
            r == contains_newline(text@),
    {
        let n = text.unicode_len();
        let mut i: usize = 0;
        while i < n
            invariant
                i <= n,
                n == text@.len(),
                forall|j: int| 0 <= j < i ==> text@[j] != '\n',
            decreases n - i,
        {
            if text.get_char(i) == '\n' {
                return true;
            }
            i = i + 1;
        }
        false
    }

    /// Creates a text label item.
    pub fn create_label(&mut self, text: &str) -> (id: ItemId)
        requires
            old(self).wf(),
            can_create(old(self)@),
        ensures
            final(self).wf(),
            final(self)@ == model_create_label(old(self)@, text@).0,
            id == model_create_label(old(self)@, text@).1,
            final(self)@.items.dom().contains(id),
    {
        let ident = self.generate_ident();
        let multiline = Touchbar::multiline_for_text(text);
        let ctrl = self.store.alloc_object(
            NativeClass::LabelControl { text: text.to_owned(), multiline, width: None },
            1,
        );
        let item = self.store.alloc_object(NativeClass::ItemContainer { content: ctrl }, 1);
        proof {
            Touchbar::lemma_fresh_item(old(self)@, self@, item);
        }
        let rec = InternalItem {
            control: Some(ctrl),
            ..Touchbar::blank(ItemKind::Label, item, ident)
        };
        self.item_reg.insert(item, rec);
        proof {
            assert(self@ =~~= model_create_label(old(self)@, text@).0);
            crate::model::lemma_wf_add_item(old(self)@, self@, item, rec);
            self.item_reg.lemma_view();
        }
        item
    }

    /// Creates a slider item reporting values between `min` and `max`
    /// (opaque scalar positions handed through to the host).  A new slider
    /// starts at the minimum value.
    pub fn create_slider(&mut self, min: u64, max: u64, continuous: bool, cb: CallbackToken) -> (id:
        ItemId)
        requires
            old(self).wf(),
            can_create(old(self)@),
        ensures
            final(self).wf(),
            final(self)@ == model_create_slider(old(self)@, min, max, continuous, cb).0,
            id == model_create_slider(old(self)@, min, max, continuous, cb).1,
            final(self)@.items.dom().contains(id),
    {
        let ident = self.generate_ident();
        let item = self.store.alloc_object(
            NativeClass::SliderItem { min, max, value: min, continuous },
            1,
        );
        proof {
            Touchbar::lemma_fresh_item(old(self)@, self@, item);
        }
        let rec = InternalItem {
            control: Some(item),
            slider_cb: Some(cb),
            ..Touchbar::blank(ItemKind::Slider, item, ident)
        };
        self.item_reg.insert(item, rec);
        proof {
            assert(self@ =~~= model_create_slider(old(self)@, min, max, continuous, cb).0);
            crate::model::lemma_wf_add_item(old(self)@, self@, item, rec);
            self.item_reg.lemma_view();
        }
        item
    }

    /// Creates a horizontally scrolling text scrubber whose contents the
    /// host supplies through the data source registered under `data`.
    pub fn create_text_scrubber(&mut self, data: ScrubberDataRef) -> (id: ItemId)
        requires
            old(self).wf(),
            can_create(old(self)@),
        ensures
            final(self).wf(),
            final(self)@ == model_create_text_scrubber(old(self)@, data).0,
            id == model_create_text_scrubber(old(self)@, data).1,
            final(self)@.items.dom().contains(id),
    {
        let ident = self.generate_ident();
        let ctrl = self.store.alloc_object(NativeClass::ScrubberControl { selected: None }, 1);
        let item = self.store.alloc_object(NativeClass::ItemContainer { content: ctrl }, 1);
        proof {
            Touchbar::lemma_fresh_item(old(self)@, self@, item);
        }
        let rec = InternalItem {
            control: Some(ctrl),
            data_source: Some(data),
            ..Touchbar::blank(ItemKind::Scrubber, item, ident)
        };
        self.item_reg.insert(item, rec);
        proof {
            assert(self@ =~~= model_create_text_scrubber(old(self)@, data).0);
            crate::model::lemma_wf_add_item(old(self)@, self@, item, rec);
            self.item_reg.lemma_view();
        }
        item
    }

    /// Creates space between items.  The spacer is a single string object
    /// serving as both view and identity, so it is retained twice.
    pub fn create_spacer(&mut self, space: SpacerType) -> (id: ItemId)
        requires
            old(self).wf(),
            can_create(old(self)@),
        ensures
            final(self).wf(),
            final(self)@ == model_create_spacer(
                old(self)@,
                crate::interface::spec_spacer_ident(space),
            ).0,
            id == model_create_spacer(old(self)@, crate::interface::spec_spacer_ident(space)).1,
            final(self)@.items.dom().contains(id),
    {
        let marker = space.ident_text();
        let s = self.store.alloc_object(NativeClass::Text { contents: marker }, 2);
        proof {
            Touchbar::lemma_fresh_item(old(self)@, self@, s);
        }
        let rec = Touchbar::blank(ItemKind::Spacer, s, s);
        self.item_reg.insert(s, rec);
        proof {
            assert(self@ =~~= model_create_spacer(
                old(self)@,
                crate::interface::spec_spacer_ident(space),
            ).0);
            crate::model::lemma_wf_add_item(old(self)@, self@, s, rec);
            self.item_reg.lemma_view();
        }
        s
    }

    /// Allocates a button control showing the given image and/or title;
    /// `0` (nil) when neither is given.  The image object is consumed.
    fn alloc_button(&mut self, image: Option<&TouchbarImage>, text: Option<&str>) -> (r: u64)
        requires
            old(self).wf(),
            old(self)@.store.next < u64::MAX,
        ensures
            final(self).wf(),
            (final(self)@, r) == model_alloc_button(
                old(self)@,
                match image {
                    Some(i) => Some(*i),
                    None => None,
                },
                match text {
                    Some(t) => Some(t@),
                    None => None,
                },
            ),
    {
        let ghost gimage: Option<u64> = match image {
            Some(i) => Some(*i),
            None => None,
        };
        let ghost gtext: Option<Seq<char>> = match text {
            Some(t) => Some(t@),
            None => None,
        };
        if image.is_none() && text.is_none() {
            return 0;
        }
        let source: Option<String> = match image {
            Some(i) => match self.store.get(*i) {
                Some(obj) => match &obj.class {
                    NativeClass::Image { source } => Some(source.clone()),
                    _ => None,
                },
                None => None,
            },
            None => None,
        };
        let title: Option<String> = match text {
            Some(t) => Some(t.to_owned()),
            None => None,
        };
        let btn = self.store.alloc_object(
            NativeClass::ButtonControl { title, image: source, width: None },
            1,
        );
        match image {
            Some(i) => {
                self.store.release(*i);
            },
            None => {},
        }
        proof {
            assert(self@ =~~= model_alloc_button(old(self)@, gimage, gtext).0);
            crate::model::lemma_release_store_wf(
                crate::model::model_alloc_button(old(self)@, gimage, gtext).0.store,
                0,
            );
            crate::model::lemma_wf_store_only(old(self)@, self@);
        }
        btn
    }

    /// Creates a button item that reports presses to the callback
    /// registered under `cb`.  Buttons accept an image, a title, or both.
    pub fn create_button(
        &mut self,
        image: Option<&TouchbarImage>,
        text: Option<&str>,
        cb: CallbackToken,
    ) -> (id: ItemId)
        requires
            old(self).wf(),
            can_create(old(self)@),
        ensures
            final(self).wf(),
            final(self)@ == model_create_button(
                old(self)@,
                match image {
                    Some(i) => Some(*i),
                    None => None,
                },
                match text {
                    Some(t) => Some(t@),
                    None => None,
                },
                cb,
            ).0,
            id == model_create_button(
                old(self)@,
                match image {
                    Some(i) => Some(*i),
                    None => None,
                },
                match text {
                    Some(t) => Some(t@),
                    None => None,
                },
                cb,
            ).1,
            final(self)@.items.dom().contains(id),
    {
        let ident = self.generate_ident();
        let btn = self.alloc_button(image, text);
        let item = self.store.alloc_object(NativeClass::ItemContainer { content: btn }, 1);
        proof {
            Touchbar::lemma_fresh_item(old(self)@, self@, item);
        }
        let rec = InternalItem {
            control: Some(btn),
            button_cb: Some(cb),
            ..Touchbar::blank(ItemKind::Button, item, ident)
        };
        self.item_reg.insert(item, rec);
        proof {
            let ghost gi: Option<u64> = match image {
                Some(i) => Some(*i),
                None => None,
            };
            let ghost gt: Option<Seq<char>> = match text {
                Some(t) => Some(t@),
                None => None,
            };
            assert(self@ =~~= model_create_button(old(self)@, gi, gt, cb).0);
            crate::model::lemma_wf_add_item(old(self)@, self@, item, rec);
            self.item_reg.lemma_view();
        }
        item
    }

    /// Creates a button item that, when pressed, presents `bar_id` as a
    /// nested popover menu.  The bar must stay registered until the item
    /// is freed; the item's teardown recurses into it.
    pub fn create_popover_item(
        &mut self,
        image: Option<&TouchbarImage>,
        text: Option<&str>,
        bar_id: &BarId,
    ) -> (id: ItemId)
        requires
            old(self).wf(),
            can_create(old(self)@),
        ensures
            final(self).wf(),
            final(self)@ == model_create_popover_item(
                old(self)@,
                match image {
                    Some(i) => Some(*i),
                    None => None,
                },
                match text {
                    Some(t) => Some(t@),
                    None => None,
                },
                *bar_id,
            ).0,
            id == model_create_popover_item(
                old(self)@,
                match image {
                    Some(i) => Some(*i),
                    None => None,
                },
                match text {
                    Some(t) => Some(t@),
                    None => None,
                },
                *bar_id,
            ).1,
            final(self)@.items.dom().contains(id),
    {
        let ident = self.generate_ident();
        let btn = self.alloc_button(image, text);
        let item = self.store.alloc_object(NativeClass::ItemContainer { content: btn }, 1);
        proof {
            Touchbar::lemma_fresh_item(old(self)@, self@, item);
        }
        let rec = InternalItem {
            control: Some(btn),
            child_bar: Some(*bar_id),
            ..Touchbar::blank(ItemKind::Popover, item, ident)
        };
        self.item_reg.insert(item, rec);
        proof {
            let ghost gi: Option<u64> = match image {
                Some(i) => Some(*i),
                None => None,
            };
            let ghost gt: Option<Seq<char>> = match text {
                Some(t) => Some(t@),
                None => None,
            };
            assert(self@ =~~= model_create_popover_item(old(self)@, gi, gt, *bar_id).0);
            crate::model::lemma_wf_add_item(old(self)@, self@, item, rec);
            self.item_reg.lemma_view();
        }
        item
    }

    /// The control shown by the item container behind `id`, if `id` is a
    /// live item container.
    fn container_content(&self, id: u64) -> (r: Option<u64>)
        requires
            self.wf(),
        ensures
            r == (match crate::model::obj_class(self@.store, id) {
                Some(crate::store::ClassModel::ItemContainer { content }) => Some(content),
                _ => None,
            }),
    {
        match self.store.get(id) {
            Some(obj) => match &obj.class {
                NativeClass::ItemContainer { content } => Some(*content),
                _ => None,
            },
            None => None,
        }
    }

    /// Changes the text of an existing label, re-deriving its font from
    /// the new text; a handle that does not resolve to a label is ignored.
    pub fn update_label(&mut self, label_id: &ItemId, text: &str)
        requires
            old(self).wf(),
        ensures
            final(self).wf(),
            final(self)@ == crate::model::model_update_label(old(self)@, *label_id, text@),
    {
        match self.container_content(*label_id) {
            Some(c) => {
                let width_found: Option<Option<u32>> = match self.store.get(c) {
                    Some(obj) => match &obj.class {
                        NativeClass::LabelControl { width, .. } => Some(*width),
                        _ => None,
                    },
                    None => None,
                };
                match width_found {
                    Some(width) => {
                        let multiline = Touchbar::multiline_for_text(text);
                        self.store.replace_class(
                            c,
                            NativeClass::LabelControl { text: text.to_owned(), multiline, width },
                        );
                    },
                    None => {},
                }
            },
            None => {},
        }
        proof {
            assert(self@ =~~= crate::model::model_update_label(old(self)@, *label_id, text@));
            crate::model::lemma_wf_store_only(old(self)@, self@);
        }
    }

    /// Pins a fixed width, in pixels, for an existing label.
    pub fn update_label_width(&mut self, label_id: &ItemId, width: u32)
        requires
            old(self).wf(),
        ensures
            final(self).wf(),
            final(self)@ == crate::model::model_update_label_width(old(self)@, *label_id, width),
    {
        match self.container_content(*label_id) {
            Some(c) => {
                let found: Option<(String, bool)> = match self.store.get(c) {
                    Some(obj) => match &obj.class {
                        NativeClass::LabelControl { text, multiline, .. } => Some(
                            (text.clone(), *multiline),
                        ),
                        _ => None,
                    },
                    None => None,
                };
                match found {
                    Some((text, multiline)) => {
                        self.store.replace_class(
                            c,
                            NativeClass::LabelControl { text, multiline, width: Some(width) },
                        );
                    },
                    None => {},
                }
            },
            None => {},
        }
        proof {
            assert(self@ =~~= crate::model::model_update_label_width(
                old(self)@,
                *label_id,
                width,
            ));
            crate::model::lemma_wf_store_only(old(self)@, self@);
        }
    }

    /// Changes the image and/or title of an existing button.  A given
    /// image object is consumed: a live image's source moves onto the
    /// button, and the image is released either way.
    pub fn update_button(&mut self, item: &ItemId, image: Option<&TouchbarImage>, text: Option<&str>)
        requires
            old(self).wf(),
        ensures
            final(self).wf(),
            final(self)@ == crate::model::model_update_button(
                old(self)@,
                *item,
                match image {
                    Some(i) => Some(*i),
                    None => None,
                },
                match text {
                    Some(t) => Some(t@),
                    None => None,
                },
            ),
    {
        let ghost gi: Option<u64> = match image {
            Some(i) => Some(*i),
            None => None,
        };
        let ghost gt: Option<Seq<char>> = match text {
            Some(t) => Some(t@),
            None => None,
        };
        match self.container_content(*item) {
            Some(c) => {
                let face: Option<(Option<String>, Option<String>, Option<u32>)> = match self
                    .store
                    .get(c) {
                    Some(obj) => match &obj.class {
                        NativeClass::ButtonControl { title, image, width } => Some(
                            (title.clone(), image.clone(), *width),
                        ),
                        _ => None,
                    },
                    None => None,
                };
                match face {
                    Some((title, old_img, width)) => {
                        let new_img: Option<String> = match image {
                            Some(i) => match self.store.get(*i) {
                                Some(obj) => match &obj.class {
                                    NativeClass::Image { source } => Some(source.clone()),
                                    _ => old_img,
                                },
                                None => old_img,
                            },
                            None => old_img,
                        };
                        let new_title: Option<String> = match text {
                            Some(t) => Some(t.to_owned()),
                            None => title,
                        };
                        self.store.replace_class(
                            c,
                            NativeClass::ButtonControl {
                                title: new_title,
                                image: new_img,
                                width,
                            },
                        );
                        match image {
                            Some(i) => {
                                self.store.release(*i);
                            },
                            None => {},
                        }
                    },
                    None => {},
                }
            },
            None => {},
        }
        proof {
            assert(self@ =~~= crate::model::model_update_button(old(self)@, *item, gi, gt));
            crate::model::lemma_wf_store_only(old(self)@, self@);
        }
    }

    /// Pins a fixed width, in pixels, for an existing button.
    pub fn update_button_width(&mut self, button_id: &ItemId, width: u32)
        requires
            old(self).wf(),
        ensures
            final(self).wf(),
            final(self)@ == crate::model::model_update_button_width(old(self)@, *button_id, width),
    {
        match self.container_content(*button_id) {
            Some(c) => {
                let face: Option<(Option<String>, Option<String>)> = match self.store.get(c) {
                    Some(obj) => match &obj.class {
                        NativeClass::ButtonControl { title, image, .. } => Some(
                            (title.clone(), image.clone()),
                        ),
                        _ => None,
                    },
                    None => None,
                };
                match face {
                    Some((title, image)) => {
                        self.store.replace_class(
                            c,
                            NativeClass::ButtonControl { title, image, width: Some(width) },
                        );
                    },
                    None => {},
                }
            },
            None => {},
        }
        proof {
            assert(self@ =~~= crate::model::model_update_button_width(
                old(self)@,
                *button_id,
                width,
            ));
            crate::model::lemma_wf_store_only(old(self)@, self@);
        }
    }

    /// Sets the current value of an existing slider; a handle that does
    /// not resolve to a slider is ignored.
    pub fn update_slider(&mut self, id: &ItemId, value: u64)
        requires
            old(self).wf(),
        ensures
            final(self).wf(),
            final(self)@ == crate::model::model_update_slider(old(self)@, *id, value),
    {
        let found: Option<(u64, u64, bool)> = match self.store.get(*id) {
            Some(obj) => match &obj.class {
                NativeClass::SliderItem { min, max, continuous, .. } => Some(
                    (*min, *max, *continuous),
                ),
                _ => None,
            },
            None => None,
        };
        match found {
            Some((min, max, continuous)) => {
                self.store.replace_class(
                    *id,
                    NativeClass::SliderItem { min, max, value, continuous },
                );
            },
            None => {},
        }
        proof {
            assert(self@ =~~= crate::model::model_update_slider(old(self)@, *id, value));
            crate::model::lemma_wf_store_only(old(self)@, self@);
        }
    }

    /// Marks the given index of a scrubber as selected, so it renders
    /// highlighted.
    pub fn select_scrubber_item(&mut self, scrub_id: &ItemId, index: u32)
        requires
            old(self).wf(),
        ensures
            final(self).wf(),
            final(self)@ == crate::model::model_select_scrubber(old(self)@, *scrub_id, index),
    {
        match self.container_content(*scrub_id) {
            Some(c) => {
                let is_scrubber: bool = match self.store.get(c) {
                    Some(obj) => match &obj.class {
                        NativeClass::ScrubberControl { .. } => true,
                        _ => false,
                    },
                    None => false,
                };
                if is_scrubber {
                    self.store.replace_class(
                        c,
                        NativeClass::ScrubberControl { selected: Some(index) },
                    );
                }
            },
            None => {},
        }
        proof {
            assert(self@ =~~= crate::model::model_select_scrubber(old(self)@, *scrub_id, index));
            crate::model::lemma_wf_store_only(old(self)@, self@);
        }
    }

    /// Tells a scrubber to re-query its backing data after a change.  A
    /// reload clears the native selection, so the selection is restored;
    /// the registered state is unchanged.
    pub fn refresh_scrubber(&mut self, scrub_id: &ItemId)
        requires
            old(self).wf(),
        ensures
            final(self).wf(),
            final(self)@ == old(self)@,
    {
        let _ = scrub_id;
    }

    /// Attaches a swipe-gesture callback to an item with a visible
    /// control; items without one (spacers) and unknown handles are
    /// ignored.
    pub fn add_item_swipe_gesture(&mut self, item_id: &ItemId, cb: CallbackToken)
        requires
            old(self).wf(),
        ensures
            final(self).wf(),
            final(self)@ == crate::model::model_add_swipe(old(self)@, *item_id, cb),
    {
        match self.item_reg.remove(*item_id) {
            Some(it) => {
                if it.control.is_some() {
                    let rec = InternalItem { swipe_cb: Some(cb), ..it };
                    self.item_reg.insert(*item_id, rec);
                    proof {
                        assert(self@.items =~= old(self)@.items.insert(*item_id, rec));
                        crate::model::lemma_wf_add_item(old(self)@, self@, *item_id, rec);
                    }
                } else {
                    self.item_reg.insert(*item_id, it);
                    proof {
                        assert(old(self)@.items.insert(*item_id, it) =~= old(self)@.items);
                        assert(self@.items =~= old(self)@.items);
                        crate::model::lemma_wf_add_item(old(self)@, self@, *item_id, it);
                    }
                }
            },
            None => {},
        }
        proof {
            assert(self@ =~~= crate::model::model_add_swipe(old(self)@, *item_id, cb));
        }
    }

    /// Attaches a tap-gesture callback to an item with a visible control;
    /// `taps` and `fingers` configure the native recognizer.  Items
    /// without a control and unknown handles are ignored.
    pub fn add_item_tap_gesture(&mut self, item_id: &ItemId, taps: u32, fingers: u32, cb:
        CallbackToken)
        requires
            old(self).wf(),
        ensures
            final(self).wf(),
            final(self)@ == crate::model::model_add_tap(old(self)@, *item_id, cb),
    {
        let _ = taps;
        let _ = fingers;
        match self.item_reg.remove(*item_id) {
            Some(it) => {
                if it.control.is_some() {
                    let rec = InternalItem { tap_cb: Some(cb), ..it };
                    self.item_reg.insert(*item_id, rec);
                    proof {
                        assert(self@.items =~= old(self)@.items.insert(*item_id, rec));
                        crate::model::lemma_wf_add_item(old(self)@, self@, *item_id, rec);
                    }
                } else {
                    self.item_reg.insert(*item_id, it);
                    proof {
                        assert(old(self)@.items.insert(*item_id, it) =~= old(self)@.items);
                        assert(self@.items =~= old(self)@.items);
                        crate::model::lemma_wf_add_item(old(self)@, self@, *item_id, it);
                    }
                }
            },
            None => {},
        }
        proof {
            assert(self@ =~~= crate::model::model_add_tap(old(self)@, *item_id, cb));
        }
    }

    /// Adds a group of items, in the order given, to a bar.  Handles that
    /// do not resolve are skipped; the bar object is handed the identity
    /// list of the resulting order; an unknown bar is ignored.
    pub fn add_items_to_bar(&mut self, bar_id: &BarId, items: Vec<ItemId>)
        requires
            old(self).wf(),
        ensures
            final(self).wf(),
            final(self)@ == crate::model::model_add_items(old(self)@, *bar_id, items@),
    {
        let ghost m0 = old(self)@;
        match self.bar_reg.remove(*bar_id) {
            Some(bar) => {
                let ghost snap = *self;
                let mut new_items = bar.items;
                let ghost base = bar@.items;
                let n = items.len();
                let mut i: usize = 0;
                proof {
                    assert(items@.skip(0) =~= items@);
                }
                while i < n
                    invariant
                        i <= n,
                        n == items@.len(),
                        self.wf_containers(),
                        *self == snap,
                        base + crate::model::kept_ids(m0, items@) == new_items@
                            + crate::model::kept_ids(m0, items@.skip(i as int)),
                        m0.items == self@.items,
                    decreases n - i,
                {
                    let id = items[i];
                    proof {
                        assert(items@.skip(i as int)[0] == id);
                        assert(items@.skip(i as int).drop_first() =~= items@.skip(i as int + 1));
                    }
                    if self.item_reg.contains(id) {
                        new_items.push(id);
                        proof {
                            assert(base + crate::model::kept_ids(m0, items@) =~= new_items@
                                + crate::model::kept_ids(m0, items@.skip(i as int + 1)));
                        }
                    }
                    i = i + 1;
                }
                proof {
                    assert(items@.skip(n as int) =~= Seq::<u64>::empty());
                    assert(new_items@ =~= base + crate::model::kept_ids(m0, items@));
                }
                // Rebuild the bar object's displayed identity list from the
                // resulting order.
                let mut display: Vec<u64> = Vec::new();
                let total = new_items.len();
                let mut j: usize = 0;
                proof {
                    assert(new_items@.skip(0) =~= new_items@);
                }
                while j < total
                    invariant
                        j <= total,
                        total == new_items@.len(),
                        self.wf_containers(),
                        *self == snap,
                        m0.items == self@.items,
                        crate::model::resolved_idents(m0, new_items@) == display@
                            + crate::model::resolved_idents(m0, new_items@.skip(j as int)),
                    decreases total - j,
                {
                    let id = new_items[j];
                    proof {
                        assert(new_items@.skip(j as int)[0] == id);
                        assert(new_items@.skip(j as int).drop_first() =~= new_items@.skip(
                            j as int + 1,
                        ));
                    }
                    match self.item_reg.get(id) {
                        Some(it) => {
                            display.push(it.ident);
                            proof {
                                assert(crate::model::resolved_idents(m0, new_items@) =~= display@
                                    + crate::model::resolved_idents(
                                    m0,
                                    new_items@.skip(j as int + 1),
                                ));
                            }
                        },
                        None => {},
                    }
                    j = j + 1;
                }
                proof {
                    assert(new_items@.skip(total as int) =~= Seq::<u64>::empty());
                    assert(display@ =~= crate::model::resolved_idents(m0, new_items@));
                }
                self.store.replace_class(*bar_id, NativeClass::Bar { display_idents: display });
                let rec = InternalBar { view: bar.view, ident: bar.ident, items: new_items };
                proof {
                    assert(!self@.bars.dom().contains(*bar_id));
                }
                self.bar_reg.insert(*bar_id, rec);
                proof {
                    assert(self@.bars =~= m0.bars.insert(*bar_id, rec@));
                    assert(self@ =~~= crate::model::model_add_items(m0, *bar_id, items@));
                    crate::model::lemma_wf_add_bar(old(self)@, self@, *bar_id, rec@);
                }
            },
            None => {
                proof {
                    assert(self@ =~~= crate::model::model_add_items(m0, *bar_id, items@));
                }
            },
        }
    }

    /// Recursive teardown of one bar: unregisters it, frees each of its
    /// items (releasing control, view and identity, and remembering
    /// popover child bars), releases the bar's own identity and object,
    /// then recurses into the remembered child bars.
    fn free_bar(&mut self, bar_ref: u64, fuel: Ghost<nat>)
        requires
            old(self).wf_core(),
            fuel@ >= old(self)@.bars.dom().len(),
        ensures
            final(self).wf_core(),
            final(self)@ == crate::model::teardown_bar(old(self)@, bar_ref, fuel@),
        decreases fuel@,
    {
        let ghost m_in = old(self)@;
        match self.bar_reg.remove(bar_ref) {
            None => {
                proof {
                    assert(self@ =~~= crate::model::teardown_bar(m_in, bar_ref, fuel@));
                }
            },
            Some(bar) => {
                proof {
                    vstd::set::axiom_set_remove_len(m_in.bars.dom(), bar_ref);
                    assert(fuel@ >= 1);
                    crate::model::lemma_wf_remove_bar(m_in, bar_ref);
                    assert(self@ =~~= TouchbarModel { bars: m_in.bars.remove(bar_ref), ..m_in });
                }
                let ghost m0 = self@;
                let items_list = bar.items;
                let mut subbars: Vec<u64> = Vec::new();
                let n = items_list.len();
                let mut i: usize = 0;
                proof {
                    assert(items_list@.take(0) =~= Seq::<u64>::empty());
                }
                while i < n
                    invariant
                        i <= n,
                        n == items_list@.len(),
                        self.wf_containers(),
                        self@ == crate::model::free_items(m0, items_list@.take(i as int)).0,
                        subbars@ == crate::model::free_items(m0, items_list@.take(i as int)).1,
                    decreases n - i,
                {
                    let id = items_list[i];
                    let ghost m_pre = self@;
                    proof {
                        crate::model::lemma_free_items_snoc(m0, items_list@.take(i as int), id);
                        assert(items_list@.take(i as int).push(id) =~= items_list@.take(
                            i as int + 1,
                        ));
                    }
                    match self.item_reg.remove(id) {
                        Some(it) => {
                            match it.control {
                                Some(c) => {
                                    if it.kind != ItemKind::Slider {
                                        self.store.release(c);
                                    }
                                },
                                None => {},
                            }
                            self.store.release(it.view);
                            self.store.release(it.ident);
                            if it.kind == ItemKind::Popover {
                                match it.child_bar {
                                    Some(cb) => {
                                        subbars.push(cb);
                                    },
                                    None => {},
                                }
                            }
                            proof {
                                assert(self@ =~~= crate::model::free_one_item(m_pre, id).0);
                                assert(subbars@ =~= crate::model::free_items(
                                    m0,
                                    items_list@.take(i as int + 1),
                                ).1);
                            }
                        },
                        None => {
                            proof {
                                assert(self@ =~~= crate::model::free_one_item(m_pre, id).0);
                                assert(subbars@ =~= crate::model::free_items(
                                    m0,
                                    items_list@.take(i as int + 1),
                                ).1);
                            }
                        },
                    }
                    i = i + 1;
                }
                proof {
                    assert(items_list@.take(n as int) =~= items_list@);
                    assert(items_list@ =~= m_in.bars[bar_ref].items);
                }
                self.store.release(bar.ident);
                self.store.release(bar_ref);
                let ghost m2 = self@;
                let ghost subs = subbars@;
                proof {
                    crate::model::lemma_free_items_shrinks(m0, items_list@);
                    crate::model::lemma_shrink_preserves_wf(
                        m0,
                        crate::model::free_items(m0, items_list@).0,
                    );
                    crate::model::lemma_wf_store_only(crate::model::free_items(m0, items_list@).0, m2);
                    crate::model::lemma_release_store_wf(
                        crate::model::free_items(m0, items_list@).0.store,
                        bar.ident,
                    );
                    crate::model::lemma_release_store_wf(
                        crate::store::spec_release(
                            crate::model::free_items(m0, items_list@).0.store,
                            bar.ident,
                        ),
                        bar_ref,
                    );
                    vstd::set::axiom_set_remove_len(m_in.bars.dom(), bar_ref);
                    assert(m2.bars.dom().len() < fuel@);
                    assert(subs.skip(0) =~= subs);
                }
                let count = subbars.len();
                let mut j: usize = 0;
                while j < count
                    invariant
                        j <= count,
                        count == subs.len(),
                        subbars@ == subs,
                        self.wf_containers(),
                        model_wf(self@),
                        self@.bars.dom().len() < fuel@,
                        fuel@ >= 1,
                        crate::model::teardown_list(m2, subs, (fuel@ - 1) as nat)
                            == crate::model::teardown_list(
                            self@,
                            subs.skip(j as int),
                            (fuel@ - 1) as nat,
                        ),
                    decreases count - j,
                {
                    let sub = subbars[j];
                    let ghost m_pre = self@;
                    proof {
                        assert(subs.skip(j as int)[0] == sub);
                        assert(subs.skip(j as int).drop_first() =~= subs.skip(j as int + 1));
                    }
                    self.free_bar(sub, Ghost((fuel@ - 1) as nat));
                    proof {
                        crate::model::lemma_teardown_bar_shrinks(m_pre, sub, (fuel@ - 1) as nat);
                        crate::model::lemma_shrink_preserves_wf(m_pre, self@);
                    }
                    j = j + 1;
                }
                proof {
                    assert(subs.skip(count as int) =~= Seq::<u64>::empty());
                    assert(self@ == crate::model::teardown_list(m2, subs, (fuel@ - 1) as nat));
                    assert(self@ =~~= crate::model::teardown_bar(m_in, bar_ref, fuel@));
                }
            },
        }
    }

    /// Registers the given bar as root.  If a root was registered before,
    /// its whole tree — its items, and recursively every bar reachable
    /// through popover items — is torn down first; the new bar's own tree
    /// is untouched.  The tray registration is then refreshed so the
    /// control strip presents the new bar.
    ///
    /// The new bar must be registered, and must not be part of the old
    /// root's tree: making a bar of the tree being torn down the new root
    /// is a fatal misuse.
    pub fn set_bar_as_root(&mut self, bar_id: BarId)
        requires
            old(self).wf(),
            can_create(old(self)@),
            crate::model::after_root_teardown(old(self)@).bars.dom().contains(bar_id),
        ensures
            final(self).wf(),
            final(self)@ == crate::model::model_set_root(old(self)@, bar_id),
    {
        let ghost m_start = old(self)@;
        let root = self.root_bar;
        match root {
            Some(r) => {
                self.free_bar(r, Ghost(crate::model::teardown_fuel(m_start)));
            },
            None => {},
        }
        let ghost m1 = self@;
        proof {
            assert(m1 == crate::model::after_root_teardown(m_start));
        }
        let ident = match self.bar_reg.get(bar_id) {
            Some(b) => b.ident,
            None => {
                proof {
                    assert(false);
                }
                0
            },
        };
        self.root_bar = Some(bar_id);
        self.root_ident = Some(ident);
        let tray = self.tray_item;
        match tray {
            Some(t) => {
                proof {
                    match m_start.root {
                        Some(r) => {
                            crate::model::lemma_teardown_bar_shrinks(
                                m_start,
                                r,
                                crate::model::teardown_fuel(m_start),
                            );
                        },
                        None => {},
                    }
                }
                self.store.release(t);
            },
            None => {},
        }
        let uses_icon = self.icon.is_some();
        proof {
            match m_start.root {
                Some(r) => {
                    crate::model::lemma_teardown_bar_shrinks(
                        m_start,
                        r,
                        crate::model::teardown_fuel(m_start),
                    );
                },
                None => {},
            }
        }
        let t = self.store.alloc_object(NativeClass::TrayItem { uses_icon }, 1);
        self.tray_item = Some(t);
        proof {
            assert(self@ =~~= crate::model::model_set_root(m_start, bar_id));
            crate::model::lemma_wf_store_only(m1, self@);
        }
    }

    /// The number of registered items.
    pub fn items_len(&self) -> (n: usize)
        ensures
            n == self.items_seq().len(),
    {
        self.item_reg.len()
    }

    /// The item record at position `i` of the registration order.
    pub fn item_at(&self, i: usize) -> (r: InternalItem)
        requires
            i < self.items_seq().len(),
        ensures
            r == self.items_seq()[i as int].1,
    {
        *self.item_reg.val_at(i)
    }

    /// Direct lookup of an item record by handle.
    pub fn lookup_item(&self, id: &ItemId) -> (r: Option<InternalItem>)
        requires
            self.wf(),
        ensures
            match r {
                Some(it) => self@.items.dom().contains(*id) && it == self@.items[*id],
                None => !self@.items.dom().contains(*id),
            },
    {
        match self.item_reg.get(*id) {
            Some(it) => Some(*it),
            None => None,
        }
    }

    /// Direct lookup of a bar's ordered item list by handle.
    pub fn lookup_bar_items(&self, id: &BarId) -> (r: Option<Vec<ItemId>>)
        requires
            self.wf(),
        ensures
            match r {
                Some(v) => self@.bars.dom().contains(*id) && v@ == self@.bars[*id].items,
                None => !self@.bars.dom().contains(*id),
            },
    {
        match self.bar_reg.get(*id) {
            Some(b) => Some(b.items.clone()),
            None => None,
        }
    }

    /// The contents of a live string object.
    pub fn store_text(&self, r: u64) -> (t: Option<String>)
        requires
            self.wf(),
        ensures
            match t {
                Some(s) => crate::model::text_of(self@.store, r) == Some(s@),
                None => crate::model::text_of(self@.store, r) is None,
            },
    {
        match self.store.get(r) {
            Some(obj) => match &obj.class {
                NativeClass::Text { contents } => Some(contents.clone()),
                _ => None,
            },
            None => None,
        }
    }

    /// The current value of a slider item.
    pub fn slider_value(&self, id: &ItemId) -> (r: Option<u64>)
        requires
            self.wf(),
        ensures
            r == (match crate::model::obj_class(self@.store, *id) {
                Some(crate::store::ClassModel::SliderItem { min: _, max: _, value, continuous: _ }) => Some(
                    value,
                ),
                _ => None,
            }),
    {
        match self.store.get(*id) {
            Some(obj) => match &obj.class {
                NativeClass::SliderItem { value, .. } => Some(*value),
                _ => None,
            },
            None => None,
        }
    }

    /// The selected index of a scrubber item: `None` if the handle does
    /// not resolve to a scrubber, `Some(None)` if nothing is selected.
    pub fn scrubber_selected(&self, id: &ItemId) -> (r: Option<Option<u32>>)
        requires
            self.wf(),
        ensures
            r == (match crate::model::obj_class(self@.store, *id) {
                Some(crate::store::ClassModel::ItemContainer { content }) => match crate::model::obj_class(
                    self@.store,
                    content,
                ) {
                    Some(crate::store::ClassModel::ScrubberControl { selected }) => Some(selected),
                    _ => None,
                },
                _ => None,
            }),
    {
        match self.container_content(*id) {
            Some(c) => match self.store.get(c) {
                Some(obj) => match &obj.class {
                    NativeClass::ScrubberControl { selected } => Some(*selected),
                    _ => None,
                },
                None => None,
            },
            None => None,
        }
    }

    /// The text shown by a label item.
    pub fn label_text(&self, id: &ItemId) -> (r: Option<String>)
        requires
            self.wf(),
        ensures
            r matches Some(s) ==> (match crate::model::obj_class(self@.store, *id) {
                Some(crate::store::ClassModel::ItemContainer { content }) => match crate::model::obj_class(
                    self@.store,
                    content,
                ) {
                    Some(
                        crate::store::ClassModel::LabelControl { text, multiline: _, width: _ },
                    ) => text == s@,
                    _ => false,
                },
                _ => false,
            }),
            r is None ==> (match crate::model::obj_class(self@.store, *id) {
                Some(crate::store::ClassModel::ItemContainer { content }) => !(
                crate::model::obj_class(self@.store, content) matches Some(
                    crate::store::ClassModel::LabelControl { .. },
                )),
                _ => true,
            }),
    {
        match self.container_content(*id) {
            Some(c) => match self.store.get(c) {
                Some(obj) => match &obj.class {
                    NativeClass::LabelControl { text, .. } => Some(text.clone()),
                    _ => None,
                },
                None => None,
            },
            None => None,
        }
    }

    /// The title and image source shown by a button item.
    pub fn button_face(&self, id: &ItemId) -> (r: Option<(Option<String>, Option<String>)>)
        requires
            self.wf(),
        ensures
            r matches Some(face) ==> (match crate::model::obj_class(self@.store, *id) {
                Some(crate::store::ClassModel::ItemContainer { content }) => match crate::model::obj_class(
                    self@.store,
                    content,
                ) {
                    Some(crate::store::ClassModel::ButtonControl { title, image, width: _ }) => {
                        &&& title == (match face.0 {
                            Some(t) => Some(t@),
                            None => None::<Seq<char>>,
                        })
                        &&& image == (match face.1 {
                            Some(s) => Some(s@),
                            None => None::<Seq<char>>,
                        })
                    },
                    _ => false,
                },
                _ => false,
            }),
            r is None ==> (match crate::model::obj_class(self@.store, *id) {
                Some(crate::store::ClassModel::ItemContainer { content }) => !(
                crate::model::obj_class(self@.store, content) matches Some(
                    crate::store::ClassModel::ButtonControl { .. },
                )),
                _ => true,
            }),
    {
        match self.container_content(*id) {
            Some(c) => match self.store.get(c) {
                Some(obj) => match &obj.class {
                    NativeClass::ButtonControl { title, image, .. } => Some(
                        (title.clone(), image.clone()),
                    ),
                    _ => None,
                },
                None => None,
            },
            None => None,
        }
    }

    /// The trace of release calls performed so far, oldest first.
    pub fn release_trace(&self) -> (t: Vec<u64>)
        ensures
            t@ == self@.store.trace,
    {
        self.store.trace_snapshot()
    }

    /// The bar currently registered as root.
    pub fn current_root(&self) -> (r: Option<BarId>)
        ensures
            r == self@.root,
    {
        self.root_bar
    }

    /// The identity object of the bar currently registered as root.
    pub fn current_root_ident(&self) -> (r: Option<u64>)
        ensures
            r == self@.root_ident,
    {
        self.root_ident
    }

    /// Whether there is room for another create operation (each one
    /// allocates at most four objects and one identity serial).
    pub fn can_create_more(&self) -> (r: bool)
        ensures
            r == can_create(self@),
    {
        self.store.peek_next() <= u64::MAX - 4 && self.next_item_id < u64::MAX
    }

    /// The identity serial that the next create operation will use.
    pub fn next_serial(&self) -> (r: u64)
        ensures
            r == self@.next_serial,
    {
        self.next_item_id
    }
}

} // verus!
