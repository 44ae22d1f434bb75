//! The native object store: a model of the toolkit's retained-object heap.
//! Every bar, item container, control, image and identity string is an
//! object behind an opaque `u64` reference with a retain count.  References
//! are never reused, and reference `0` plays the part of nil.  The store
//! keeps a trace of every release call, in order, as teardown
//! instrumentation.

use vstd::prelude::*;

use crate::registry::Registry;

verus! {

/// The state of a native object, by class.
#[derive(Debug)]
pub enum NativeClass {
    /// An immutable string object (identity strings, spacer markers).
    Text { contents: String },
    /// A bar object holding the ordered identity references it displays.
    Bar { display_idents: Vec<u64> },
    /// A generic item container whose `content` is the control it shows
    /// (`0` when it shows nothing).
    ItemContainer { content: u64 },
    /// A button control.
    ButtonControl { title: Option<String>, image: Option<String>, width: Option<u32> },
    /// A text-field control backing a label.
    LabelControl { text: String, multiline: bool, width: Option<u32> },
    /// A slider item; the item and its slider control are one object.
    SliderItem { min: u64, max: u64, value: u64, continuous: bool },
    /// A scrubber control.
    ScrubberControl { selected: Option<u32> },
    /// An image object, remembered by where it came from.
    Image { source: String },
    /// The tray item registered with the control strip.
    TrayItem { uses_icon: bool },
}

/// Mathematical mirror of [`NativeClass`].
#[verifier::ext_equal]
pub enum ClassModel {
    /// See [`NativeClass::Text`].
    Text { contents: Seq<char> },
    /// See [`NativeClass::Bar`].
    Bar { display_idents: Seq<u64> },
    /// See [`NativeClass::ItemContainer`].
    ItemContainer { content: u64 },
    /// See [`NativeClass::ButtonControl`].
    ButtonControl { title: Option<Seq<char>>, image: Option<Seq<char>>, width: Option<u32> },
    /// See [`NativeClass::LabelControl`].
    LabelControl { text: Seq<char>, multiline: bool, width: Option<u32> },
    /// See [`NativeClass::SliderItem`].
    SliderItem { min: u64, max: u64, value: u64, continuous: bool },
    /// See [`NativeClass::ScrubberControl`].
    ScrubberControl { selected: Option<u32> },
    /// See [`NativeClass::Image`].
    Image { source: Seq<char> },
    /// See [`NativeClass::TrayItem`].
    TrayItem { uses_icon: bool },
}

impl View for NativeClass {
    type V = ClassModel;

    open spec fn view(&self) -> ClassModel {
        match self {
            NativeClass::Text { contents } => ClassModel::Text { contents: contents@ },
            NativeClass::Bar { display_idents } => ClassModel::Bar { display_idents: display_idents@ },
            NativeClass::ItemContainer { content } => ClassModel::ItemContainer { content: *content },
            NativeClass::ButtonControl { title, image, width } => ClassModel::ButtonControl {
                title: match title {
                    Some(t) => Some(t@),
                    None => None,
                },
                image: match image {
                    Some(s) => Some(s@),
                    None => None,
                },
                width: *width,
            },
            NativeClass::LabelControl { text, multiline, width } => ClassModel::LabelControl {
                text: text@,
                multiline: *multiline,
                width: *width,
            },
            NativeClass::SliderItem { min, max, value, continuous } => ClassModel::SliderItem {
                min: *min,
                max: *max,
                value: *value,
                continuous: *continuous,
            },
            NativeClass::ScrubberControl { selected } => ClassModel::ScrubberControl {
                selected: *selected,
            },
            NativeClass::Image { source } => ClassModel::Image { source: source@ },
            NativeClass::TrayItem { uses_icon } => ClassModel::TrayItem { uses_icon: *uses_icon },
        }
    }
}

/// A retained native object.
#[derive(Debug)]
pub struct NativeObject {
    /// Retain count; the object is deallocated when a release drops it to 0.
    pub rc: u64,
    /// The object's class and state.
    pub class: NativeClass,
}

/// Mathematical mirror of [`NativeObject`].
#[verifier::ext_equal]
pub struct ObjModel {
    /// Retain count.
    pub rc: u64,
    /// Class and state.
    pub class: ClassModel,
}

impl View for NativeObject {
    type V = ObjModel;

    open spec fn view(&self) -> ObjModel {
        ObjModel { rc: self.rc, class: self.class@ }
    }
}

/// Mathematical view of the whole store.
#[verifier::ext_equal]
pub struct StoreModel {
    /// The live objects, by reference.
    pub objects: Map<u64, ObjModel>,
    /// The next reference to hand out; references are never reused.
    pub next: u64,
    /// Every release call so far, in order.
    pub trace: Seq<u64>,
}

/// The effect of one release call: the reference is appended to the trace;
/// a live object loses one retain and is deallocated at zero.
pub open spec fn spec_release(s: StoreModel, r: u64) -> StoreModel {
    if s.objects.dom().contains(r) {
        let obj = s.objects[r];
        if obj.rc > 1 {
            StoreModel {
                objects: s.objects.insert(r, ObjModel { rc: (obj.rc - 1) as u64, class: obj.class }),
                next: s.next,
                trace: s.trace.push(r),
            }
        } else {
            StoreModel { objects: s.objects.remove(r), next: s.next, trace: s.trace.push(r) }
        }
    } else {
        StoreModel { objects: s.objects, next: s.next, trace: s.trace.push(r) }
    }
}

/// The model native heap.
pub struct NativeStore {
    next_ref: u64,
    objects: Registry<NativeObject>,
    released: Vec<u64>,
}

impl View for NativeStore {
    type V = StoreModel;

    closed spec fn view(&self) -> StoreModel {
        StoreModel { objects: self.objects@, next: self.next_ref, trace: self.released@ }
    }
}

/// Well-formedness of a store model: references already handed out are
/// below `next`, and `0` is never handed out.
pub open spec fn store_model_wf(s: StoreModel) -> bool {
    &&& 1 <= s.next
    &&& forall|r: u64| s.objects.dom().contains(r) ==> 0 < r < s.next
}

impl NativeStore {
    /// Internal invariant of the store.
    pub closed spec fn wf_inner(&self) -> bool {
        self.objects.wf()
    }

    /// Internal invariant of the store.
    pub open spec fn wf(&self) -> bool {
        &&& self.wf_inner()
        &&& store_model_wf(self@)
    }

    /// An empty heap; the first reference handed out is 1.
    pub fn new() -> (r: NativeStore)
        ensures
            r.wf(),
            r@.objects == Map::<u64, ObjModel>::empty(),
            r@.next == 1,
            r@.trace == Seq::<u64>::empty(),
    {
        NativeStore { next_ref: 1, objects: Registry::new(), released: Vec::new() }
    }

    /// Allocates a fresh object with the given retain count.
    pub fn alloc_object(&mut self, class: NativeClass, rc: u64) -> (r: u64)
        requires
            old(self).wf(),
            old(self)@.next < u64::MAX,
            1 <= rc,
        ensures
            final(self).wf(),
            r == old(self)@.next,
            0 < r,
            !old(self)@.objects.dom().contains(r),
            final(self)@.objects == old(self)@.objects.insert(r, ObjModel { rc, class: class@ }),
            final(self)@.next == old(self)@.next + 1,
            final(self)@.trace == old(self)@.trace,
    {
        let r = self.next_ref;
        self.next_ref = self.next_ref + 1;
        proof {
            assert(!self.objects@.dom().contains(r)) by {
                if old(self)@.objects.dom().contains(r) {
                    assert(r < old(self)@.next);
                }
            }
        }
        self.objects.insert(r, NativeObject { rc, class });
        proof {
            assert forall|x: u64| self@.objects.dom().contains(x) implies 0 < x < self@.next by {
                if x != r {
                    assert(old(self)@.objects.dom().contains(x));
                }
            }
        }
        r
    }

    /// Looks an object up by reference.
    pub fn get(&self, r: u64) -> (o: Option<&NativeObject>)
        requires
            self.wf(),
        ensures
            match o {
                Some(obj) => self@.objects.dom().contains(r) && obj@ == self@.objects[r],
                None => !self@.objects.dom().contains(r),
            },
    {
        self.objects.get(r)
    }

    /// Replaces the state of a live object, keeping its retain count.
    /// Ignored if the reference is dead.
    pub fn replace_class(&mut self, r: u64, class: NativeClass) -> (ok: bool)
        requires
            old(self).wf(),
        ensures
            final(self).wf(),
            ok == old(self)@.objects.dom().contains(r),
            ok ==> final(self)@.objects == old(self)@.objects.insert(
                r,
                ObjModel { rc: old(self)@.objects[r].rc, class: class@ },
            ),
            !ok ==> final(self)@.objects == old(self)@.objects,
            final(self)@.next == old(self)@.next,
            final(self)@.trace == old(self)@.trace,
    {
        let rc_found: Option<u64> = match self.objects.get(r) {
            Some(obj) => Some(obj.rc),
            None => None,
        };
        match rc_found {
            Some(rc) => {
                let ok = self.objects.replace(r, NativeObject { rc, class });
                ok
            },
            None => false,
        }
    }

    /// Releases one retain of an object, deallocating it at zero; the call
    /// is recorded in the trace either way.
    pub fn release(&mut self, r: u64)
        requires
            old(self).wf(),
        ensures
            final(self).wf(),
            final(self)@ == spec_release(old(self)@, r),
    {
        self.released.push(r);
        match self.objects.remove(r) {
            Some(obj) => {
                if obj.rc > 1 {
                    self.objects.insert(r, NativeObject { rc: obj.rc - 1, class: obj.class });
                    proof {
                        assert(self@.objects =~= old(self)@.objects.insert(
                            r,
                            ObjModel {
                                rc: (old(self)@.objects[r].rc - 1) as u64,
                                class: old(self)@.objects[r].class,
                            },
                        ));
                    }
                }
            },
            None => {},
        }
    }

    /// The next reference the store will hand out.
    pub fn peek_next(&self) -> (r: u64)
        ensures
            r == self@.next,
    {
        self.next_ref
    }

    /// The trace of release calls so far.
    pub fn trace_snapshot(&self) -> (t: Vec<u64>)
        ensures
            t@ == self@.trace,
    {
        self.released.clone()
    }
}

} // verus!
