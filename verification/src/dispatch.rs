//! The event dispatcher: resolves native-shaped callback invocations —
//! button presses, slider moves, gestures, scrubber queries, popover
//! activations — back to the registered item and its callback or
//! data-source token, by scanning the item registry exactly as the
//! registration order has it.  Every resolution that fails resolves to
//! `None`: the dispatcher never fails, because these calls originate from
//! the toolkit's own event loop and cannot be reported upstream.

use vstd::prelude::*;

use crate::interface::{BarId, CallbackToken, Ident, ItemId, ScrubberDataRef, SwipeState,
    spec_swipe_state};
use crate::model::{InternalItem, TouchbarModel, obj_class, text_of};
use crate::store::ClassModel;
use crate::touchbar::Touchbar;

verus! {

/// First item whose control is `c`, yielding its handle.
pub open spec fn sf_view_from_control(s: Seq<(u64, InternalItem)>, c: u64) -> Option<u64>
    decreases s.len(),
{
    if s.len() == 0 {
        None
    } else if s[0].1.control == Some(c) {
        Some(s[0].1.view)
    } else {
        sf_view_from_control(s.drop_first(), c)
    }
}

/// Button callback of the first button whose control is `c`.
pub open spec fn sf_button_cb(s: Seq<(u64, InternalItem)>, c: u64) -> Option<u64>
    decreases s.len(),
{
    if s.len() == 0 {
        None
    } else if s[0].1.kind is Button && s[0].1.control == Some(c) {
        s[0].1.button_cb
    } else {
        sf_button_cb(s.drop_first(), c)
    }
}

/// Tap callback of the first item whose control is `c`.
pub open spec fn sf_tap_cb(s: Seq<(u64, InternalItem)>, c: u64) -> Option<u64>
    decreases s.len(),
{
    if s.len() == 0 {
        None
    } else if s[0].1.control == Some(c) {
        s[0].1.tap_cb
    } else {
        sf_tap_cb(s.drop_first(), c)
    }
}

/// Swipe callback of the first item whose control is `c`.
pub open spec fn sf_swipe_cb(s: Seq<(u64, InternalItem)>, c: u64) -> Option<u64>
    decreases s.len(),
{
    if s.len() == 0 {
        None
    } else if s[0].1.control == Some(c) {
        s[0].1.swipe_cb
    } else {
        sf_swipe_cb(s.drop_first(), c)
    }
}

/// Slider callback of the first slider item whose handle is `c`.
pub open spec fn sf_slider_cb(s: Seq<(u64, InternalItem)>, c: u64) -> Option<u64>
    decreases s.len(),
{
    if s.len() == 0 {
        None
    } else if s[0].1.kind is Slider && s[0].1.view == c {
        s[0].1.slider_cb
    } else {
        sf_slider_cb(s.drop_first(), c)
    }
}

/// Handle of the first scrubber item whose control is `c`.
pub open spec fn sf_scrubber(s: Seq<(u64, InternalItem)>, c: u64) -> Option<u64>
    decreases s.len(),
{
    if s.len() == 0 {
        None
    } else if s[0].1.kind is Scrubber && s[0].1.control == Some(c) {
        Some(s[0].1.view)
    } else {
        sf_scrubber(s.drop_first(), c)
    }
}

/// Data source of the first scrubber item whose control is `c`.
pub open spec fn sf_scrubber_data(s: Seq<(u64, InternalItem)>, c: u64) -> Option<u64>
    decreases s.len(),
{
    if s.len() == 0 {
        None
    } else if s[0].1.kind is Scrubber && s[0].1.control == Some(c) {
        s[0].1.data_source
    } else {
        sf_scrubber_data(s.drop_first(), c)
    }
}

/// Child bar and identity of the first popover item whose control is `c`.
pub open spec fn sf_popover(s: Seq<(u64, InternalItem)>, c: u64) -> Option<(u64, u64)>
    decreases s.len(),
{
    if s.len() == 0 {
        None
    } else if s[0].1.kind is Popover && s[0].1.control == Some(c) {
        match s[0].1.child_bar {
            Some(b) => Some((b, s[0].1.ident)),
            None => None,
        }
    } else {
        sf_popover(s.drop_first(), c)
    }
}

/// Handle of the first item whose identity string has the same contents
/// as the string object `ident`.
pub open spec fn sf_view_by_ident(
    st: crate::store::StoreModel,
    s: Seq<(u64, InternalItem)>,
    ident: u64,
) -> Option<u64>
    decreases s.len(),
{
    if s.len() == 0 {
        None
    } else if text_of(st, ident) is Some && text_of(st, ident) == text_of(st, s[0].1.ident) {
        Some(s[0].1.view)
    } else {
        sf_view_by_ident(st, s.drop_first(), ident)
    }
}

/// What a button press on native control `sender` dispatches to: the
/// owning item and its registered callback token, if both resolve.
pub open spec fn spec_dispatch_button(s: Seq<(u64, InternalItem)>, sender: u64) -> Option<
    (u64, u64),
> {
    match sf_button_cb(s, sender) {
        Some(cb) => match sf_view_from_control(s, sender) {
            Some(v) => Some((v, cb)),
            None => None,
        },
        None => None,
    }
}

/// What a tap gesture on the view `view` dispatches to.
pub open spec fn spec_dispatch_tap(s: Seq<(u64, InternalItem)>, view: u64) -> Option<(u64, u64)> {
    match sf_tap_cb(s, view) {
        Some(cb) => match sf_view_from_control(s, view) {
            Some(v) => Some((v, cb)),
            None => None,
        },
        None => None,
    }
}

/// What a swipe gesture on the view `view` in raw phase `raw` dispatches
/// to: nothing when the phase is unknown, else the owning item, the
/// phase, and the callback token.
pub open spec fn spec_dispatch_swipe(s: Seq<(u64, InternalItem)>, view: u64, raw: u32) -> Option<
    (u64, SwipeState, u64),
> {
    if spec_swipe_state(raw) is Unknown {
        None
    } else {
        match sf_swipe_cb(s, view) {
            Some(cb) => match sf_view_from_control(s, view) {
                Some(v) => Some((v, spec_swipe_state(raw), cb)),
                None => None,
            },
            None => None,
        }
    }
}

/// What a slider move on item `sender` dispatches to: the item, its
/// callback token, and the slider's current value.
pub open spec fn spec_dispatch_slider(m: TouchbarModel, s: Seq<(u64, InternalItem)>, sender: u64) -> Option<
    (u64, u64, u64),
> {
    match sf_slider_cb(s, sender) {
        Some(cb) => match obj_class(m.store, sender) {
            Some(ClassModel::SliderItem { min: _, max: _, value, continuous: _ }) => Some(
                (sender, cb, value),
            ),
            _ => None,
        },
        None => None,
    }
}

impl Touchbar {
    /// First item whose control is `c`.
    fn find_view_from_control(&self, c: u64) -> (r: Option<u64>)
        ensures
            r == sf_view_from_control(self.items_seq(), c),
    {
        let ghost s = self.items_seq();
        let n = self.items_len();
        let mut i: usize = 0;
        proof {
            assert(s.skip(0) =~= s);
        }
        while i < n
            invariant
                i <= n,
                n == s.len(),
                s == self.items_seq(),
                sf_view_from_control(s, c) == sf_view_from_control(s.skip(i as int), c),
            decreases n - i,
        {
            proof {
                assert(s.skip(i as int)[0] == s[i as int]);
                assert(s.skip(i as int).drop_first() =~= s.skip(i as int + 1));
            }
            let it = self.item_at(i);
            if match it.control {
                Some(cc) => cc == c,
                None => false,
            } {
                return Some(it.view);
            }
            i = i + 1;
        }
        proof {
            assert(s.skip(n as int) =~= Seq::<(u64, InternalItem)>::empty());
        }
        None
    }

    /// Button press on native control `sender`: resolves the owning
    /// button item and its callback token; a reference that matches no
    /// registered button, or a button without a callback, dispatches to
    /// nothing.
    pub fn dispatch_button_press(&self, sender: u64) -> (r: Option<(ItemId, CallbackToken)>)
        ensures
            r == spec_dispatch_button(self.items_seq(), sender),
    {
        let ghost s = self.items_seq();
        let n = self.items_len();
        let mut i: usize = 0;
        proof {
            assert(s.skip(0) =~= s);
        }
        while i < n
            invariant
                i <= n,
                n == s.len(),
                s == self.items_seq(),
                sf_button_cb(s, sender) == sf_button_cb(s.skip(i as int), sender),
            decreases n - i,
        {
            proof {
                assert(s.skip(i as int)[0] == s[i as int]);
                assert(s.skip(i as int).drop_first() =~= s.skip(i as int + 1));
            }
            let it = self.item_at(i);
            if it.kind == crate::interface::ItemKind::Button && (match it.control {
                Some(cc) => cc == sender,
                None => false,
            }) {
                match it.button_cb {
                    Some(cb) => {
                        match self.find_view_from_control(sender) {
                            Some(v) => {
                                return Some((v, cb));
                            },
                            None => {
                                return None;
                            },
                        }
                    },
                    None => {
                        return None;
                    },
                }
            }
            i = i + 1;
        }
        proof {
            assert(s.skip(n as int) =~= Seq::<(u64, InternalItem)>::empty());
        }
        None
    }

    /// Tap gesture on `view`: resolves the owning item and its tap
    /// callback token; unresolved references dispatch to nothing.
    pub fn dispatch_tap_gesture(&self, view: u64) -> (r: Option<(ItemId, CallbackToken)>)
        ensures
            r == spec_dispatch_tap(self.items_seq(), view),
    {
        let ghost s = self.items_seq();
        let n = self.items_len();
        let mut i: usize = 0;
        proof {
            assert(s.skip(0) =~= s);
        }
        while i < n
            invariant
                i <= n,
                n == s.len(),
                s == self.items_seq(),
                sf_tap_cb(s, view) == sf_tap_cb(s.skip(i as int), view),
            decreases n - i,
        {
            proof {
                assert(s.skip(i as int)[0] == s[i as int]);
                assert(s.skip(i as int).drop_first() =~= s.skip(i as int + 1));
            }
            let it = self.item_at(i);
            if match it.control {
                Some(cc) => cc == view,
                None => false,
            } {
                match it.tap_cb {
                    Some(cb) => {
                        match self.find_view_from_control(view) {
                            Some(v) => {
                                return Some((v, cb));
                            },
                            None => {
                                return None;
                            },
                        }
                    },
                    None => {
                        return None;
                    },
                }
            }
            i = i + 1;
        }
        proof {
            assert(s.skip(n as int) =~= Seq::<(u64, InternalItem)>::empty());
        }
        None
    }

    /// Swipe gesture on `view` in raw native phase `raw`: resolves the
    /// owning item, the mapped phase, and the swipe callback token; an
    /// unknown phase or an unresolved reference dispatches to nothing.
    /// The host passes the gesture's translation through to the callback.
    pub fn dispatch_swipe_gesture(&self, view: u64, raw: u32) -> (r: Option<
        (ItemId, SwipeState, CallbackToken),
    >)
        ensures
            r == spec_dispatch_swipe(self.items_seq(), view, raw),
    {
        let state = SwipeState::from_raw(raw);
        if state == SwipeState::Unknown {
            return None;
        }
        let ghost s = self.items_seq();
        let n = self.items_len();
        let mut i: usize = 0;
        proof {
            assert(s.skip(0) =~= s);
        }
        while i < n
            invariant
                i <= n,
                n == s.len(),
                s == self.items_seq(),
                state == spec_swipe_state(raw),
                !(state is Unknown),
                sf_swipe_cb(s, view) == sf_swipe_cb(s.skip(i as int), view),
            decreases n - i,
        {
            proof {
                assert(s.skip(i as int)[0] == s[i as int]);
                assert(s.skip(i as int).drop_first() =~= s.skip(i as int + 1));
            }
            let it = self.item_at(i);
            if match it.control {
                Some(cc) => cc == view,
                None => false,
            } {
                match it.swipe_cb {
                    Some(cb) => {
                        match self.find_view_from_control(view) {
                            Some(v) => {
                                return Some((v, state, cb));
                            },
                            None => {
                                return None;
                            },
                        }
                    },
                    None => {
                        return None;
                    },
                }
            }
            i = i + 1;
        }
        proof {
            assert(s.skip(n as int) =~= Seq::<(u64, InternalItem)>::empty());
        }
        None
    }

    /// Slider move on item `sender`: resolves the item, its callback
    /// token, and the slider's current value; unresolved references
    /// dispatch to nothing.
    pub fn dispatch_slider_change(&self, sender: u64) -> (r: Option<
        (ItemId, CallbackToken, u64),
    >)
        requires
            self.wf(),
        ensures
            r == spec_dispatch_slider(self@, self.items_seq(), sender),
    {
        let ghost s = self.items_seq();
        let n = self.items_len();
        let mut i: usize = 0;
        proof {
            assert(s.skip(0) =~= s);
        }
        while i < n
            invariant
                i <= n,
                n == s.len(),
                self.wf(),
                s == self.items_seq(),
                sf_slider_cb(s, sender) == sf_slider_cb(s.skip(i as int), sender),
            decreases n - i,
        {
            proof {
                assert(s.skip(i as int)[0] == s[i as int]);
                assert(s.skip(i as int).drop_first() =~= s.skip(i as int + 1));
            }
            let it = self.item_at(i);
            if it.kind == crate::interface::ItemKind::Slider && it.view == sender {
                match it.slider_cb {
                    Some(cb) => {
                        match self.slider_value(&sender) {
                            Some(v) => {
                                return Some((sender, cb, v));
                            },
                            None => {
                                return None;
                            },
                        }
                    },
                    None => {
                        return None;
                    },
                }
            }
            i = i + 1;
        }
        proof {
            assert(s.skip(n as int) =~= Seq::<(u64, InternalItem)>::empty());
        }
        None
    }

    /// Scrubber query resolution: the item handle of the scrubber whose
    /// control is `scrubber`.
    pub fn find_scrubber(&self, scrubber: u64) -> (r: Option<ItemId>)
        ensures
            r == sf_scrubber(self.items_seq(), scrubber),
    {
        let ghost s = self.items_seq();
        let n = self.items_len();
        let mut i: usize = 0;
        proof {
            assert(s.skip(0) =~= s);
        }
        while i < n
            invariant
                i <= n,
                n == s.len(),
                s == self.items_seq(),
                sf_scrubber(s, scrubber) == sf_scrubber(s.skip(i as int), scrubber),
            decreases n - i,
        {
            proof {
                assert(s.skip(i as int)[0] == s[i as int]);
                assert(s.skip(i as int).drop_first() =~= s.skip(i as int + 1));
            }
            let it = self.item_at(i);
            if it.kind == crate::interface::ItemKind::Scrubber && (match it.control {
                Some(cc) => cc == scrubber,
                None => false,
            }) {
                return Some(it.view);
            }
            i = i + 1;
        }
        proof {
            assert(s.skip(n as int) =~= Seq::<(u64, InternalItem)>::empty());
        }
        None
    }

    /// Scrubber query resolution: the shared data-source token of the
    /// scrubber whose control is `scrubber`.  The host answers count,
    /// text, width and touch queries through it.
    pub fn find_scrubber_data(&self, scrubber: u64) -> (r: Option<ScrubberDataRef>)
        ensures
            r == sf_scrubber_data(self.items_seq(), scrubber),
    {
        let ghost s = self.items_seq();
        let n = self.items_len();
        let mut i: usize = 0;
        proof {
            assert(s.skip(0) =~= s);
        }
        while i < n
            invariant
                i <= n,
                n == s.len(),
                s == self.items_seq(),
                sf_scrubber_data(s, scrubber) == sf_scrubber_data(s.skip(i as int), scrubber),
            decreases n - i,
        {
            proof {
                assert(s.skip(i as int)[0] == s[i as int]);
                assert(s.skip(i as int).drop_first() =~= s.skip(i as int + 1));
            }
            let it = self.item_at(i);
            if it.kind == crate::interface::ItemKind::Scrubber && (match it.control {
                Some(cc) => cc == scrubber,
                None => false,
            }) {
                return it.data_source;
            }
            i = i + 1;
        }
        proof {
            assert(s.skip(n as int) =~= Seq::<(u64, InternalItem)>::empty());
        }
        None
    }

    /// Popover activation on native button `sender`: resolves the child
    /// bar to present and the popover item's identity; unresolved
    /// references dispatch to nothing.
    pub fn dispatch_popover_press(&self, sender: u64) -> (r: Option<(BarId, Ident)>)
        ensures
            r == sf_popover(self.items_seq(), sender),
    {
        let ghost s = self.items_seq();
        let n = self.items_len();
        let mut i: usize = 0;
        proof {
            assert(s.skip(0) =~= s);
        }
        while i < n
            invariant
                i <= n,
                n == s.len(),
                s == self.items_seq(),
                sf_popover(s, sender) == sf_popover(s.skip(i as int), sender),
            decreases n - i,
        {
            proof {
                assert(s.skip(i as int)[0] == s[i as int]);
                assert(s.skip(i as int).drop_first() =~= s.skip(i as int + 1));
            }
            let it = self.item_at(i);
            if it.kind == crate::interface::ItemKind::Popover && (match it.control {
                Some(cc) => cc == sender,
                None => false,
            }) {
                match it.child_bar {
                    Some(b) => {
                        return Some((b, it.ident));
                    },
                    None => {
                        return None;
                    },
                }
            }
            i = i + 1;
        }
        proof {
            assert(s.skip(n as int) =~= Seq::<(u64, InternalItem)>::empty());
        }
        None
    }

    /// The toolkit's make-item query: the item whose identity string has
    /// the same contents as the string object `ident`.
    pub fn find_view(&self, ident: Ident) -> (r: Option<ItemId>)
        requires
            self.wf(),
        ensures
            r == sf_view_by_ident(self@.store, self.items_seq(), ident),
    {
        let given: Option<String> = match self.store_text(ident) {
            Some(t) => Some(t),
            None => None,
        };
        match given {
            None => {
                proof {
                    self.lemma_no_text_no_view(ident, self.items_seq());
                }
                None
            },
            Some(given_text) => {
                let ghost s = self.items_seq();
                let n = self.items_len();
                let mut i: usize = 0;
                proof {
                    assert(s.skip(0) =~= s);
                }
                while i < n
                    invariant
                        i <= n,
                        n == s.len(),
                        self.wf(),
                        s == self.items_seq(),
                        Some(given_text@) == text_of(self@.store, ident),
                        sf_view_by_ident(self@.store, s, ident) == sf_view_by_ident(
                            self@.store,
                            s.skip(i as int),
                            ident,
                        ),
                    decreases n - i,
                {
                    proof {
                        assert(s.skip(i as int)[0] == s[i as int]);
                        assert(s.skip(i as int).drop_first() =~= s.skip(i as int + 1));
                    }
                    let it = self.item_at(i);
                    let matches_here: bool = match self.store_text(it.ident) {
                        Some(t) => t == given_text,
                        None => false,
                    };
                    if matches_here {
                        return Some(it.view);
                    }
                    i = i + 1;
                }
                proof {
                    assert(s.skip(n as int) =~= Seq::<(u64, InternalItem)>::empty());
                }
                None
            },
        }
    }

    /// When the given reference is no string object, no identity matches.
    proof fn lemma_no_text_no_view(&self, ident: u64, s: Seq<(u64, InternalItem)>)
        requires
            text_of(self@.store, ident) is None,
        ensures
            sf_view_by_ident(self@.store, s, ident) is None,
        decreases s.len(),
    {
        if s.len() > 0 {
            self.lemma_no_text_no_view(ident, s.drop_first());
        }
    }

    /// The bar and identity presented when the tray item is pressed.
    pub fn present_root(&self) -> (r: Option<(BarId, Ident)>)
        ensures
            r == (match (self@.root, self@.root_ident) {
                (Some(b), Some(i)) => Some((b, i)),
                _ => None,
            }),
    {
        match (self.current_root(), self.current_root_ident()) {
            (Some(b), Some(i)) => Some((b, i)),
            _ => None,
        }
    }
}

} // verus!
