//! Dispatcher behaviour: resolving native event references back to items,
//! callbacks and data sources, and degrading silently on misses.

use rubrail::interface::SwipeState;
use rubrail::touchbar::Touchbar;
use rubrail::util::{bundled_resource_path, nsstring_decode};

#[test]
fn button_press_resolves_to_item_and_token() {
    let mut tb = Touchbar::alloc_controller("t");
    let b = tb.create_button(None, Some("go"), 99);
    let ctrl = tb.lookup_item(&b).unwrap().control.unwrap();
    assert_eq!(tb.dispatch_button_press(ctrl), Some((b, 99)));
}

#[test]
fn dispatcher_ignores_unknown_references() {
    let mut tb = Touchbar::alloc_controller("t");
    let _ = tb.create_button(None, Some("go"), 99);
    let _ = tb.create_label("l");
    assert_eq!(tb.dispatch_button_press(0xdeadbeef), None);
    assert_eq!(tb.dispatch_tap_gesture(0xdeadbeef), None);
    assert_eq!(tb.dispatch_swipe_gesture(0xdeadbeef, 2), None);
    assert_eq!(tb.dispatch_slider_change(0xdeadbeef), None);
    assert_eq!(tb.find_scrubber(0xdeadbeef), None);
    assert_eq!(tb.find_scrubber_data(0xdeadbeef), None);
    assert_eq!(tb.dispatch_popover_press(0xdeadbeef), None);
}

#[test]
fn press_on_label_control_is_no_button() {
    let mut tb = Touchbar::alloc_controller("t");
    let l = tb.create_label("l");
    let ctrl = tb.lookup_item(&l).unwrap().control.unwrap();
    // The control resolves, but it is no button: nothing is dispatched.
    assert_eq!(tb.dispatch_button_press(ctrl), None);
}

#[test]
fn gestures_attach_to_items_with_views() {
    let mut tb = Touchbar::alloc_controller("t");
    let l = tb.create_label("l");
    let ctrl = tb.lookup_item(&l).unwrap().control.unwrap();
    // Without a registered callback nothing is dispatched.
    assert_eq!(tb.dispatch_tap_gesture(ctrl), None);
    tb.add_item_tap_gesture(&l, 1, 1, 31);
    tb.add_item_swipe_gesture(&l, 32);
    assert_eq!(tb.dispatch_tap_gesture(ctrl), Some((l, 31)));
    assert_eq!(tb.dispatch_swipe_gesture(ctrl, 1), Some((l, SwipeState::Began, 32)));
    assert_eq!(tb.dispatch_swipe_gesture(ctrl, 2), Some((l, SwipeState::Changed, 32)));
    assert_eq!(tb.dispatch_swipe_gesture(ctrl, 3), Some((l, SwipeState::Ended, 32)));
    assert_eq!(tb.dispatch_swipe_gesture(ctrl, 4), Some((l, SwipeState::Cancelled, 32)));
    assert_eq!(tb.dispatch_swipe_gesture(ctrl, 5), Some((l, SwipeState::Failed, 32)));
    // An unknown phase never dispatches.
    assert_eq!(tb.dispatch_swipe_gesture(ctrl, 0), None);
    assert_eq!(tb.dispatch_swipe_gesture(ctrl, 77), None);
    // A spacer has no view to attach to: the gesture is ignored.
    let sp = tb.create_spacer(rubrail::interface::SpacerType::Small);
    tb.add_item_tap_gesture(&sp, 1, 1, 33);
    assert!(tb.lookup_item(&sp).unwrap().tap_cb.is_none());
}

#[test]
fn slider_moves_report_the_current_value() {
    let mut tb = Touchbar::alloc_controller("t");
    let min = 1.0f64.to_bits();
    let max = 9.0f64.to_bits();
    let s = tb.create_slider(min, max, false, 44);
    let v = 3.25f64.to_bits();
    tb.update_slider(&s, v);
    assert_eq!(tb.dispatch_slider_change(s), Some((s, 44, v)));
}

#[test]
fn popover_press_presents_the_child_bar() {
    let mut tb = Touchbar::alloc_controller("t");
    let child = tb.create_bar();
    let p = tb.create_popover_item(None, Some("open"), &child);
    let rec = tb.lookup_item(&p).unwrap();
    let btn = rec.control.unwrap();
    assert_eq!(tb.dispatch_popover_press(btn), Some((child, rec.ident)));
}

#[test]
fn make_item_query_matches_identity_contents() {
    let mut tb = Touchbar::alloc_controller("t");
    let a = tb.create_label("a");
    let b = tb.create_label("b");
    let a_ident = tb.lookup_item(&a).unwrap().ident;
    let b_ident = tb.lookup_item(&b).unwrap().ident;
    assert_eq!(tb.find_view(a_ident), Some(a));
    assert_eq!(tb.find_view(b_ident), Some(b));
    // A reference that is no string object matches nothing.
    assert_eq!(tb.find_view(a), None);
    assert_eq!(tb.find_view(0xdead), None);
}

#[test]
fn root_presentation_state() {
    let mut tb = Touchbar::alloc_controller("tray");
    assert_eq!(tb.present_root(), None);
    tb.set_icon("icons/tray.png");
    let bar = tb.create_bar();
    tb.set_bar_as_root(bar);
    let (b, ident) = tb.present_root().unwrap();
    assert_eq!(b, bar);
    assert!(nsstring_decode(&tb, ident).starts_with("com.trevorbentley."));
}

#[test]
fn string_decoding_and_bundle_lookup() {
    let mut tb = Touchbar::alloc_controller("t");
    let l = tb.create_label("x");
    let ident = tb.lookup_item(&l).unwrap().ident;
    assert_eq!(nsstring_decode(&tb, ident), "com.trevorbentley.0");
    // Anything that is no string object decodes to the empty string.
    assert_eq!(nsstring_decode(&tb, 0xdead), "");
    assert_eq!(nsstring_decode(&tb, l), "");
    // No application bundle, no resources.
    assert_eq!(bundled_resource_path("icon", "png"), None);
}

#[test]
fn dummy_controller_allocates() {
    let _ = rubrail::dummy::DummyTouchbar::alloc_controller("test");
}
