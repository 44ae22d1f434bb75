//! Lifecycle behaviour: creation, identity generation, attachment, root
//! replacement and recursive teardown.

use rubrail::interface::{SpacerType, TScrubberData};
use rubrail::touchbar::Touchbar;
use rubrail::util::nsstring_decode;

#[test]
fn test_alloc() {
    let mut tb = Touchbar::alloc_controller("test");
    let _ = tb.create_bar();
}

fn ident_suffix(s: &str) -> u64 {
    let prefix = "com.trevorbentley.";
    assert!(s.starts_with(prefix), "identity {} lacks the prefix", s);
    s[prefix.len()..].parse::<u64>().unwrap()
}

#[test]
fn identities_distinct_and_increasing() {
    let mut tb = Touchbar::alloc_controller("t");
    let mut idents: Vec<String> = Vec::new();
    for i in 0..6u64 {
        let id = tb.create_label(&format!("label {}", i));
        let item = tb.lookup_item(&id).unwrap();
        idents.push(nsstring_decode(&tb, item.ident));
    }
    let bar = tb.create_bar();
    let bar_items = tb.lookup_bar_items(&bar);
    assert!(bar_items.is_some());
    for i in 0..idents.len() {
        for j in 0..idents.len() {
            if i != j {
                assert_ne!(idents[i], idents[j]);
            }
        }
    }
    for w in idents.windows(2) {
        assert!(ident_suffix(&w[0]) < ident_suffix(&w[1]));
    }
}

#[test]
fn unattached_items_leak_by_design() {
    let mut tb = Touchbar::alloc_controller("t");
    let loner = tb.create_label("never attached");
    let lone_bar = tb.create_bar();
    let b1 = tb.create_bar();
    let a = tb.create_button(None, Some("a"), 1);
    tb.add_items_to_bar(&b1, vec![a]);
    tb.set_bar_as_root(b1);
    let b2 = tb.create_bar();
    tb.set_bar_as_root(b2);
    // The attached tree is gone...
    assert!(tb.lookup_item(&a).is_none());
    assert!(tb.lookup_bar_items(&b1).is_none());
    // ...but whatever was never attached is still registered.
    assert!(tb.lookup_item(&loner).is_some());
    assert!(tb.lookup_bar_items(&lone_bar).is_some());
}

#[test]
fn recursive_teardown_completeness() {
    let mut tb = Touchbar::alloc_controller("t");
    let child = tb.create_bar();
    let c1 = tb.create_label("one");
    let c2 = tb.create_label("two");
    let c3 = tb.create_label("three");
    tb.add_items_to_bar(&child, vec![c1, c2, c3]);
    let root = tb.create_bar();
    let p = tb.create_popover_item(None, Some("open"), &child);
    tb.add_items_to_bar(&root, vec![p]);
    tb.set_bar_as_root(root);
    let fresh = tb.create_bar();
    tb.set_bar_as_root(fresh);
    assert!(tb.lookup_bar_items(&root).is_none());
    assert!(tb.lookup_item(&p).is_none());
    assert!(tb.lookup_bar_items(&child).is_none());
    assert!(tb.lookup_item(&c1).is_none());
    assert!(tb.lookup_item(&c2).is_none());
    assert!(tb.lookup_item(&c3).is_none());
    assert!(tb.lookup_bar_items(&fresh).is_some());
}

fn position(trace: &[u64], x: u64) -> usize {
    trace.iter().position(|&t| t == x).expect("reference missing from release trace")
}

#[test]
fn teardown_order_items_before_subbars() {
    let mut tb = Touchbar::alloc_controller("t");
    let child = tb.create_bar();
    let c = tb.create_button(None, Some("c"), 10);
    tb.add_items_to_bar(&child, vec![c]);
    let root = tb.create_bar();
    let a = tb.create_button(None, Some("a"), 11);
    let p = tb.create_popover_item(None, Some("p"), &child);
    tb.add_items_to_bar(&root, vec![a, p]);
    tb.set_bar_as_root(root);
    assert!(tb.release_trace().is_empty());
    let fresh = tb.create_bar();
    tb.set_bar_as_root(fresh);
    let trace = tb.release_trace();
    // Every direct item of the root is freed before the root bar's own
    // release, which precedes everything freed for the child bar.
    assert!(position(&trace, a) < position(&trace, root));
    assert!(position(&trace, p) < position(&trace, root));
    assert!(position(&trace, root) < position(&trace, c));
    assert!(position(&trace, c) < position(&trace, child));
    // List order is kept among the direct items.
    assert!(position(&trace, a) < position(&trace, p));
}

#[test]
fn update_slider_is_idempotent() {
    let mut tb = Touchbar::alloc_controller("t");
    let min = 0.0f64.to_bits();
    let max = 100.0f64.to_bits();
    let s = tb.create_slider(min, max, true, 5);
    assert_eq!(tb.slider_value(&s), Some(min));
    let v = 42.5f64.to_bits();
    tb.update_slider(&s, v);
    assert_eq!(tb.slider_value(&s), Some(v));
    tb.update_slider(&s, v);
    assert_eq!(tb.slider_value(&s), Some(v));
    assert_eq!(f64::from_bits(tb.slider_value(&s).unwrap()), 42.5);
}

#[test]
fn bar_replace_cycle() {
    let mut tb = Touchbar::alloc_controller("t");
    let mut counter: u32 = 0;
    let b2 = tb.create_bar();
    let c = tb.create_button(None, Some("c"), 21);
    tb.add_items_to_bar(&b2, vec![c]);
    let b1 = tb.create_bar();
    let a = tb.create_button(None, Some("a"), 20);
    let p = tb.create_popover_item(None, Some("more"), &b2);
    tb.add_items_to_bar(&b1, vec![a, p]);
    tb.set_bar_as_root(b1);
    // Simulate a press on button A through the dispatcher.
    let a_control = tb.lookup_item(&a).unwrap().control.unwrap();
    if let Some((item, token)) = tb.dispatch_button_press(a_control) {
        assert_eq!(item, a);
        if token == 20 {
            counter += 1;
        }
    }
    assert_eq!(counter, 1);
    // Replace the root with a fresh empty bar.
    let b3 = tb.create_bar();
    tb.set_bar_as_root(b3);
    assert!(tb.lookup_bar_items(&b1).is_none());
    assert!(tb.lookup_item(&a).is_none());
    assert!(tb.lookup_item(&p).is_none());
    assert!(tb.lookup_bar_items(&b2).is_none());
    assert!(tb.lookup_item(&c).is_none());
    let b3_items = tb.lookup_bar_items(&b3).unwrap();
    assert!(b3_items.is_empty());
    assert_eq!(tb.current_root(), Some(b3));
}

struct SharedData {
    names: Vec<String>,
}

impl TScrubberData for SharedData {
    fn count(&self, _item: u64) -> u32 {
        self.names.len() as u32
    }

    fn text(&self, _item: u64, idx: u32) -> String {
        self.names[idx as usize].clone()
    }

    fn width(&self, _item: u64, idx: u32) -> u32 {
        10 + idx
    }

    fn touch(&self, _item: u64, _idx: u32) {}
}

#[test]
fn shared_scrubber_data() {
    let mut tb = Touchbar::alloc_controller("t");
    let data = SharedData { names: vec!["ay".to_string(), "bee".to_string(), "sea".to_string(), "dee".to_string()] };
    let token: u64 = 7;
    let s1 = tb.create_text_scrubber(token);
    let s2 = tb.create_text_scrubber(token);
    tb.select_scrubber_item(&s1, 1);
    tb.select_scrubber_item(&s2, 3);
    let s1_ctrl = tb.lookup_item(&s1).unwrap().control.unwrap();
    let s2_ctrl = tb.lookup_item(&s2).unwrap().control.unwrap();
    // Both scrubbers resolve to the one shared data source...
    let i1 = tb.find_scrubber(s1_ctrl).unwrap();
    let i2 = tb.find_scrubber(s2_ctrl).unwrap();
    assert_eq!(i1, s1);
    assert_eq!(i2, s2);
    assert_eq!(tb.find_scrubber_data(s1_ctrl), Some(token));
    assert_eq!(tb.find_scrubber_data(s2_ctrl), Some(token));
    // ...and queries through either item give identical answers.
    assert_eq!(data.count(i1), data.count(i2));
    assert_eq!(data.text(i1, 2), data.text(i2, 2));
    assert_eq!(data.width(i1, 2), data.width(i2, 2));
    // Each scrubber keeps its own selection.
    assert_eq!(tb.scrubber_selected(&s1), Some(Some(1)));
    assert_eq!(tb.scrubber_selected(&s2), Some(Some(3)));
    // A refresh keeps the selection.
    tb.refresh_scrubber(&s1);
    assert_eq!(tb.scrubber_selected(&s1), Some(Some(1)));
}

#[test]
fn spacers_use_the_standard_markers() {
    let mut tb = Touchbar::alloc_controller("t");
    let small = tb.create_spacer(SpacerType::Small);
    let large = tb.create_spacer(SpacerType::Large);
    let flexible = tb.create_spacer(SpacerType::Flexible);
    let small_it = tb.lookup_item(&small).unwrap();
    assert_eq!(small_it.ident, small);
    assert_eq!(nsstring_decode(&tb, small), "NSTouchBarItemIdentifierFixedSpaceSmall");
    assert_eq!(nsstring_decode(&tb, large), "NSTouchBarItemIdentifierFixedSpaceLarge");
    assert_eq!(nsstring_decode(&tb, flexible), "NSTouchBarItemIdentifierFlexibleSpace");
}

#[test]
fn labels_update_and_change_font_for_newlines() {
    let mut tb = Touchbar::alloc_controller("t");
    let l = tb.create_label("hello");
    assert_eq!(tb.label_text(&l).unwrap(), "hello");
    tb.update_label(&l, "first\nsecond");
    assert_eq!(tb.label_text(&l).unwrap(), "first\nsecond");
    tb.update_label_width(&l, 300);
    assert_eq!(tb.label_text(&l).unwrap(), "first\nsecond");
    // Updating through a bogus handle changes nothing.
    tb.update_label(&0xdead, "nope");
    assert_eq!(tb.label_text(&l).unwrap(), "first\nsecond");
}

#[test]
fn buttons_consume_their_images() {
    let mut tb = Touchbar::alloc_controller("t");
    let img = tb.create_image_from_template(rubrail::interface::ImageTemplate::AlarmTemplate);
    let b = tb.create_button(Some(&img), Some("alarm"), 1);
    let face = tb.button_face(&b).unwrap();
    assert_eq!(face.0.unwrap(), "alarm");
    assert_eq!(face.1.unwrap(), "NSTouchBarAlarmTemplate");
    // The image object was released when it was assigned.
    assert!(tb.release_trace().contains(&img));
    // Updating the title keeps the image.
    tb.update_button(&b, None, Some("later"));
    let face2 = tb.button_face(&b).unwrap();
    assert_eq!(face2.0.unwrap(), "later");
    assert_eq!(face2.1.unwrap(), "NSTouchBarAlarmTemplate");
    tb.update_button_width(&b, 120);
    assert_eq!(tb.button_face(&b).unwrap().0.unwrap(), "later");
}

#[test]
fn images_from_paths_keep_their_source() {
    let mut tb = Touchbar::alloc_controller("t");
    let img = tb.create_image_from_path("icons/play.png");
    let b = tb.create_button(Some(&img), None, 2);
    let face = tb.button_face(&b).unwrap();
    assert!(face.0.is_none());
    assert_eq!(face.1.unwrap(), "icons/play.png");
}

#[test]
fn nested_popovers_tear_down_depth_first() {
    let mut tb = Touchbar::alloc_controller("t");
    let grandchild = tb.create_bar();
    let g = tb.create_label("deep");
    tb.add_items_to_bar(&grandchild, vec![g]);
    let child = tb.create_bar();
    let p2 = tb.create_popover_item(None, Some("deeper"), &grandchild);
    tb.add_items_to_bar(&child, vec![p2]);
    let root = tb.create_bar();
    let p1 = tb.create_popover_item(None, Some("down"), &child);
    tb.add_items_to_bar(&root, vec![p1]);
    tb.set_bar_as_root(root);
    let fresh = tb.create_bar();
    tb.set_bar_as_root(fresh);
    for handle in [root, p1, child, p2, grandchild, g] {
        assert!(tb.lookup_item(&handle).is_none());
        assert!(tb.lookup_bar_items(&handle).is_none());
    }
    let trace = tb.release_trace();
    assert!(position(&trace, p1) < position(&trace, root));
    assert!(position(&trace, root) < position(&trace, p2));
    assert!(position(&trace, p2) < position(&trace, child));
    assert!(position(&trace, child) < position(&trace, g));
    assert!(position(&trace, g) < position(&trace, grandchild));
}

#[test]
fn replace_cycles_chain() {
    let mut tb = Touchbar::alloc_controller("t");
    let b1 = tb.create_bar();
    tb.set_bar_as_root(b1);
    let b2 = tb.create_bar();
    tb.set_bar_as_root(b2);
    let b3 = tb.create_bar();
    tb.set_bar_as_root(b3);
    assert!(tb.lookup_bar_items(&b1).is_none());
    assert!(tb.lookup_bar_items(&b2).is_none());
    assert!(tb.lookup_bar_items(&b3).is_some());
    assert_eq!(tb.current_root(), Some(b3));
}

#[test]
fn updates_through_bogus_handles_change_nothing() {
    let mut tb = Touchbar::alloc_controller("t");
    let s = tb.create_slider(0, 10, false, 1);
    let v0 = tb.slider_value(&s).unwrap();
    tb.update_slider(&0xbad, 99);
    assert_eq!(tb.slider_value(&s), Some(v0));
    // A slider handle is no scrubber; selecting through it is ignored.
    tb.select_scrubber_item(&s, 2);
    assert_eq!(tb.scrubber_selected(&s), None);
    assert_eq!(tb.slider_value(&s), Some(v0));
}

#[test]
fn adding_items_skips_unknown_handles() {
    let mut tb = Touchbar::alloc_controller("t");
    let bar = tb.create_bar();
    let l = tb.create_label("x");
    tb.add_items_to_bar(&bar, vec![0xbeef, l, 0xdead]);
    let items = tb.lookup_bar_items(&bar).unwrap();
    assert_eq!(items, vec![l]);
    // Adding to an unknown bar is ignored.
    tb.add_items_to_bar(&0xf00d, vec![l]);
    assert_eq!(tb.lookup_bar_items(&bar).unwrap(), vec![l]);
}
