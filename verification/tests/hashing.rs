//! Tests of hashing-based change detection: determinism, content
//! purity, and sensitivity to layout-relevant content.

use coffee::ui::{Button, Checkbox, Column, Element, Hasher, Row, Text};

fn digest(element: &Element<u32>) -> u64 {
    let mut hasher = Hasher::new();
    element.hash(&mut hasher);
    hasher.digest
}

fn sample_tree(label: &str, checked: bool, state: usize) -> Element<u32> {
    Column::new()
        .width(300)
        .spacing(30)
        .push(Button::new(state, label).on_click(1).into())
        .push(Checkbox::new(checked, "Enable", |_| 2).into())
        .push(Text::new("hello").size(24).into())
        .into()
}

#[test]
fn identical_trees_digest_equally() {
    let a = sample_tree("Go", false, 0);
    let b = sample_tree("Go", false, 0);
    assert_eq!(digest(&a), digest(&b));
}

#[test]
fn changing_a_label_changes_the_digest() {
    let a = sample_tree("Go", false, 0);
    let b = sample_tree("Stop", false, 0);
    assert_ne!(digest(&a), digest(&b));
}

#[test]
fn transient_interaction_state_never_reaches_the_digest() {
    // Checked state, message values and state handles do not affect
    // layout-relevant content, so the digest stays the same.
    let a = sample_tree("Go", false, 0);
    let b = sample_tree("Go", true, 5);
    assert_eq!(digest(&a), digest(&b));
}

#[test]
fn spacing_changes_the_digest() {
    let a: Element<u32> = Row::new().spacing(10).push(Text::new("x").into()).into();
    let b: Element<u32> = Row::new().spacing(20).push(Text::new("x").into()).into();
    assert_ne!(digest(&a), digest(&b));
}

#[test]
fn child_order_changes_the_digest() {
    let a: Element<u32> = Row::new()
        .push(Text::new("x").into())
        .push(Text::new("y").into())
        .into();
    let b: Element<u32> = Row::new()
        .push(Text::new("y").into())
        .push(Text::new("x").into())
        .into();
    assert_ne!(digest(&a), digest(&b));
}

#[test]
fn widget_kind_changes_the_digest() {
    let a: Element<u32> = Checkbox::new(false, "same", |_| 0).into();
    let b: Element<u32> = Radio::new(false, "same", 0).into();
    assert_ne!(digest(&a), digest(&b));
}

use coffee::ui::Radio;

#[test]
fn string_boundaries_are_part_of_the_digest() {
    // The accumulator folds in each string's length, so differently
    // split labels over two children cannot collide by concatenation.
    let a: Element<u32> = Row::new()
        .push(Text::new("ab").into())
        .push(Text::new("c").into())
        .into();
    let b: Element<u32> = Row::new()
        .push(Text::new("a").into())
        .push(Text::new("bc").into())
        .into();
    assert_ne!(digest(&a), digest(&b));
}

#[test]
fn layout_relevant_style_changes_the_digest() {
    let a: Element<u32> = Button::new(0, "Go").width(100).into();
    let b: Element<u32> = Button::new(0, "Go").width(200).into();
    assert_ne!(digest(&a), digest(&b));
}

#[test]
fn hasher_is_deterministic_across_runs_of_the_same_writes() {
    let mut h1 = Hasher::new();
    let mut h2 = Hasher::new();
    h1.write_str("hello");
    h1.write_u64(42);
    h1.write_bool(true);
    h2.write_str("hello");
    h2.write_u64(42);
    h2.write_bool(true);
    assert_eq!(h1.digest, h2.digest);
    h2.write_u32(0);
    assert_ne!(h1.digest, h2.digest);
}
