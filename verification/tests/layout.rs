//! Tests of the layout solver: fixed sizes, spacing, growth, clamping
//! and determinism.

use coffee::ui::solver::solve;
use coffee::ui::{Direction, Node, Style};

fn leaf(style: Style) -> Node {
    Node::new(style, Vec::new())
}

#[test]
fn fixed_size_resolves_exactly() {
    let node = leaf(Style::new().width(123).height(45));
    let layout = solve(&node, 1280, 1024);
    assert_eq!(layout.width, 123);
    assert_eq!(layout.height, 45);
    assert_eq!(layout.x, 0);
    assert_eq!(layout.y, 0);
}

#[test]
fn fixed_size_wins_whatever_else_is_configured() {
    let node = leaf(
        Style::new()
            .width(123)
            .height(45)
            .max_width(10)
            .max_height(7)
            .padding(9)
            .grow(),
    );
    let layout = solve(&node, 1280, 1024);
    assert_eq!(layout.width, 123);
    assert_eq!(layout.height, 45);
}

#[test]
fn empty_container_resolves_to_zero_size() {
    let node = leaf(Style::new());
    let layout = solve(&node, 1280, 1024);
    assert_eq!(layout.width, 0);
    assert_eq!(layout.height, 0);
    assert!(layout.children.is_empty());
}

#[test]
fn row_of_equal_children_spaced_exactly() {
    // Three children of fixed width 40 with 5 pixels of spacing: a
    // trailing margin on every child but the last.
    let children = vec![
        leaf(Style::new().width(40).height(10)).with_margin_end(5),
        leaf(Style::new().width(40).height(10)).with_margin_end(5),
        leaf(Style::new().width(40).height(10)),
    ];
    let row = Node::new(Style::new().width(1000).height(100), children);
    let layout = solve(&row, 1000, 100);
    assert_eq!(layout.children.len(), 3);
    for child in &layout.children {
        assert_eq!(child.width, 40);
    }
    assert_eq!(layout.children[0].x, 0);
    assert_eq!(layout.children[1].x, 45);
    assert_eq!(layout.children[2].x, 90);
    // Total content width: from the first left edge to the last right
    // edge, exactly 3 * 40 + 2 * 5.
    let span = layout.children[2].x + layout.children[2].width - layout.children[0].x;
    assert_eq!(span, 3 * 40 + 2 * 5);
}

#[test]
fn grow_children_share_leftover_space() {
    let children = vec![
        leaf(Style::new().grow().height(10)),
        leaf(Style::new().grow().height(10)),
    ];
    let row = Node::new(Style::new().width(100).height(10), children);
    let layout = solve(&row, 100, 10);
    assert_eq!(layout.children[0].width, 50);
    assert_eq!(layout.children[1].width, 50);
    assert_eq!(layout.children[1].x, 50);
}

#[test]
fn leftover_space_is_split_proportionally_to_grow_factors() {
    let children = vec![
        leaf(Style::new().grow_factor(1).height(10)),
        leaf(Style::new().grow_factor(3).height(10)),
    ];
    let row = Node::new(Style::new().width(100).height(10), children);
    let layout = solve(&row, 100, 10);
    assert_eq!(layout.children[0].width, 25);
    assert_eq!(layout.children[1].width, 75);
}

#[test]
fn grow_child_takes_what_fixed_children_leave() {
    let children = vec![
        leaf(Style::new().width(20).height(10)),
        leaf(Style::new().grow().height(10)),
    ];
    let row = Node::new(Style::new().width(100).height(10), children);
    let layout = solve(&row, 100, 10);
    assert_eq!(layout.children[0].width, 20);
    assert_eq!(layout.children[1].width, 80);
}

#[test]
fn overflow_degrades_without_negative_sizes() {
    // A fixed child wider than its parent keeps its size; the parent
    // simply overflows, and a grow sibling is clamped to zero.
    let children = vec![
        leaf(Style::new().width(100).height(10)),
        leaf(Style::new().grow().height(10)),
    ];
    let row = Node::new(Style::new().width(10).height(10), children);
    let layout = solve(&row, 10, 10);
    assert_eq!(layout.width, 10);
    assert_eq!(layout.children[0].width, 100);
    assert_eq!(layout.children[1].width, 0);
}

#[test]
fn padding_insets_the_content_box() {
    let children = vec![leaf(Style::new().grow().height(10))];
    let row = Node::new(Style::new().width(100).height(50).padding(20), children);
    let layout = solve(&row, 100, 50);
    assert_eq!(layout.children[0].x, 20);
    assert_eq!(layout.children[0].y, 20);
    assert_eq!(layout.children[0].width, 60);
}

#[test]
fn huge_padding_clamps_content_to_zero() {
    let children = vec![leaf(Style::new().grow().height(10))];
    let row = Node::new(Style::new().width(10).height(10).padding(4000), children);
    let layout = solve(&row, 10, 10);
    assert_eq!(layout.children[0].width, 0);
}

#[test]
fn cross_axis_stretch_fills_the_container() {
    let children = vec![leaf(Style::new().height(50))];
    let column = Node::new(
        Style::new().width(300).height(100).direction(Direction::Column),
        children,
    );
    let layout = solve(&column, 1280, 1024);
    assert_eq!(layout.children[0].width, 300);
}

#[test]
fn cross_axis_center_centers_fixed_children() {
    let children = vec![leaf(Style::new().width(100).height(50))];
    let column = Node::new(
        Style::new()
            .width(300)
            .height(100)
            .direction(Direction::Column)
            .center_children(),
        children,
    );
    let layout = solve(&column, 1280, 1024);
    assert_eq!(layout.children[0].x, 100);
}

#[test]
fn max_width_caps_an_unfixed_width() {
    let children = vec![leaf(Style::new().width(100).height(10))];
    let row = Node::new(Style::new().max_width(60), children);
    let layout = solve(&row, 1280, 1024);
    assert_eq!(layout.width, 60);
}

#[test]
fn solving_twice_reproduces_identical_geometry() {
    let children = vec![
        leaf(Style::new().width(40).height(10)).with_margin_end(5),
        leaf(Style::new().grow().height(20)),
        leaf(Style::new().width(7).height(30)),
    ];
    let row = Node::new(Style::new().width(1000).padding(3), children);
    let first = solve(&row, 1000, 100);
    let again = solve(&row, 1000, 100);
    assert_eq!(first, again);
}
