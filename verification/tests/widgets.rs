//! Tests of widget behaviour: node shapes, click semantics, toggle
//! messages, cursor aggregation and the end-to-end menu scenario.

use coffee::graphics::{Color, Point, Rectangle};
use coffee::input::{ButtonState, MouseButton};
use coffee::ui::button::{self, State};
use coffee::ui::checkbox;
use coffee::ui::radio;
use coffee::ui::solver::solve;
use coffee::ui::text;
use coffee::ui::{Button, Checkbox, Column, Element, Event, MouseCursor, Radio, Row, Text};

/// A renderer that records what it is asked to draw.
struct Recorder {
    ops: Vec<String>,
}

impl Recorder {
    fn new() -> Recorder {
        Recorder { ops: Vec::new() }
    }
}

impl text::Renderer for Recorder {
    fn measure_text(&self, content: &str, size: u32) -> (u32, u32) {
        (content.chars().count() as u32 * 10, size)
    }

    fn draw_text(&mut self, bounds: Rectangle<u32>, content: &str, _size: u32, _color: Color) {
        self.ops.push(format!("text {} at {},{}", content, bounds.x, bounds.y));
    }
}

impl button::Renderer for Recorder {
    fn draw_button(
        &mut self,
        bounds: Rectangle<u32>,
        label: &str,
        is_pressed: bool,
        is_hovered: bool,
    ) {
        self.ops.push(format!(
            "button {} at {},{} pressed={} hovered={}",
            label, bounds.x, bounds.y, is_pressed, is_hovered
        ));
    }
}

impl checkbox::Renderer for Recorder {
    fn draw_checkbox(
        &mut self,
        bounds: Rectangle<u32>,
        _label_bounds: Rectangle<u32>,
        is_checked: bool,
        _is_hovered: bool,
    ) {
        self.ops.push(format!("checkbox at {},{} checked={}", bounds.x, bounds.y, is_checked));
    }
}

impl radio::Renderer for Recorder {
    fn draw_radio(
        &mut self,
        bounds: Rectangle<u32>,
        _label_bounds: Rectangle<u32>,
        is_selected: bool,
        _is_hovered: bool,
    ) {
        self.ops.push(format!("radio at {},{} selected={}", bounds.x, bounds.y, is_selected));
    }
}

fn left(state: ButtonState) -> Event {
    Event::MouseInput { state, button: MouseButton::Left }
}

#[test]
fn button_node_fixes_height_and_grows() {
    let renderer = Recorder::new();
    let element: Element<u32> = Button::new(0, "Go").width(300).into();
    let node = element.node(&renderer);
    assert_eq!(node.style.width, Some(300));
    assert_eq!(node.style.height, Some(50));
    assert_eq!(node.style.grow, 1);
    assert!(node.children.is_empty());
}

#[test]
fn row_node_injects_spacing_as_trailing_margins() {
    let renderer = Recorder::new();
    let element: Element<u32> = Row::new()
        .spacing(30)
        .push(Button::new(0, "A").into())
        .push(Button::new(1, "B").into())
        .push(Button::new(2, "C").into())
        .into();
    let node = element.node(&renderer);
    assert_eq!(node.children.len(), 3);
    assert_eq!(node.children[0].margin_end, 30);
    assert_eq!(node.children[1].margin_end, 30);
    assert_eq!(node.children[2].margin_end, 0);
}

#[test]
fn click_inside_emits_exactly_once() {
    let renderer = Recorder::new();
    let element: Element<u32> = Button::new(0, "Go").width(100).on_click(7).into();
    let node = element.node(&renderer);
    let layout = solve(&node, 100, 50);
    let mut messages: Vec<u32> = Vec::new();
    let mut states = vec![State::new()];
    let inside = Point::new(10, 10);
    element.on_event(left(ButtonState::Pressed), &layout, inside, &mut messages, &mut states);
    assert!(messages.is_empty());
    assert!(states[0].is_pressed);
    element.on_event(left(ButtonState::Released), &layout, inside, &mut messages, &mut states);
    assert_eq!(messages, vec![7]);
    assert!(!states[0].is_pressed);
}

#[test]
fn press_that_leaves_the_bounds_emits_nothing() {
    let renderer = Recorder::new();
    let element: Element<u32> = Button::new(0, "Go").width(100).on_click(7).into();
    let node = element.node(&renderer);
    let layout = solve(&node, 100, 50);
    let mut messages: Vec<u32> = Vec::new();
    let mut states = vec![State::new()];
    element.on_event(
        left(ButtonState::Pressed),
        &layout,
        Point::new(10, 10),
        &mut messages,
        &mut states,
    );
    element.on_event(
        left(ButtonState::Released),
        &layout,
        Point::new(500, 500),
        &mut messages,
        &mut states,
    );
    assert!(messages.is_empty());
    assert!(!states[0].is_pressed);
}

#[test]
fn press_outside_then_release_inside_emits_nothing() {
    let renderer = Recorder::new();
    let element: Element<u32> = Button::new(0, "Go").width(100).on_click(7).into();
    let node = element.node(&renderer);
    let layout = solve(&node, 100, 50);
    let mut messages: Vec<u32> = Vec::new();
    let mut states = vec![State::new()];
    element.on_event(
        left(ButtonState::Pressed),
        &layout,
        Point::new(500, 500),
        &mut messages,
        &mut states,
    );
    element.on_event(
        left(ButtonState::Released),
        &layout,
        Point::new(10, 10),
        &mut messages,
        &mut states,
    );
    assert!(messages.is_empty());
}

#[test]
fn checkbox_toggle_emits_flipped_state() {
    let renderer = Recorder::new();
    let element: Element<bool> = Checkbox::new(false, "Enable", |checked| checked).into();
    let node = element.node(&renderer);
    let layout = solve(&node, 400, 100);
    let mut messages: Vec<bool> = Vec::new();
    let mut states: Vec<State> = Vec::new();
    element.on_event(
        left(ButtonState::Pressed),
        &layout,
        Point::new(5, 5),
        &mut messages,
        &mut states,
    );
    assert_eq!(messages, vec![true]);
}

#[test]
fn checked_checkbox_toggles_off() {
    let renderer = Recorder::new();
    let element: Element<bool> = Checkbox::new(true, "Enable", |checked| checked).into();
    let node = element.node(&renderer);
    let layout = solve(&node, 400, 100);
    let mut messages: Vec<bool> = Vec::new();
    let mut states: Vec<State> = Vec::new();
    element.on_event(
        left(ButtonState::Pressed),
        &layout,
        Point::new(5, 5),
        &mut messages,
        &mut states,
    );
    assert_eq!(messages, vec![false]);
}

#[test]
fn button_without_a_message_emits_nothing() {
    let renderer = Recorder::new();
    let element: Element<u32> = Button::new(0, "Go").width(100).into();
    let node = element.node(&renderer);
    let layout = solve(&node, 100, 50);
    let mut messages: Vec<u32> = Vec::new();
    let mut states = vec![State::new()];
    let inside = Point::new(10, 10);
    element.on_event(left(ButtonState::Pressed), &layout, inside, &mut messages, &mut states);
    element.on_event(left(ButtonState::Released), &layout, inside, &mut messages, &mut states);
    assert!(messages.is_empty());
}

#[test]
fn radio_click_emits_its_message() {
    let renderer = Recorder::new();
    let element: Element<u32> = Radio::new(false, "Option", 3).into();
    let node = element.node(&renderer);
    let layout = solve(&node, 400, 100);
    let mut messages: Vec<u32> = Vec::new();
    let mut states: Vec<State> = Vec::new();
    element.on_event(
        left(ButtonState::Pressed),
        &layout,
        Point::new(5, 5),
        &mut messages,
        &mut states,
    );
    assert_eq!(messages, vec![3]);
    // A click far away emits nothing.
    element.on_event(
        left(ButtonState::Pressed),
        &layout,
        Point::new(5000, 5000),
        &mut messages,
        &mut states,
    );
    assert_eq!(messages, vec![3]);
}

#[test]
fn hovered_interactive_child_yields_pointer_from_container() {
    let mut renderer = Recorder::new();
    let element: Element<u32> = Row::new()
        .spacing(10)
        .push(Text::new("left").into())
        .push(Button::new(0, "Go").width(80).into())
        .push(Text::new("right").into())
        .into();
    let node = element.node(&renderer);
    let layout = solve(&node, 400, 100);
    let states = vec![State::new()];
    let over_button = Point::new(
        (layout.children[1].x + 5) as i32,
        (layout.children[1].y + 5) as i32,
    );
    let cursor = element.draw(&mut renderer, &layout, over_button, &states);
    assert_eq!(cursor, MouseCursor::Pointer);
    let far_away = Point::new(-50, -50);
    let cursor = element.draw(&mut renderer, &layout, far_away, &states);
    assert_eq!(cursor, MouseCursor::Default);
}

#[test]
fn menu_of_three_buttons_resolves_like_the_examples_menu() {
    let renderer = Recorder::new();
    let element: Element<u32> = Column::new()
        .width(300)
        .spacing(30)
        .push(Button::new(0, "A").on_click(0).into())
        .push(Button::new(1, "B").on_click(1).into())
        .push(Button::new(2, "C").on_click(2).into())
        .into();
    let node = element.node(&renderer);
    let layout = solve(&node, 1280, 1024);
    assert_eq!(layout.width, 300);
    assert_eq!(layout.children.len(), 3);
    for child in &layout.children {
        assert_eq!(child.width, 300);
        assert_eq!(child.height, 50);
    }
    assert_eq!(layout.children[0].y, 0);
    assert_eq!(layout.children[1].y, 80);
    assert_eq!(layout.children[2].y, 160);
    // The gap between consecutive buttons is exactly the spacing, and
    // the last button has no trailing margin below it.
    assert_eq!(layout.children[1].y - (layout.children[0].y + 50), 30);
    assert_eq!(layout.children[2].y - (layout.children[1].y + 50), 30);
    assert_eq!(layout.height, 50 + 30 + 50 + 30 + 50);
}

#[test]
fn draw_hands_the_renderer_each_widget() {
    let mut renderer = Recorder::new();
    let element: Element<u32> = Column::new()
        .push(Button::new(0, "Go").into())
        .push(Checkbox::new(true, "Enable", |_| 0).into())
        .push(Text::new("hello").into())
        .into();
    let node = element.node(&renderer);
    let layout = solve(&node, 500, 500);
    let states = vec![State::new()];
    let _ = element.draw(&mut renderer, &layout, Point::new(-1, -1), &states);
    assert!(renderer.ops.iter().any(|op| op.contains("button Go")));
    assert!(renderer.ops.iter().any(|op| op.contains("checked=true")));
    assert!(renderer.ops.iter().any(|op| op.contains("text hello")));
}
