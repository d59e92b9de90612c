//! The retained-mode UI toolkit: styles, layout nodes, the layout
//! solver, widgets, events, and hashing-based change detection.

pub mod style;
pub mod node;
pub mod layout;
pub mod solver;
pub mod hasher;
pub mod event;
pub mod mouse_cursor;
pub mod element;
pub mod button;
pub mod checkbox;
pub mod radio;
pub mod text;
pub mod row;
pub mod column;

pub use button::Button;
pub use checkbox::Checkbox;
pub use column::Column;
pub use element::Element;
pub use event::Event;
pub use hasher::Hasher;
pub use layout::Layout;
pub use mouse_cursor::MouseCursor;
pub use node::Node;
pub use radio::Radio;
pub use row::Row;
pub use style::Align;
pub use style::Direction;
pub use style::Style;
pub use text::Text;
