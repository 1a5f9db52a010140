//! Widgets' behaviour: what each one does with the events it receives.
pub mod buttonscroller;
pub mod calc;
pub mod clickable;
pub mod date_picker;
pub mod numberinput;
pub mod square_button;
pub mod textinput;

pub use buttonscroller::ButtonScroller;
pub use clickable::Clickable;
pub use numberinput::NumberInput;
pub use square_button::SquareButton;
pub use date_picker::DatePicker;
pub use textinput::TextInput;
