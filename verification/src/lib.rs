use vstd::prelude::*;
pub mod text;
pub mod font_library;
pub mod desktop_layer;
pub mod updater;
pub mod widget_window;

verus! {

/// The greeting the editor shows when it first talks to the backend.
pub fn greet(name: &str) -> (message: String)
    ensures
        message@ == "Hello, "@ + name@ + "! You've been greeted from Rust!"@,
{
    let message = String::from_str("Hello, ");
    let message = message.concat(name);
    message.concat("! You've been greeted from Rust!")
}

} // verus!
