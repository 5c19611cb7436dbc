//! A screen of drawable components, dispatching `draw` through a common
//! trait.
//!
//! The components are gathered in an enum rather than behind trait objects,
//! which keeps the dispatch visible to the verifier; the `Draw` trait is
//! what the screen works against.

use vstd::prelude::*;

verus! {

/// Something that can draw itself.
pub trait Draw {
    /// Draws the component.
    fn draw(&self);
}

/// A push button.
pub struct Button {
    pub width: u32,
    pub height: u32,
    pub label: String,
}

impl Draw for Button {
    fn draw(&self) {
    }
}

/// A selection box offering a list of options.
pub struct SelectBox {
    pub width: u32,
    pub height: u32,
    pub options: Vec<String>,
}

impl Draw for SelectBox {
    fn draw(&self) {
    }
}

/// Any of the component kinds a screen can hold.
pub enum Component {
    Button(Button),
    SelectBox(SelectBox),
}

impl Draw for Component {
    fn draw(&self) {
        match self {
            Component::Button(b) => b.draw(),
            Component::SelectBox(s) => s.draw(),
        }
    }
}

/// A screen holding any mix of drawable components.
pub struct Screen {
    pub components: Vec<Component>,
}

impl Screen {
    /// Draws every component, in order.
    pub fn run(&self) {
        let mut i: usize = 0;
        while i < self.components.len()
            decreases self.components.len() - i,
        {
            self.components[i].draw();
            i = i + 1;
        }
    }
}

/// The worked example: a screen holding a selection box and a button,
/// drawn without knowing each component's concrete type.
pub fn run() {
    let mut components: Vec<Component> = Vec::new();
    let mut options: Vec<String> = Vec::new();
    options.push("Yes".to_owned());
    options.push("No".to_owned());
    options.push("Do not know".to_owned());
    components.push(
        Component::SelectBox(SelectBox { width: 75, height: 10, options }),
    );
    components.push(
        Component::Button(Button { width: 50, height: 10, label: "OK".to_owned() }),
    );
    let screen = Screen { components };
    screen.run();
}

} // verus!
