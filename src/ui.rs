//! The screen: the backend interface and the drawing of one frame.
use vstd::prelude::*;
use crate::app::App;

verus! {

/// A place to draw the installer's screens.
pub trait UiBackend {
    /// Prepares the output.
    fn init(&mut self) -> Result<(), String>;

    /// Fills the screen with one colour.
    fn clear(&mut self, r: u8, g: u8, b: u8) -> Result<(), String>;

    /// Draws lines of text.
    fn render_text(&mut self, lines: &[String]) -> Result<(), String>;

    /// Shows what was drawn.
    fn present(&mut self) -> Result<(), String>;

    /// Restores the output's previous state.
    fn cleanup(&mut self) -> Result<(), String>;
}

/// Draws the current screen: a dark blue background, then its lines of text.
pub fn render_frame<U: UiBackend>(app: &App, ui: &mut U) -> Result<(), String> {
    ui.clear(0, 0, 64)?;
    let lines = app.get_display_text();
    ui.render_text(lines.as_slice())?;
    ui.present()
}

} // verus!
