//! Plain state of the editor's buttons and preset choosers.

use vstd::prelude::*;

verus! {

#[derive(Debug, Clone, Copy, PartialEq, Eq, Structural)]
pub enum ThemeColor {
    Dark,
    Light,
    Danger,
    Highlight,
}

#[derive(Debug, Clone)]
pub struct ButtonWidget {
    pub text: String,
    pub bg_color: ThemeColor,
}

impl ButtonWidget {
    pub fn new(text: String) -> (r: ButtonWidget)
        ensures
            r.text@ == text@,
            r.bg_color == ThemeColor::Light,
    {
        ButtonWidget { text, bg_color: ThemeColor::Light }
    }

    /// The same button on another background.
    pub fn color(self, bg_color: ThemeColor) -> (r: ButtonWidget)
        ensures
            r.text@ == self.text@,
            r.bg_color == bg_color,
    {
        ButtonWidget { bg_color, ..self }
    }
}

#[derive(Debug, Clone)]
pub struct ToggleButtonWidget {
    pub text: String,
    pub selected: bool,
    pub can_deselect: bool,
}

impl ToggleButtonWidget {
    pub fn new(text: String) -> (r: ToggleButtonWidget)
        ensures
            r.text@ == text@,
            !r.selected,
            !r.can_deselect,
    {
        ToggleButtonWidget { text, selected: false, can_deselect: false }
    }
}

/// A button that stands for one preset value.
#[derive(Debug)]
pub struct PresetWidget<T> {
    pub button: ButtonWidget,
    pub preset: T,
    pub selected: bool,
}

impl<T> PresetWidget<T> {
    pub fn new(name: String, preset: T) -> (r: PresetWidget<T>)
        ensures
            r.button.text@ == name@,
            r.button.bg_color == ThemeColor::Light,
            r.preset == preset,
            !r.selected,
    {
        PresetWidget { button: ButtonWidget::new(name), preset, selected: false }
    }
}

/// The editing panel; it keeps no state of its own.
#[derive(Debug)]
pub struct EditorEditUi {}

impl EditorEditUi {
    pub fn new() -> (r: EditorEditUi) {
        EditorEditUi {  }
    }
}

} // verus!
