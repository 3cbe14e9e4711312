//! The input dialog for creating, renaming and deleting files.
use vstd::prelude::*;

verus! {

/// Which dialog is shown (`Inactive`: no dialog).
#[derive(Debug, Clone, Copy, PartialEq, Eq, Structural)]
pub enum DialogType {
    Inactive,
    NewFile,
    NewFolder,
    Rename,
    Delete,
}

/// The dialog, its typed input and the error of its last attempt.
#[derive(Debug, Clone)]
pub struct DialogState {
    pub dialog_type: DialogType,
    pub input: String,
    pub error: Option<String>,
}

impl Default for DialogState {
    /// No dialog, no input, no error.
    fn default() -> (d: Self)
        ensures
            d.dialog_type == DialogType::Inactive,
            d.input@.len() == 0,
            d.error is None,
    {
        DialogState { dialog_type: DialogType::Inactive, input: String::new(), error: None }
    }
}

impl DialogState {
    /// Shows the dialog of the given type with empty input and no error.
    pub fn show(&mut self, dialog_type: DialogType)
        ensures
            final(self).dialog_type == dialog_type,
            final(self).input@.len() == 0,
            final(self).error is None,
    {
        self.dialog_type = dialog_type;
        self.input = String::new();
        self.error = None;
    }

    /// Hides the dialog, clearing input and error.
    pub fn dismiss(&mut self)
        ensures
            final(self).dialog_type == DialogType::Inactive,
            final(self).input@.len() == 0,
            final(self).error is None,
    {
        self.dialog_type = DialogType::Inactive;
        self.input = String::new();
        self.error = None;
    }
}

} // verus!
