//! The process command button.

use vstd::prelude::*;
use crate::draw::widgets::process_taskbar::ProcessCommands;

verus! {

/// The command the process button stands for.
pub struct ProcessButton {
    pub command: ProcessCommands,
}

impl ProcessCommands {
    /// The label shown under the process list.
    pub fn bottom_header(process_command: ProcessCommands) -> (s: &'static str)
        ensures
            process_command == ProcessCommands::Select ==> s@ == "select"@,
            process_command == ProcessCommands::Kill ==> s@ == "kill"@,
    {
        match process_command {
            ProcessCommands::Select => "select",
            ProcessCommands::Kill => "kill",
        }
    }
}

impl ProcessButton {
    /// A button for selecting.
    pub fn new() -> (b: Self)
        ensures
            b.command == ProcessCommands::Select,
    {
        ProcessButton { command: ProcessCommands::Select }
    }

    /// Handles the given button: neither command has an effect here, and
    /// the button is handed back unchanged.
    pub fn signal_process(&mut self, process_button: ProcessButton) -> (r: ProcessButton)
        ensures
            r == process_button,
            *final(self) == *old(self),
    {
        if process_button.command == ProcessCommands::Select {
        } else if process_button.command == ProcessCommands::Kill {
        }
        process_button
    }

    /// Draws nothing.
    pub fn render() {
    }
}

} // verus!
