//! The task bar under the process list: `Select Kill`.

use vstd::prelude::*;
use crate::ui::{MouseInput, MouseKind, Rect};

verus! {

/// A command of the task bar.
#[derive(PartialEq, Eq, Structural, Clone, Copy, Debug)]
pub enum ProcessCommands {
    Select,
    Kill,
}

/// The chosen command and where the bar was drawn.
pub struct ProcessTaskBar {
    command: ProcessCommands,
    last_render_area: Option<Rect>,
}

/// The width of the first button, `"Select "`.
pub const SELECT_WIDTH: u16 = 7;

/// The width of the second button, `"Kill "`.
pub const KILL_WIDTH: u16 = 5;

/// The area leaves room to lay both buttons out from its left edge.
pub open spec fn bar_area_ok(a: Rect) -> bool {
    a.fits() && a.x + SELECT_WIDTH + KILL_WIDTH <= u16::MAX
}

/// The command under a mouse event, for a bar drawn at `area`.
pub open spec fn clicked_command(area: Option<Rect>, m: MouseInput) -> Option<ProcessCommands> {
    match area {
        Some(a) => if m.kind == MouseKind::LeftDown && a.contains_spec(m.column, m.row) {
            if a.x <= m.column < a.x + SELECT_WIDTH {
                Some(ProcessCommands::Select)
            } else if a.x + SELECT_WIDTH <= m.column < a.x + SELECT_WIDTH + KILL_WIDTH {
                Some(ProcessCommands::Kill)
            } else {
                None
            }
        } else {
            None
        },
        None => None,
    }
}

/// Whether a button is highlighted: `Kill` while a process is selected,
/// `Select` otherwise.
pub open spec fn is_active(cmd: ProcessCommands, selected_pid: u32) -> bool {
    if selected_pid != 0 {
        cmd == ProcessCommands::Kill
    } else {
        cmd == ProcessCommands::Select
    }
}

impl ProcessTaskBar {
    #[verifier::type_invariant]
    spec fn inv(self) -> bool {
        self.last_render_area matches Some(a) ==> bar_area_ok(a)
    }

    /// The chosen command.
    pub closed spec fn command_spec(self) -> ProcessCommands {
        self.command
    }

    /// The chosen command.
    pub fn command(&self) -> (c: ProcessCommands)
        ensures
            c == self.command_spec(),
    {
        self.command
    }

    /// Where the bar was last drawn.
    pub closed spec fn area_spec(self) -> Option<Rect> {
        self.last_render_area
    }

    /// A bar with `Select` chosen, not drawn yet.
    pub fn new() -> (b: Self)
        ensures
            b.command_spec() == ProcessCommands::Select,
            b.area_spec() is None,
    {
        ProcessTaskBar { command: ProcessCommands::Select, last_render_area: None }
    }

    /// Records where the bar is drawn.
    pub fn set_render_area(&mut self, area: Rect)
        requires
            bar_area_ok(area),
        ensures
            final(self).command_spec() == old(self).command_spec(),
            final(self).area_spec() == Some(area),
    {
        self.last_render_area = Some(area);
    }

    /// The buttons in order, each label with its trailing space, and whether
    /// it is highlighted.
    pub fn buttons(selected_pid: u32) -> (v: Vec<(&'static str, bool)>)
        ensures
            v@.len() == 2,
            v@[0].0@ == "Select "@ && v@[0].1 == is_active(ProcessCommands::Select, selected_pid),
            v@[1].0@ == "Kill "@ && v@[1].1 == is_active(ProcessCommands::Kill, selected_pid),
    {
        let mut v: Vec<(&'static str, bool)> = Vec::new();
        v.push(("Select ", Self::button_active(ProcessCommands::Select, selected_pid)));
        v.push(("Kill ", Self::button_active(ProcessCommands::Kill, selected_pid)));
        v
    }

    /// The process to signal for the chosen command: the selected one when
    /// `Kill` is chosen and a process (pid not 0) is selected, else none.
    pub fn signal_process(&self, selected_pid: u32) -> (r: Option<u32>)
        ensures
            r == (if selected_pid != 0 && self.command_spec() == ProcessCommands::Kill {
                Some(selected_pid)
            } else {
                None::<u32>
            }),
    {
        if selected_pid == 0 {
            return None;
        }
        match self.command {
            ProcessCommands::Select => None,
            ProcessCommands::Kill => Some(selected_pid),
        }
    }

    /// Whether the button of `cmd` is highlighted.
    pub fn button_active(cmd: ProcessCommands, selected_pid: u32) -> (r: bool)
        ensures
            r == is_active(cmd, selected_pid),
    {
        if selected_pid != 0 {
            cmd == ProcessCommands::Kill
        } else {
            cmd == ProcessCommands::Select
        }
    }

    /// The command under a left click, which becomes the chosen command.
    pub fn handle_click(&mut self, mouse_event: MouseInput) -> (r: Option<ProcessCommands>)
        ensures
            r == clicked_command(old(self).area_spec(), mouse_event),
            final(self).area_spec() == old(self).area_spec(),
            final(self).command_spec() == (match r {
                Some(c) => c,
                None => old(self).command_spec(),
            }),
    {
        proof {
            use_type_invariant(&*self);
        }
        let area = match self.last_render_area {
            Some(a) => a,
            None => return None,
        };
        if mouse_event.kind != MouseKind::LeftDown {
            return None;
        }
        let col = mouse_event.column;
        if !area.contains(col, mouse_event.row) {
            return None;
        }
        let mut x = area.x;
        if col >= x && col < x + SELECT_WIDTH {
            self.command = ProcessCommands::Select;
            return Some(ProcessCommands::Select);
        }
        x = x + SELECT_WIDTH;
        if col >= x && col < x + KILL_WIDTH {
            self.command = ProcessCommands::Kill;
            return Some(ProcessCommands::Kill);
        }
        None
    }
}

} // verus!
