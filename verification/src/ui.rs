//! Tray menu commands the desktop shell offers; the shell renders them and
//! routes the chosen command back by its identifier.

use vstd::prelude::*;

verus! {

/// One tray menu entry.
#[derive(Clone, Copy, PartialEq, Eq, Structural, Debug)]
pub enum TrayCommand {
    ShowLogs,
    ShowMeter,
    Hide,
    StartLoa,
    Reset,
    Quit,
}

impl TrayCommand {
    /// The label the menu shows for this command.
    pub fn label(&self) -> (r: &'static str)
        ensures
            *self is ShowLogs ==> r@ == "Show Logs"@,
            *self is ShowMeter ==> r@ == "Show Meter"@,
            *self is Hide ==> r@ == "Hide Meter"@,
            *self is StartLoa ==> r@ == "Start Lost Ark"@,
            *self is Reset ==> r@ == "Reset Window"@,
            *self is Quit ==> r@ == "Quit"@,
    {
        match self {
            TrayCommand::ShowLogs => "Show Logs",
            TrayCommand::ShowMeter => "Show Meter",
            TrayCommand::Hide => "Hide Meter",
            TrayCommand::StartLoa => "Start Lost Ark",
            TrayCommand::Reset => "Reset Window",
            TrayCommand::Quit => "Quit",
        }
    }
}

} // verus!
