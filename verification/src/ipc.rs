//! The named events by which the programs signal each other.
use vstd::prelude::*;

verus! {

/// A signal between the background service and the history window.
#[derive(Clone, Copy, Debug, PartialEq, Eq, Structural)]
pub enum Signal {
    /// Show the history window.
    Show,
    /// Hide the history window.
    Hide,
    /// Reload the settings.
    Reload,
    /// The history changed.
    History,
}

/// The name of the event that carries a signal.
pub open spec fn signal_name(signal: Signal) -> Seq<char> {
    match signal {
        Signal::Show => "Local\\EcpClipboard.Ui.Show"@,
        Signal::Hide => "Local\\EcpClipboard.Ui.Hide"@,
        Signal::Reload => "Local\\EcpClipboard.Background.Reload"@,
        Signal::History => "Local\\EcpClipboard.Ui.History"@,
    }
}

impl Signal {
    /// The name of the event that carries this signal.
    pub fn event_name(self) -> (name: &'static str)
        ensures
            name@ == signal_name(self),
    {
        match self {
            Signal::Show => "Local\\EcpClipboard.Ui.Show",
            Signal::Hide => "Local\\EcpClipboard.Ui.Hide",
            Signal::Reload => "Local\\EcpClipboard.Background.Reload",
            Signal::History => "Local\\EcpClipboard.Ui.History",
        }
    }
}

/// Each signal has an event of its own.
pub proof fn law_signal_names_are_distinct(a: Signal, b: Signal)
    requires
        a != b,
    ensures
        signal_name(a) != signal_name(b),
{
    reveal_strlit("Local\\EcpClipboard.Ui.Show");
    reveal_strlit("Local\\EcpClipboard.Ui.Hide");
    reveal_strlit("Local\\EcpClipboard.Background.Reload");
    reveal_strlit("Local\\EcpClipboard.Ui.History");
    let (x, y) = (signal_name(a), signal_name(b));
    if x.len() == y.len() {
        assert(x[22] != y[22] || x[21] != y[21] || x[23] != y[23]);
    }
}

} // verus!
