//! The failures that can end a run.

use vstd::prelude::*;

verus! {

/// Why a run ended. Each variant names the collaborator that failed; none of
/// them is recovered from once it has been reported.
#[derive(Clone, Copy, Debug, PartialEq, Eq, Structural)]
pub enum LinkError {
    /// The modem rejected its configuration or never reported ready.
    ModemInit,
    /// The secure storage refused the credential set.
    Provisioning,
    /// The transport could not be opened, or failed while in use.
    Transport,
    /// The command engine failed while executing a command frame.
    Engine,
    /// The serial line failed while reading or writing.
    Uart,
}

impl LinkError {
    /// A short fixed name for logs.
    pub fn name(&self) -> (text: &'static str)
        ensures
            text@ == Self::name_of(*self),
    {
        match self {
            LinkError::ModemInit => "modem-init",
            LinkError::Provisioning => "provisioning",
            LinkError::Transport => "transport",
            LinkError::Engine => "engine",
            LinkError::Uart => "uart",
        }
    }

    /// The characters of [`LinkError::name`].
    pub open spec fn name_of(error: LinkError) -> Seq<char> {
        match error {
            LinkError::ModemInit => "modem-init"@,
            LinkError::Provisioning => "provisioning"@,
            LinkError::Transport => "transport"@,
            LinkError::Engine => "engine"@,
            LinkError::Uart => "uart"@,
        }
    }
}

} // verus!
