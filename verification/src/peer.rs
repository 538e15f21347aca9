//! What one device has granted to another.

use vstd::prelude::*;

verus! {

/// What a device can be allowed to do.
#[derive(Debug, Clone, Copy, PartialEq, Eq, PartialOrd, Ord, Hash, Structural)]
pub enum PeerCapability {
    SystemRead,
    ProcessRead,
    ProcessManage,
    MediaRead,
    MediaControl,
    ClipboardRead,
    ClipboardWrite,
    ClipboardSync,
    WindowRead,
    WindowControl,
    ActionRead,
    ActionExecute,
    NotificationRead,
    NotificationAcknowledge,
    RemoteInputInject,
    RemoteFilesRead,
    RemoteFilesWrite,
}

/// Who may act on whom, seen from the device that holds the grant.
#[derive(Debug, Clone, Copy, PartialEq, Eq, PartialOrd, Ord, Hash, Structural)]
pub enum GrantDirection {
    Inbound,
    Outbound,
}

/// What a grant is limited to.
#[derive(Debug, Clone, PartialEq, Eq)]
pub enum GrantConstraints {
    Unconstrained,
    RemoteFileShares { share_ids: Vec<String>, writable: bool },
}

/// A capability in one direction, possibly limited.
#[derive(Debug, Clone, PartialEq, Eq)]
pub struct Grant {
    pub capability: PeerCapability,
    pub direction: GrantDirection,
    pub constraints: GrantConstraints,
    pub granted_at_ms: i64,
}

/// True when the list holds the capability.
pub fn has_capability(capabilities: &Vec<PeerCapability>, capability: PeerCapability) -> (r: bool)
    ensures
        r == capabilities@.contains(capability),
{
    let mut i: usize = 0;
    while i < capabilities.len()
        invariant
            i <= capabilities@.len(),
            forall|j: int| 0 <= j < i ==> #[trigger] capabilities@[j] != capability,
        decreases capabilities@.len() - i,
    {
        if capabilities[i] == capability {
            return true;
        }
        i += 1;
    }
    false
}

} // verus!
