//! Protocol dialects, handles, bit sets and typed requests.
//!
//! A compositor advertises one of three workspace protocol dialects.  A
//! handle stands for one protocol object of the bound dialect; it carries
//! the dialect tag and the server-assigned wire id, which never changes
//! during the object's lifetime.  Requests are first-class values: the
//! library decides which wire request to issue and the transport layer
//! performs it.

use vstd::prelude::*;

verus! {

/// The three mutually exclusive workspace protocol dialects.
#[derive(Debug, Clone, Copy, PartialEq, Eq, Structural)]
pub enum Protocol {
    ExtV0,
    ExtV1,
    CosmicV1,
}

/// Tiling behaviour of a workspace (reported by the CosmicV1 dialect only).
#[derive(Debug, Clone, Copy, PartialEq, Eq, Structural)]
pub enum TilingState {
    FloatingOnly,
    TilingEnabled,
}

/// Workspace state bit: the workspace is the active one.
pub const STATE_ACTIVE: u32 = 0x1;

/// Workspace state bit: the workspace is hidden.
pub const STATE_HIDDEN: u32 = 0x2;

/// Workspace state bit: the workspace demands attention.
pub const STATE_URGENT: u32 = 0x4;

/// Group capability bit: the group accepts `create_workspace` requests.
pub const GROUP_CAP_CREATE_WORKSPACE: u32 = 0x1;

/// Workspace capability bit: `activate` is supported.
pub const WS_CAP_ACTIVATE: u32 = 0x1;

/// Workspace capability bit: `deactivate` is supported.
pub const WS_CAP_DEACTIVATE: u32 = 0x2;

/// Workspace capability bit: `remove` is supported.
pub const WS_CAP_REMOVE: u32 = 0x4;

/// Workspace capability bit: `assign` is supported.
pub const WS_CAP_ASSIGN: u32 = 0x8;

/// Workspace capability bit: `rename` is supported.
pub const WS_CAP_RENAME: u32 = 0x10;

/// Workspace capability bit: `set_tiling_state` is supported.
pub const WS_CAP_SET_TILING_STATE: u32 = 0x20;

/// Bitset over the workspace states {active, hidden, urgent}.
#[derive(Debug, Clone, Copy, PartialEq, Eq, Structural)]
pub struct WorkspaceStates {
    pub bits: u32,
}

impl WorkspaceStates {
    /// The empty state set.
    pub fn empty() -> (r: Self)
        ensures
            r.bits == 0,
    {
        WorkspaceStates { bits: 0 }
    }

    /// A state set holding exactly the given bits, known or not.
    pub fn from_bits_retain(bits: u32) -> (r: Self)
        ensures
            r.bits == bits,
    {
        WorkspaceStates { bits }
    }

    /// Whether every bit of `mask` is set.
    pub fn contains(&self, mask: u32) -> (r: bool)
        ensures
            r == (self.bits & mask == mask),
    {
        self.bits & mask == mask
    }

    /// Set every bit of `mask`.
    pub fn insert(&mut self, mask: u32)
        ensures
            final(self).bits == (old(self).bits | mask),
    {
        self.bits = self.bits | mask;
    }
}

/// Bitset over the workspace capabilities.
#[derive(Debug, Clone, Copy, PartialEq, Eq, Structural)]
pub struct WorkspaceCapabilities {
    pub bits: u32,
}

impl WorkspaceCapabilities {
    /// The empty capability set.
    pub fn empty() -> (r: Self)
        ensures
            r.bits == 0,
    {
        WorkspaceCapabilities { bits: 0 }
    }

    /// A capability set holding exactly the given bits, known or not.
    pub fn from_bits_retain(bits: u32) -> (r: Self)
        ensures
            r.bits == bits,
    {
        WorkspaceCapabilities { bits }
    }

    /// Whether every bit of `mask` is set.
    pub fn contains(&self, mask: u32) -> (r: bool)
        ensures
            r == (self.bits & mask == mask),
    {
        self.bits & mask == mask
    }

    /// Set every bit of `mask`.
    pub fn insert(&mut self, mask: u32)
        ensures
            final(self).bits == (old(self).bits | mask),
    {
        self.bits = self.bits | mask;
    }
}

/// Bitset over the group capabilities.
#[derive(Debug, Clone, Copy, PartialEq, Eq, Structural)]
pub struct GroupCapabilities {
    pub bits: u32,
}

impl GroupCapabilities {
    /// The empty capability set.
    pub fn empty() -> (r: Self)
        ensures
            r.bits == 0,
    {
        GroupCapabilities { bits: 0 }
    }

    /// A capability set holding exactly the given bits, known or not.
    pub fn from_bits_retain(bits: u32) -> (r: Self)
        ensures
            r.bits == bits,
    {
        GroupCapabilities { bits }
    }

    /// Whether every bit of `mask` is set.
    pub fn contains(&self, mask: u32) -> (r: bool)
        ensures
            r == (self.bits & mask == mask),
    {
        self.bits & mask == mask
    }

    /// Set every bit of `mask`.
    pub fn insert(&mut self, mask: u32)
        ensures
            final(self).bits == (old(self).bits | mask),
    {
        self.bits = self.bits | mask;
    }
}

/// Handle of the bound workspace manager global.
#[derive(Debug, Clone, Copy, PartialEq, Eq, Structural)]
pub enum ManagerHandle {
    ExtV0(u32),
    ExtV1(u32),
    CosmicV1(u32),
}

impl ManagerHandle {
    /// The dialect this handle belongs to.
    pub open spec fn spec_protocol(self) -> Protocol {
        match self {
            ManagerHandle::ExtV0(_) => Protocol::ExtV0,
            ManagerHandle::ExtV1(_) => Protocol::ExtV1,
            ManagerHandle::CosmicV1(_) => Protocol::CosmicV1,
        }
    }

    /// The server-assigned wire id.
    pub open spec fn spec_protocol_id(self) -> u32 {
        match self {
            ManagerHandle::ExtV0(id) => id,
            ManagerHandle::ExtV1(id) => id,
            ManagerHandle::CosmicV1(id) => id,
        }
    }

    /// The dialect this handle belongs to.
    pub fn protocol(&self) -> (r: Protocol)
        ensures
            r == self.spec_protocol(),
    {
        match self {
            ManagerHandle::ExtV0(_) => Protocol::ExtV0,
            ManagerHandle::ExtV1(_) => Protocol::ExtV1,
            ManagerHandle::CosmicV1(_) => Protocol::CosmicV1,
        }
    }

    /// The server-assigned wire id.
    pub fn protocol_id(&self) -> (r: u32)
        ensures
            r == self.spec_protocol_id(),
    {
        match self {
            ManagerHandle::ExtV0(id) => *id,
            ManagerHandle::ExtV1(id) => *id,
            ManagerHandle::CosmicV1(id) => *id,
        }
    }
}

/// Handle of one workspace group object.
#[derive(Debug, Clone, Copy, PartialEq, Eq, Structural)]
pub enum GroupHandle {
    ExtV0(u32),
    ExtV1(u32),
    CosmicV1(u32),
}

impl GroupHandle {
    /// The dialect this handle belongs to.
    pub open spec fn spec_protocol(self) -> Protocol {
        match self {
            GroupHandle::ExtV0(_) => Protocol::ExtV0,
            GroupHandle::ExtV1(_) => Protocol::ExtV1,
            GroupHandle::CosmicV1(_) => Protocol::CosmicV1,
        }
    }

    /// The server-assigned wire id.
    pub open spec fn spec_protocol_id(self) -> u32 {
        match self {
            GroupHandle::ExtV0(id) => id,
            GroupHandle::ExtV1(id) => id,
            GroupHandle::CosmicV1(id) => id,
        }
    }

    /// The dialect this handle belongs to.
    pub fn protocol(&self) -> (r: Protocol)
        ensures
            r == self.spec_protocol(),
    {
        match self {
            GroupHandle::ExtV0(_) => Protocol::ExtV0,
            GroupHandle::ExtV1(_) => Protocol::ExtV1,
            GroupHandle::CosmicV1(_) => Protocol::CosmicV1,
        }
    }

    /// The server-assigned wire id.
    pub fn protocol_id(&self) -> (r: u32)
        ensures
            r == self.spec_protocol_id(),
    {
        match self {
            GroupHandle::ExtV0(id) => *id,
            GroupHandle::ExtV1(id) => *id,
            GroupHandle::CosmicV1(id) => *id,
        }
    }
}

/// Handle of one workspace object.
#[derive(Debug, Clone, Copy, PartialEq, Eq, Structural)]
pub enum WorkspaceHandle {
    ExtV0(u32),
    ExtV1(u32),
    CosmicV1(u32),
}

impl WorkspaceHandle {
    /// The dialect this handle belongs to.
    pub open spec fn spec_protocol(self) -> Protocol {
        match self {
            WorkspaceHandle::ExtV0(_) => Protocol::ExtV0,
            WorkspaceHandle::ExtV1(_) => Protocol::ExtV1,
            WorkspaceHandle::CosmicV1(_) => Protocol::CosmicV1,
        }
    }

    /// The server-assigned wire id.
    pub open spec fn spec_protocol_id(self) -> u32 {
        match self {
            WorkspaceHandle::ExtV0(id) => id,
            WorkspaceHandle::ExtV1(id) => id,
            WorkspaceHandle::CosmicV1(id) => id,
        }
    }

    /// The dialect this handle belongs to.
    pub fn protocol(&self) -> (r: Protocol)
        ensures
            r == self.spec_protocol(),
    {
        match self {
            WorkspaceHandle::ExtV0(_) => Protocol::ExtV0,
            WorkspaceHandle::ExtV1(_) => Protocol::ExtV1,
            WorkspaceHandle::CosmicV1(_) => Protocol::CosmicV1,
        }
    }

    /// The server-assigned wire id.
    pub fn protocol_id(&self) -> (r: u32)
        ensures
            r == self.spec_protocol_id(),
    {
        match self {
            WorkspaceHandle::ExtV0(id) => *id,
            WorkspaceHandle::ExtV1(id) => *id,
            WorkspaceHandle::CosmicV1(id) => *id,
        }
    }
}

/// One wire request, decided by the library and performed by the transport.
///
/// Every value translates one-to-one to a single request on the underlying
/// protocol object; issuing it never mutates the library's state, which
/// changes only through events.
#[derive(Debug, Clone, PartialEq, Eq)]
pub enum Request {
    Activate(WorkspaceHandle),
    Deactivate(WorkspaceHandle),
    Remove(WorkspaceHandle),
    Destroy(WorkspaceHandle),
    Assign(WorkspaceHandle, GroupHandle),
    CreateWorkspace(GroupHandle, String),
    Commit(ManagerHandle),
}

/// Failure of a request that the bound dialect cannot express.
#[derive(Debug, Clone, Copy, PartialEq, Eq, Structural)]
pub enum RequestError {
    UnsupportedOperation,
}

} // verus!
