//! Per-dialect dispatchers.
//!
//! Each bound dialect delivers raw events on its manager, group and
//! workspace objects.  The transport hands them in here as plain values;
//! every function tags the handles with the bound dialect, decodes the
//! dialect-specific state and capability encodings, and enqueues zero or
//! one protocol-neutral event.  A malformed payload (a state buffer of
//! the wrong length, an unknown enum value, undeclared capability bits)
//! drops the event; the committed snapshot never changes here except on
//! the dialect's end-of-transaction mark, which drains the queue.

use vstd::prelude::*;

use crate::model::{apply_all, EventModel};
use crate::output::OutputRef;
use crate::protocol::{
    GroupCapabilities, GroupHandle, Protocol, TilingState, WorkspaceCapabilities, WorkspaceHandle,
    WorkspaceStates,
};
use crate::workspace_state::{WorkspaceEvent, WorkspaceState};

verus! {

/// The group capability bits the protocols declare.
pub const GROUP_CAPS_MASK: u32 = 0x1;

/// The workspace capability bits the protocols declare.
pub const WS_CAPS_MASK: u32 = 0x3f;

/// A protocol enum value as the wire delivers it: either one the
/// generated bindings know, or an undeclared numeric value.
#[derive(Debug, Clone, Copy, PartialEq, Eq, Structural)]
pub enum WireEnum {
    Value(u32),
    Unknown(u32),
}

/// The 32-bit word stored little-endian in the first four bytes.
pub open spec fn le32(s: Seq<u8>) -> u32
    recommends
        s.len() == 4,
{
    (s[0] + s[1] * 0x100 + s[2] * 0x10000 + s[3] * 0x1000000) as u32
}

/// One Cosmic workspace capability byte, with the documented compositor
/// quirk: the values 8 and 16 are rotated left by one before being
/// inserted.
pub open spec fn cosmic_cap_bits(b: u8) -> u32 {
    if b == 8 {
        16
    } else if b == 16 {
        32
    } else {
        b as u32
    }
}

/// The Cosmic workspace capability word: every payload byte, rotated
/// where the quirk demands, OR-ed together.
pub open spec fn cosmic_ws_caps_word(s: Seq<u8>) -> u32
    decreases s.len(),
{
    if s.len() == 0 {
        0u32
    } else {
        cosmic_ws_caps_word(s.drop_last()) | cosmic_cap_bits(s.last())
    }
}

/// The Cosmic group capability word: every payload byte OR-ed together.
pub open spec fn byte_caps_word(s: Seq<u8>) -> u32
    decreases s.len(),
{
    if s.len() == 0 {
        0u32
    } else {
        byte_caps_word(s.drop_last()) | (s.last() as u32)
    }
}

/// Read the little-endian 32-bit state word from a raw state buffer.
/// A buffer that is not exactly four bytes long is rejected.
fn decode_state_word(buffer: &Vec<u8>) -> (r: Option<u32>)
    ensures
        buffer@.len() == 4 ==> r == Some(le32(buffer@)),
        buffer@.len() != 4 ==> r is None,
{
    if buffer.len() != 4 {
        return None;
    }
    let b0 = buffer[0] as u32;
    let b1 = buffer[1] as u32;
    let b2 = buffer[2] as u32;
    let b3 = buffer[3] as u32;
    Some(b0 + b1 * 0x100 + b2 * 0x10000 + b3 * 0x1000000)
}

/// Accumulate the Cosmic workspace capability word from the payload.
fn decode_cosmic_ws_caps(payload: &Vec<u8>) -> (r: u32)
    ensures
        r == cosmic_ws_caps_word(payload@),
{
    let n = payload.len();
    let mut acc: u32 = 0;
    let mut i: usize = 0;
    while i < n
        invariant
            n == payload@.len(),
            i <= n,
            acc == cosmic_ws_caps_word(payload@.take(i as int)),
        decreases n - i,
    {
        let b = payload[i];
        let bits: u32 = if b == 8 {
            16
        } else if b == 16 {
            32
        } else {
            b as u32
        };
        acc = acc | bits;
        proof {
            assert(payload@.take(i + 1).drop_last() =~= payload@.take(i as int));
            assert(payload@.take(i + 1).last() == payload@[i as int]);
        }
        i += 1;
    }
    proof {
        assert(payload@.take(n as int) =~= payload@);
    }
    acc
}

/// Accumulate the Cosmic group capability word from the payload.
fn decode_byte_caps(payload: &Vec<u8>) -> (r: u32)
    ensures
        r == byte_caps_word(payload@),
{
    let n = payload.len();
    let mut acc: u32 = 0;
    let mut i: usize = 0;
    while i < n
        invariant
            n == payload@.len(),
            i <= n,
            acc == byte_caps_word(payload@.take(i as int)),
        decreases n - i,
    {
        acc = acc | (payload[i] as u32);
        proof {
            assert(payload@.take(i + 1).drop_last() =~= payload@.take(i as int));
            assert(payload@.take(i + 1).last() == payload@[i as int]);
        }
        i += 1;
    }
    proof {
        assert(payload@.take(n as int) =~= payload@);
    }
    acc
}

/// Raw events of the ExtV0 manager object.
#[derive(Debug, Clone, Copy, PartialEq, Eq, Structural)]
pub enum ExtV0ManagerEvent {
    WorkspaceGroup { workspace_group: u32 },
    Done,
    Finished,
}

/// Raw events of an ExtV0 group object.
#[derive(Debug)]
pub enum ExtV0GroupEvent {
    OutputEnter { output: OutputRef },
    OutputLeave { output: OutputRef },
    Remove,
    Workspace { workspace: u32 },
}

/// Raw events of an ExtV0 workspace object.
#[derive(Debug)]
pub enum ExtV0WorkspaceEvent {
    State { state: Vec<u8> },
    Name { name: String },
    Coordinates { coordinates: Vec<u8> },
    Remove,
}

/// Raw events of the ExtV1 manager object.
#[derive(Debug, Clone, Copy, PartialEq, Eq, Structural)]
pub enum ExtV1ManagerEvent {
    WorkspaceGroup { workspace_group: u32 },
    Workspace { workspace: u32 },
    Done,
    Finished,
}

/// Raw events of an ExtV1 group object.
#[derive(Debug)]
pub enum ExtV1GroupEvent {
    OutputEnter { output: OutputRef },
    OutputLeave { output: OutputRef },
    Removed,
    Capabilities { capabilities: WireEnum },
    WorkspaceEnter { workspace: u32 },
    WorkspaceLeave { workspace: u32 },
}

/// Raw events of an ExtV1 workspace object.
#[derive(Debug)]
pub enum ExtV1WorkspaceEvent {
    Id { id: String },
    State { state: WireEnum },
    Name { name: String },
    Coordinates { coordinates: Vec<u8> },
    Removed,
    Capabilities { capabilities: WireEnum },
}

/// Raw events of the Cosmic manager object.
#[derive(Debug, Clone, Copy, PartialEq, Eq, Structural)]
pub enum CosmicManagerEvent {
    WorkspaceGroup { workspace_group: u32 },
    Done,
    Finished,
}

/// Raw events of a Cosmic group object.
#[derive(Debug)]
pub enum CosmicGroupEvent {
    OutputEnter { output: OutputRef },
    OutputLeave { output: OutputRef },
    Remove,
    Capabilities { capabilities: Vec<u8> },
    Workspace { workspace: u32 },
}

/// Raw events of a Cosmic workspace object.
#[derive(Debug)]
pub enum CosmicWorkspaceEvent {
    State { state: Vec<u8> },
    Name { name: String },
    Coordinates { coordinates: Vec<u8> },
    Remove,
    Capabilities { capabilities: Vec<u8> },
    TilingState { state: WireEnum },
}

impl WorkspaceState {
    /// Translate one raw ExtV0 manager event.
    pub fn ext_v0_manager_event(&mut self, event: ExtV0ManagerEvent)
        requires
            old(self).protocol == Protocol::ExtV0,
        ensures
            final(self).manager == old(self).manager,
            final(self).protocol == old(self).protocol,
            old(self).wf() ==> final(self).wf(),
            match event {
                ExtV0ManagerEvent::WorkspaceGroup { workspace_group } => {
                    &&& final(self).snapshot() == old(self).snapshot()
                    &&& final(self).pending() == old(self).pending().push(
                        EventModel::GroupCreated { group: GroupHandle::ExtV0(workspace_group) },
                    )
                },
                ExtV0ManagerEvent::Done => {
                    &&& final(self).pending().len() == 0
                    &&& final(self).snapshot() == apply_all(
                        old(self).snapshot(),
                        old(self).pending(),
                    )
                },
                ExtV0ManagerEvent::Finished => {
                    &&& final(self).snapshot() == old(self).snapshot()
                    &&& final(self).pending() == old(self).pending().push(EventModel::Finished)
                },
            },
    {
        match event {
            ExtV0ManagerEvent::WorkspaceGroup { workspace_group } => {
                self.push_event(
                    WorkspaceEvent::WorkspaceGroupCreated(GroupHandle::ExtV0(workspace_group)),
                );
            },
            ExtV0ManagerEvent::Done => {
                self.handle_events();
            },
            ExtV0ManagerEvent::Finished => {
                self.push_event(WorkspaceEvent::ManagerFinished);
            },
        }
    }

    /// Translate one raw ExtV0 group event.
    pub fn ext_v0_group_event(&mut self, group: u32, event: ExtV0GroupEvent)
        requires
            old(self).protocol == Protocol::ExtV0,
        ensures
            final(self).manager == old(self).manager,
            final(self).protocol == old(self).protocol,
            final(self).snapshot() == old(self).snapshot(),
            old(self).wf() ==> final(self).wf(),
            match event {
                ExtV0GroupEvent::OutputEnter { output } => final(self).pending() == old(
                    self,
                ).pending().push(
                    EventModel::OutputEnter {
                        group: GroupHandle::ExtV0(group),
                        output: output@,
                    },
                ),
                ExtV0GroupEvent::OutputLeave { output } => final(self).pending() == old(
                    self,
                ).pending().push(
                    EventModel::OutputLeave {
                        group: GroupHandle::ExtV0(group),
                        output: output@,
                    },
                ),
                ExtV0GroupEvent::Remove => final(self).pending() == old(self).pending().push(
                    EventModel::GroupRemoved { group: GroupHandle::ExtV0(group) },
                ),
                ExtV0GroupEvent::Workspace { workspace } => final(self).pending() == old(
                    self,
                ).pending().push(
                    EventModel::Created {
                        group: Some(GroupHandle::ExtV0(group)),
                        workspace: WorkspaceHandle::ExtV0(workspace),
                    },
                ),
            },
    {
        let handle = GroupHandle::ExtV0(group);
        match event {
            ExtV0GroupEvent::OutputEnter { output } => {
                self.push_event(WorkspaceEvent::OutputEnter(handle, output));
            },
            ExtV0GroupEvent::OutputLeave { output } => {
                self.push_event(WorkspaceEvent::OutputLeave(handle, output));
            },
            ExtV0GroupEvent::Remove => {
                self.push_event(WorkspaceEvent::WorkspaceGroupRemoved(handle));
            },
            ExtV0GroupEvent::Workspace { workspace } => {
                self.push_event(
                    WorkspaceEvent::WorkspaceCreated(
                        Some(handle),
                        WorkspaceHandle::ExtV0(workspace),
                    ),
                );
            },
        }
    }

    /// Translate one raw ExtV0 workspace event.  The state payload is a
    /// byte buffer holding one little-endian 32-bit word; a buffer of
    /// any other length drops the event.
    pub fn ext_v0_workspace_event(&mut self, workspace: u32, event: ExtV0WorkspaceEvent)
        requires
            old(self).protocol == Protocol::ExtV0,
        ensures
            final(self).manager == old(self).manager,
            final(self).protocol == old(self).protocol,
            final(self).snapshot() == old(self).snapshot(),
            old(self).wf() ==> final(self).wf(),
            match event {
                ExtV0WorkspaceEvent::State { state } => {
                    &&& state@.len() == 4 ==> final(self).pending() == old(self).pending().push(
                        EventModel::StateChanged {
                            workspace: WorkspaceHandle::ExtV0(workspace),
                            state: WorkspaceStates { bits: le32(state@) },
                        },
                    )
                    &&& state@.len() != 4 ==> final(self).pending() == old(self).pending()
                },
                ExtV0WorkspaceEvent::Name { name } => final(self).pending() == old(
                    self,
                ).pending().push(
                    EventModel::NameChanged {
                        workspace: WorkspaceHandle::ExtV0(workspace),
                        name: name@,
                    },
                ),
                ExtV0WorkspaceEvent::Coordinates { coordinates } => final(self).pending() == old(
                    self,
                ).pending().push(
                    EventModel::CoordinatesChanged {
                        workspace: WorkspaceHandle::ExtV0(workspace),
                        coordinates: coordinates@,
                    },
                ),
                ExtV0WorkspaceEvent::Remove => final(self).pending() == old(self).pending().push(
                    EventModel::Removed { workspace: WorkspaceHandle::ExtV0(workspace) },
                ),
            },
    {
        let handle = WorkspaceHandle::ExtV0(workspace);
        match event {
            ExtV0WorkspaceEvent::State { state } => {
                match decode_state_word(&state) {
                    Some(bits) => {
                        self.push_event(
                            WorkspaceEvent::WorkspaceState(
                                handle,
                                WorkspaceStates::from_bits_retain(bits),
                            ),
                        );
                    },
                    None => {},
                }
            },
            ExtV0WorkspaceEvent::Name { name } => {
                self.push_event(WorkspaceEvent::WorkspaceName(handle, name));
            },
            ExtV0WorkspaceEvent::Coordinates { coordinates } => {
                self.push_event(WorkspaceEvent::WorkspaceCoord(handle, coordinates));
            },
            ExtV0WorkspaceEvent::Remove => {
                self.push_event(WorkspaceEvent::WorkspaceRemoved(handle));
            },
        }
    }

    /// Translate one raw ExtV1 manager event.  ExtV1 announces new
    /// workspaces on the manager, with no owning group yet.
    pub fn ext_v1_manager_event(&mut self, event: ExtV1ManagerEvent)
        requires
            old(self).protocol == Protocol::ExtV1,
        ensures
            final(self).manager == old(self).manager,
            final(self).protocol == old(self).protocol,
            old(self).wf() ==> final(self).wf(),
            match event {
                ExtV1ManagerEvent::WorkspaceGroup { workspace_group } => {
                    &&& final(self).snapshot() == old(self).snapshot()
                    &&& final(self).pending() == old(self).pending().push(
                        EventModel::GroupCreated { group: GroupHandle::ExtV1(workspace_group) },
                    )
                },
                ExtV1ManagerEvent::Workspace { workspace } => {
                    &&& final(self).snapshot() == old(self).snapshot()
                    &&& final(self).pending() == old(self).pending().push(
                        EventModel::Created {
                            group: None,
                            workspace: WorkspaceHandle::ExtV1(workspace),
                        },
                    )
                },
                ExtV1ManagerEvent::Done => {
                    &&& final(self).pending().len() == 0
                    &&& final(self).snapshot() == apply_all(
                        old(self).snapshot(),
                        old(self).pending(),
                    )
                },
                ExtV1ManagerEvent::Finished => {
                    &&& final(self).snapshot() == old(self).snapshot()
                    &&& final(self).pending() == old(self).pending().push(EventModel::Finished)
                },
            },
    {
        match event {
            ExtV1ManagerEvent::WorkspaceGroup { workspace_group } => {
                self.push_event(
                    WorkspaceEvent::WorkspaceGroupCreated(GroupHandle::ExtV1(workspace_group)),
                );
            },
            ExtV1ManagerEvent::Workspace { workspace } => {
                self.push_event(
                    WorkspaceEvent::WorkspaceCreated(None, WorkspaceHandle::ExtV1(workspace)),
                );
            },
            ExtV1ManagerEvent::Done => {
                self.handle_events();
            },
            ExtV1ManagerEvent::Finished => {
                self.push_event(WorkspaceEvent::ManagerFinished);
            },
        }
    }

    /// Translate one raw ExtV1 group event.  Capabilities arrive as a
    /// typed bitset; a value with undeclared bits, or an unknown enum
    /// value, drops the event.
    pub fn ext_v1_group_event(&mut self, group: u32, event: ExtV1GroupEvent)
        requires
            old(self).protocol == Protocol::ExtV1,
        ensures
            final(self).manager == old(self).manager,
            final(self).protocol == old(self).protocol,
            final(self).snapshot() == old(self).snapshot(),
            old(self).wf() ==> final(self).wf(),
            match event {
                ExtV1GroupEvent::OutputEnter { output } => final(self).pending() == old(
                    self,
                ).pending().push(
                    EventModel::OutputEnter {
                        group: GroupHandle::ExtV1(group),
                        output: output@,
                    },
                ),
                ExtV1GroupEvent::OutputLeave { output } => final(self).pending() == old(
                    self,
                ).pending().push(
                    EventModel::OutputLeave {
                        group: GroupHandle::ExtV1(group),
                        output: output@,
                    },
                ),
                ExtV1GroupEvent::Removed => final(self).pending() == old(self).pending().push(
                    EventModel::GroupRemoved { group: GroupHandle::ExtV1(group) },
                ),
                ExtV1GroupEvent::Capabilities { capabilities } => match capabilities {
                    WireEnum::Value(bits) => {
                        &&& bits & !GROUP_CAPS_MASK == 0 ==> final(self).pending() == old(
                            self,
                        ).pending().push(
                            EventModel::GroupCapabilities {
                                group: GroupHandle::ExtV1(group),
                                capabilities: GroupCapabilities { bits },
                            },
                        )
                        &&& bits & !GROUP_CAPS_MASK != 0 ==> final(self).pending() == old(
                            self,
                        ).pending()
                    },
                    WireEnum::Unknown(_) => final(self).pending() == old(self).pending(),
                },
                ExtV1GroupEvent::WorkspaceEnter { workspace } => final(self).pending() == old(
                    self,
                ).pending().push(
                    EventModel::EnterGroup {
                        workspace: WorkspaceHandle::ExtV1(workspace),
                        group: GroupHandle::ExtV1(group),
                    },
                ),
                ExtV1GroupEvent::WorkspaceLeave { workspace } => final(self).pending() == old(
                    self,
                ).pending().push(
                    EventModel::LeaveGroup {
                        workspace: WorkspaceHandle::ExtV1(workspace),
                        group: GroupHandle::ExtV1(group),
                    },
                ),
            },
    {
        let handle = GroupHandle::ExtV1(group);
        match event {
            ExtV1GroupEvent::OutputEnter { output } => {
                self.push_event(WorkspaceEvent::OutputEnter(handle, output));
            },
            ExtV1GroupEvent::OutputLeave { output } => {
                self.push_event(WorkspaceEvent::OutputLeave(handle, output));
            },
            ExtV1GroupEvent::Removed => {
                self.push_event(WorkspaceEvent::WorkspaceGroupRemoved(handle));
            },
            ExtV1GroupEvent::Capabilities { capabilities } => {
                match capabilities {
                    WireEnum::Value(bits) => {
                        if bits & !GROUP_CAPS_MASK == 0 {
                            self.push_event(
                                WorkspaceEvent::WorkspaceGroupCapabilities(
                                    handle,
                                    GroupCapabilities::from_bits_retain(bits),
                                ),
                            );
                        }
                    },
                    WireEnum::Unknown(_) => {},
                }
            },
            ExtV1GroupEvent::WorkspaceEnter { workspace } => {
                self.push_event(
                    WorkspaceEvent::WorkspaceEnter(WorkspaceHandle::ExtV1(workspace), handle),
                );
            },
            ExtV1GroupEvent::WorkspaceLeave { workspace } => {
                self.push_event(
                    WorkspaceEvent::WorkspaceLeave(WorkspaceHandle::ExtV1(workspace), handle),
                );
            },
        }
    }

    /// Translate one raw ExtV1 workspace event.  State and capabilities
    /// arrive as typed bitsets; unknown enum values, and capability
    /// values with undeclared bits, drop the event.
    pub fn ext_v1_workspace_event(&mut self, workspace: u32, event: ExtV1WorkspaceEvent)
        requires
            old(self).protocol == Protocol::ExtV1,
        ensures
            final(self).manager == old(self).manager,
            final(self).protocol == old(self).protocol,
            final(self).snapshot() == old(self).snapshot(),
            old(self).wf() ==> final(self).wf(),
            match event {
                ExtV1WorkspaceEvent::Id { id } => final(self).pending() == old(
                    self,
                ).pending().push(
                    EventModel::IdChanged { workspace: WorkspaceHandle::ExtV1(workspace), id: id@ },
                ),
                ExtV1WorkspaceEvent::State { state } => match state {
                    WireEnum::Value(bits) => final(self).pending() == old(self).pending().push(
                        EventModel::StateChanged {
                            workspace: WorkspaceHandle::ExtV1(workspace),
                            state: WorkspaceStates { bits },
                        },
                    ),
                    WireEnum::Unknown(_) => final(self).pending() == old(self).pending(),
                },
                ExtV1WorkspaceEvent::Name { name } => final(self).pending() == old(
                    self,
                ).pending().push(
                    EventModel::NameChanged {
                        workspace: WorkspaceHandle::ExtV1(workspace),
                        name: name@,
                    },
                ),
                ExtV1WorkspaceEvent::Coordinates { coordinates } => final(self).pending() == old(
                    self,
                ).pending().push(
                    EventModel::CoordinatesChanged {
                        workspace: WorkspaceHandle::ExtV1(workspace),
                        coordinates: coordinates@,
                    },
                ),
                ExtV1WorkspaceEvent::Removed => final(self).pending() == old(self).pending().push(
                    EventModel::Removed { workspace: WorkspaceHandle::ExtV1(workspace) },
                ),
                ExtV1WorkspaceEvent::Capabilities { capabilities } => match capabilities {
                    WireEnum::Value(bits) => {
                        &&& bits & !WS_CAPS_MASK == 0 ==> final(self).pending() == old(
                            self,
                        ).pending().push(
                            EventModel::CapabilitiesChanged {
                                workspace: WorkspaceHandle::ExtV1(workspace),
                                capabilities: WorkspaceCapabilities { bits },
                            },
                        )
                        &&& bits & !WS_CAPS_MASK != 0 ==> final(self).pending() == old(
                            self,
                        ).pending()
                    },
                    WireEnum::Unknown(_) => final(self).pending() == old(self).pending(),
                },
            },
    {
        let handle = WorkspaceHandle::ExtV1(workspace);
        match event {
            ExtV1WorkspaceEvent::Id { id } => {
                self.push_event(WorkspaceEvent::WorkspaceId(handle, id));
            },
            ExtV1WorkspaceEvent::State { state } => {
                match state {
                    WireEnum::Value(bits) => {
                        self.push_event(
                            WorkspaceEvent::WorkspaceState(
                                handle,
                                WorkspaceStates::from_bits_retain(bits),
                            ),
                        );
                    },
                    WireEnum::Unknown(_) => {},
                }
            },
            ExtV1WorkspaceEvent::Name { name } => {
                self.push_event(WorkspaceEvent::WorkspaceName(handle, name));
            },
            ExtV1WorkspaceEvent::Coordinates { coordinates } => {
                self.push_event(WorkspaceEvent::WorkspaceCoord(handle, coordinates));
            },
            ExtV1WorkspaceEvent::Removed => {
                self.push_event(WorkspaceEvent::WorkspaceRemoved(handle));
            },
            ExtV1WorkspaceEvent::Capabilities { capabilities } => {
                match capabilities {
                    WireEnum::Value(bits) => {
                        if bits & !WS_CAPS_MASK == 0 {
                            self.push_event(
                                WorkspaceEvent::WorkspaceCapabilities(
                                    handle,
                                    WorkspaceCapabilities::from_bits_retain(bits),
                                ),
                            );
                        }
                    },
                    WireEnum::Unknown(_) => {},
                }
            },
        }
    }

    /// Translate one raw Cosmic manager event.
    pub fn cosmic_manager_event(&mut self, event: CosmicManagerEvent)
        requires
            old(self).protocol == Protocol::CosmicV1,
        ensures
            final(self).manager == old(self).manager,
            final(self).protocol == old(self).protocol,
            old(self).wf() ==> final(self).wf(),
            match event {
                CosmicManagerEvent::WorkspaceGroup { workspace_group } => {
                    &&& final(self).snapshot() == old(self).snapshot()
                    &&& final(self).pending() == old(self).pending().push(
                        EventModel::GroupCreated {
                            group: GroupHandle::CosmicV1(workspace_group),
                        },
                    )
                },
                CosmicManagerEvent::Done => {
                    &&& final(self).pending().len() == 0
                    &&& final(self).snapshot() == apply_all(
                        old(self).snapshot(),
                        old(self).pending(),
                    )
                },
                CosmicManagerEvent::Finished => {
                    &&& final(self).snapshot() == old(self).snapshot()
                    &&& final(self).pending() == old(self).pending().push(EventModel::Finished)
                },
            },
    {
        match event {
            CosmicManagerEvent::WorkspaceGroup { workspace_group } => {
                self.push_event(
                    WorkspaceEvent::WorkspaceGroupCreated(
                        GroupHandle::CosmicV1(workspace_group),
                    ),
                );
            },
            CosmicManagerEvent::Done => {
                self.handle_events();
            },
            CosmicManagerEvent::Finished => {
                self.push_event(WorkspaceEvent::ManagerFinished);
            },
        }
    }

    /// Translate one raw Cosmic group event.  Group capabilities arrive
    /// as one byte per capability value, OR-ed into a set.
    pub fn cosmic_group_event(&mut self, group: u32, event: CosmicGroupEvent)
        requires
            old(self).protocol == Protocol::CosmicV1,
        ensures
            final(self).manager == old(self).manager,
            final(self).protocol == old(self).protocol,
            final(self).snapshot() == old(self).snapshot(),
            old(self).wf() ==> final(self).wf(),
            match event {
                CosmicGroupEvent::OutputEnter { output } => final(self).pending() == old(
                    self,
                ).pending().push(
                    EventModel::OutputEnter {
                        group: GroupHandle::CosmicV1(group),
                        output: output@,
                    },
                ),
                CosmicGroupEvent::OutputLeave { output } => final(self).pending() == old(
                    self,
                ).pending().push(
                    EventModel::OutputLeave {
                        group: GroupHandle::CosmicV1(group),
                        output: output@,
                    },
                ),
                CosmicGroupEvent::Remove => final(self).pending() == old(self).pending().push(
                    EventModel::GroupRemoved { group: GroupHandle::CosmicV1(group) },
                ),
                CosmicGroupEvent::Capabilities { capabilities } => final(self).pending() == old(
                    self,
                ).pending().push(
                    EventModel::GroupCapabilities {
                        group: GroupHandle::CosmicV1(group),
                        capabilities: GroupCapabilities { bits: byte_caps_word(capabilities@) },
                    },
                ),
                CosmicGroupEvent::Workspace { workspace } => final(self).pending() == old(
                    self,
                ).pending().push(
                    EventModel::Created {
                        group: Some(GroupHandle::CosmicV1(group)),
                        workspace: WorkspaceHandle::CosmicV1(workspace),
                    },
                ),
            },
    {
        let handle = GroupHandle::CosmicV1(group);
        match event {
            CosmicGroupEvent::OutputEnter { output } => {
                self.push_event(WorkspaceEvent::OutputEnter(handle, output));
            },
            CosmicGroupEvent::OutputLeave { output } => {
                self.push_event(WorkspaceEvent::OutputLeave(handle, output));
            },
            CosmicGroupEvent::Remove => {
                self.push_event(WorkspaceEvent::WorkspaceGroupRemoved(handle));
            },
            CosmicGroupEvent::Capabilities { capabilities } => {
                let bits = decode_byte_caps(&capabilities);
                self.push_event(
                    WorkspaceEvent::WorkspaceGroupCapabilities(
                        handle,
                        GroupCapabilities::from_bits_retain(bits),
                    ),
                );
            },
            CosmicGroupEvent::Workspace { workspace } => {
                self.push_event(
                    WorkspaceEvent::WorkspaceCreated(
                        Some(handle),
                        WorkspaceHandle::CosmicV1(workspace),
                    ),
                );
            },
        }
    }

    /// Translate one raw Cosmic workspace event.  The state payload is a
    /// little-endian 32-bit word whose bits are used exactly as sent;
    /// the capability bytes 8 and 16 carry the documented rotation
    /// quirk; an unknown tiling value drops the event.
    pub fn cosmic_workspace_event(&mut self, workspace: u32, event: CosmicWorkspaceEvent)
        requires
            old(self).protocol == Protocol::CosmicV1,
        ensures
            final(self).manager == old(self).manager,
            final(self).protocol == old(self).protocol,
            final(self).snapshot() == old(self).snapshot(),
            old(self).wf() ==> final(self).wf(),
            match event {
                CosmicWorkspaceEvent::State { state } => {
                    &&& state@.len() == 4 ==> final(self).pending() == old(self).pending().push(
                        EventModel::StateChanged {
                            workspace: WorkspaceHandle::CosmicV1(workspace),
                            state: WorkspaceStates { bits: le32(state@) },
                        },
                    )
                    &&& state@.len() != 4 ==> final(self).pending() == old(self).pending()
                },
                CosmicWorkspaceEvent::Name { name } => final(self).pending() == old(
                    self,
                ).pending().push(
                    EventModel::NameChanged {
                        workspace: WorkspaceHandle::CosmicV1(workspace),
                        name: name@,
                    },
                ),
                CosmicWorkspaceEvent::Coordinates { coordinates } => final(self).pending() == old(
                    self,
                ).pending().push(
                    EventModel::CoordinatesChanged {
                        workspace: WorkspaceHandle::CosmicV1(workspace),
                        coordinates: coordinates@,
                    },
                ),
                CosmicWorkspaceEvent::Remove => final(self).pending() == old(self).pending().push(
                    EventModel::Removed { workspace: WorkspaceHandle::CosmicV1(workspace) },
                ),
                CosmicWorkspaceEvent::Capabilities { capabilities } => final(self).pending()
                    == old(self).pending().push(
                    EventModel::CapabilitiesChanged {
                        workspace: WorkspaceHandle::CosmicV1(workspace),
                        capabilities: WorkspaceCapabilities {
                            bits: cosmic_ws_caps_word(capabilities@),
                        },
                    },
                ),
                CosmicWorkspaceEvent::TilingState { state } => match state {
                    WireEnum::Value(v) => {
                        &&& v == 0 ==> final(self).pending() == old(self).pending().push(
                            EventModel::TilingChanged {
                                workspace: WorkspaceHandle::CosmicV1(workspace),
                                tiling_state: TilingState::FloatingOnly,
                            },
                        )
                        &&& v == 1 ==> final(self).pending() == old(self).pending().push(
                            EventModel::TilingChanged {
                                workspace: WorkspaceHandle::CosmicV1(workspace),
                                tiling_state: TilingState::TilingEnabled,
                            },
                        )
                        &&& v > 1 ==> final(self).pending() == old(self).pending()
                    },
                    WireEnum::Unknown(_) => final(self).pending() == old(self).pending(),
                },
            },
    {
        let handle = WorkspaceHandle::CosmicV1(workspace);
        match event {
            CosmicWorkspaceEvent::State { state } => {
                match decode_state_word(&state) {
                    Some(bits) => {
                        self.push_event(
                            WorkspaceEvent::WorkspaceState(
                                handle,
                                WorkspaceStates::from_bits_retain(bits),
                            ),
                        );
                    },
                    None => {},
                }
            },
            CosmicWorkspaceEvent::Name { name } => {
                self.push_event(WorkspaceEvent::WorkspaceName(handle, name));
            },
            CosmicWorkspaceEvent::Coordinates { coordinates } => {
                self.push_event(WorkspaceEvent::WorkspaceCoord(handle, coordinates));
            },
            CosmicWorkspaceEvent::Remove => {
                self.push_event(WorkspaceEvent::WorkspaceRemoved(handle));
            },
            CosmicWorkspaceEvent::Capabilities { capabilities } => {
                let bits = decode_cosmic_ws_caps(&capabilities);
                self.push_event(
                    WorkspaceEvent::WorkspaceCapabilities(
                        handle,
                        WorkspaceCapabilities::from_bits_retain(bits),
                    ),
                );
            },
            CosmicWorkspaceEvent::TilingState { state } => {
                match state {
                    WireEnum::Value(v) => {
                        if v == 0 {
                            self.push_event(
                                WorkspaceEvent::WorkspaceTilingState(
                                    handle,
                                    TilingState::FloatingOnly,
                                ),
                            );
                        } else if v == 1 {
                            self.push_event(
                                WorkspaceEvent::WorkspaceTilingState(
                                    handle,
                                    TilingState::TilingEnabled,
                                ),
                            );
                        }
                    },
                    WireEnum::Unknown(_) => {},
                }
            },
        }
    }
}

} // verus!
