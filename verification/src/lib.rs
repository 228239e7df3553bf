//! Client-side model of the Wayland workspace management protocols.
//!
//! A Wayland compositor may advertise one of three incompatible workspace
//! protocol extensions.  This library binds the three dialects to a single
//! variant-free in-memory model: per-dialect dispatchers translate raw
//! protocol events into one event alphabet, a state engine applies queued
//! events atomically at transaction boundaries, a resolver maps symbolic
//! selectors to concrete workspace records, and a renderer emits the state
//! as text or as a JSON-ready grouping.  The transport itself (socket,
//! proxies, event queue) lives outside the library; it hands plain values
//! in and takes typed requests out.

pub mod cli;
pub mod commands;
pub mod dispatch;
pub mod model;
pub mod output;
pub mod protocol;
pub mod render;
pub mod resolve;
pub mod sorting;
pub mod workspace_state;

pub use cli::{
    Cli, Commands, GlobalOpts, ListArgs, OutputSelector, TargetOutput, WorkspaceArgs,
    WorkspaceSelector,
};
pub use commands::{choose_protocol, BindError, CommandError, CommandPlan};
pub use dispatch::{
    CosmicGroupEvent, CosmicManagerEvent, CosmicWorkspaceEvent, ExtV0GroupEvent,
    ExtV0ManagerEvent, ExtV0WorkspaceEvent, ExtV1GroupEvent, ExtV1ManagerEvent,
    ExtV1WorkspaceEvent, WireEnum,
};
pub use output::{OutputInfoData, OutputRef};
pub use protocol::{
    GroupCapabilities, GroupHandle, ManagerHandle, Protocol, Request, RequestError, TilingState,
    WorkspaceCapabilities, WorkspaceHandle, WorkspaceStates,
};
pub use render::RenderGroup;
pub use resolve::SelectorError;
pub use workspace_state::{Workspace, WorkspaceEvent, WorkspaceGroup, WorkspaceState};
