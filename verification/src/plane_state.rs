//! Values the platform layer shares with its callers: the lifecycle states of
//! the control plane and the data plane, and the public error categories.
use vstd::prelude::*;

verus! {

#[derive(Debug, Clone, Copy, PartialEq, Eq, Structural)]
pub enum ControlPlaneState {
    Starting,
    Decrypting,
    Ready,
    Degraded,
    Failed,
}

#[derive(Debug, Clone, Copy, PartialEq, Eq, Structural)]
pub enum DataPlaneState {
    Unconfigured,
    Validating,
    Starting,
    Online,
    Stopping,
    Rollback,
    PermissionRequired,
    Failed,
}

/// How traffic reaches the data plane.
#[derive(Debug, Clone, Copy, PartialEq, Eq, Structural)]
pub enum ConnectionMode {
    SystemProxy,
    Tun,
}

#[derive(Debug, Clone, Copy, PartialEq, Eq, Structural)]
pub enum RoutingMode {
    Smart,
    Global,
    Direct,
}

#[derive(Debug, Clone, Copy, PartialEq, Eq, Structural)]
pub enum NodeSelectionMode {
    Auto,
    Manual,
}

/// The category of a failure as callers of the platform see it.
#[derive(Debug, Clone, Copy, PartialEq, Eq, Structural)]
pub enum ErrorCode {
    Validation,
    Bootstrap,
    Network,
    Timeout,
    Permission,
    Service,
    Cancelled,
    Internal,
}

} // verus!
