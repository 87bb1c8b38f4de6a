use vstd::prelude::*;

verus! {

/// Timer capability marker for the DNS engine's runtime. The bridge supports
/// only the UDP happy path: delays and timeouts are stubbed by the glue
/// layer, which implements the engine's timer trait for a copy of this type.
#[derive(Clone, Copy, Debug)]
pub struct KLoopTimer {}

/// TCP capability marker. The bridge declares the capability slot but does
/// not support TCP; reaching a TCP code path is a hard defect, and the glue
/// layer's trait implementation fails on every call.
pub struct KLoopTcp {}

/// Spawn capability marker. The glue layer implements the engine's spawn
/// trait for a copy of this type, routing background tasks onto the executor
/// of the session named by the current-session slot.
#[derive(Clone, Copy)]
pub struct KLoopHandle;

/// Runtime capability aggregate marker: UDP transport, TCP slot, timer and
/// spawn handle, bound together for the DNS engine by the glue layer.
#[derive(Clone, Copy)]
pub struct KLoopRuntime;

} // verus!
