use vstd::prelude::*;

verus! {

/// The error taxonomy of the dashboard.
///
/// Every fatal condition aborts the whole run; a missing telemetry entry is
/// absorbed where it occurs and never reaches a caller.
#[derive(Clone, Copy, Debug, PartialEq, Eq, Structural)]
pub enum DashboardError {
    /// The configuration file is malformed or unreadable.
    ConfigParse,
    /// A configured color token is not a recognised color name or hex literal.
    ColorParse,
    /// The configured title command failed or returned a non-zero status.
    CommandExecution,
    /// An impossible layout request: an empty component list, or a bar width
    /// below the two-character bracket minimum.
    Layout,
    /// A requested interface or mount is absent from the live snapshot.
    /// Not fatal: the component silently skips that entry.
    TelemetryUnavailable,
}

} // verus!
