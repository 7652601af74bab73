//! Loggers for the library's components.

use vstd::prelude::*;

use crate::logging::StructuredLogger;

verus! {

/// The logger of the command executor.
pub fn command_executor() -> (l: StructuredLogger)
    ensures
        l.component@ == "command_executor"@,
        l.default_fields.spec_map().dom().is_empty(),
{
    StructuredLogger::new("command_executor")
}

/// The logger of the event store.
pub fn event_store() -> (l: StructuredLogger)
    ensures
        l.component@ == "event_store"@,
        l.default_fields.spec_map().dom().is_empty(),
{
    StructuredLogger::new("event_store")
}

/// The logger of the projection manager.
pub fn projection_manager() -> (l: StructuredLogger)
    ensures
        l.component@ == "projection_manager"@,
        l.default_fields.spec_map().dom().is_empty(),
{
    StructuredLogger::new("projection_manager")
}

/// The logger of the subscription manager.
pub fn subscription_manager() -> (l: StructuredLogger)
    ensures
        l.component@ == "subscription_manager"@,
        l.default_fields.spec_map().dom().is_empty(),
{
    StructuredLogger::new("subscription_manager")
}

/// The logger of the health monitor.
pub fn health_monitor() -> (l: StructuredLogger)
    ensures
        l.component@ == "health_monitor"@,
        l.default_fields.spec_map().dom().is_empty(),
{
    StructuredLogger::new("health_monitor")
}

/// The logger of security events.
pub fn security() -> (l: StructuredLogger)
    ensures
        l.component@ == "security"@,
        l.default_fields.spec_map().dom().is_empty(),
{
    StructuredLogger::new("security")
}

} // verus!
