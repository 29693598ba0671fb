//! The switch that turns the HTTP logs on and off.
use vstd::prelude::*;

verus! {

/// Whether exchanges are logged. They are not until this is asked for.
#[derive(Debug, Clone, Copy)]
pub struct HttpLogging {
    pub enabled: bool,
}

impl HttpLogging {
    /// The switch as a process starts with it.
    pub fn new() -> (r: Self)
        ensures
            !r.enabled,
    {
        HttpLogging { enabled: false }
    }
}

/// Turns the logs on or off.
pub fn set_http_logging_enabled(logging: &mut HttpLogging, enabled: bool)
    ensures
        final(logging).enabled == enabled,
{
    logging.enabled = enabled;
}

/// Whether exchanges are logged.
pub fn http_logging_enabled(logging: &HttpLogging) -> (r: bool)
    ensures
        r == logging.enabled,
{
    logging.enabled
}

/// The logs are off until they are turned on, and after they were turned on or
/// off they are what was asked for last.
pub proof fn switch_keeps_what_was_asked(
    fresh: HttpLogging,
    at_first: bool,
    setting: &mut HttpLogging,
    enabled: bool,
    told: bool,
)
    requires
        call_ensures(HttpLogging::new, (), fresh),
        call_ensures(http_logging_enabled, (&fresh,), at_first),
        call_ensures(set_http_logging_enabled, (setting, enabled), ()),
        call_ensures(http_logging_enabled, (&*final(setting),), told),
    ensures
        !at_first,
        told == enabled,
{
}

} // verus!
