//! Configuration values and their validation rules.
//!
//! The proxy's configuration is loaded from a file by the surrounding
//! program; this module holds the default values and the rules that decide
//! which raw values are acceptable. The idle-instance timeout is written in
//! the file either as a number of seconds or as the boolean `false`
//! (meaning: never reap idle instances); `true` is rejected. The garbage
//! collector interval must be at least one second.

use vstd::prelude::*;

verus! {

/// Default idle timeout before an unused server instance is reaped:
/// five minutes, expressed in seconds. `None` would mean "never reap".
pub fn instance_timeout() -> (r: Option<u32>)
    ensures
        r == Some(300u32),
{
    // 5 minutes
    Some(5 * 60)
}

/// Default period of the garbage collector sweep, in seconds.
pub fn gc_interval() -> (r: u32)
    ensures
        r == 10u32,
{
    // 10 seconds
    10
}

/// Default log filter directive.
pub fn log_filters() -> (r: String)
    ensures
        r@ == "info"@,
{
    String::from_str("info")
}

/// A raw `instance_timeout` value as it may appear in the configuration
/// file: either a boolean or a non-negative integer.
pub enum RawTimeout {
    Flag(bool),
    Count(u32),
}

/// Why a raw configuration value was rejected.
pub enum ConfigError {
    /// `instance_timeout = true` has no meaning: a timeout is either a
    /// number of seconds or disabled with `false`.
    TimeoutTrue,
    /// `gc_interval = 0` would make the collector spin; one second is the
    /// minimum.
    IntervalZero,
}

/// Interpret a raw `instance_timeout` configuration value.
///
/// A number means "reap after that many idle seconds", `false` means
/// "never reap", and `true` is an error.
pub fn parse_instance_timeout(raw: &RawTimeout) -> (r: Result<Option<u32>, ConfigError>)
    ensures
        forall|v: u32| *raw == RawTimeout::Count(v) ==> r == Ok::<_, ConfigError>(Some(v)),
        *raw == RawTimeout::Flag(false) ==> r == Ok::<_, ConfigError>(None::<u32>),
        *raw == RawTimeout::Flag(true) ==> r == Err::<Option<u32>, _>(ConfigError::TimeoutTrue),
{
    match raw {
        RawTimeout::Count(v) => Ok(Some(*v)),
        RawTimeout::Flag(false) => Ok(None),
        RawTimeout::Flag(true) => Err(ConfigError::TimeoutTrue),
    }
}

/// Validate a raw `gc_interval` configuration value: zero is rejected so
/// users get feedback on an invalid configuration.
pub fn parse_gc_interval(raw: u32) -> (r: Result<u32, ConfigError>)
    ensures
        raw == 0 ==> r == Err::<u32, _>(ConfigError::IntervalZero),
        raw != 0 ==> r == Ok::<_, ConfigError>(raw),
{
    if raw == 0 {
        Err(ConfigError::IntervalZero)
    } else {
        Ok(raw)
    }
}

/// The idle-instance timeout as the rest of the proxy sees it: either
/// disabled or a number of seconds. The raw bool-or-integer encoding of
/// the configuration file never leaves the boundary.
pub enum InstanceTimeout {
    Disabled,
    After(u32),
}

/// Lift a validated configuration value into the tagged form.
pub fn timeout_from_config(raw: Option<u32>) -> (r: InstanceTimeout)
    ensures
        raw == None::<u32> ==> r == InstanceTimeout::Disabled,
        forall|v: u32| raw == Some(v) ==> r == InstanceTimeout::After(v),
{
    match raw {
        None => InstanceTimeout::Disabled,
        Some(v) => InstanceTimeout::After(v),
    }
}

} // verus!
