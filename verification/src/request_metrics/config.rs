//! Whether request metrics are on.

use crate::text::{parse_count, same_text};
use vstd::prelude::*;

verus! {

#[derive(Clone, Copy, Debug, PartialEq, Eq, Structural)]
pub struct RequestMetricsPolicy {
    pub enabled: bool,
}

/// The policy that the setting `DYN_REQUEST_METRICS_ENABLED` stands for: on where it reads `true`.
pub open spec fn policy_of(setting: Option<Seq<char>>) -> RequestMetricsPolicy {
    RequestMetricsPolicy { enabled: setting == Some("true"@) }
}

/// The policy that the setting `DYN_REQUEST_METRICS_ENABLED` stands for. Anything but `true` turns
/// metrics off, as does a setting that is not there.
pub fn init_from_setting(setting: Option<&str>) -> (policy: RequestMetricsPolicy)
    ensures
        policy == policy_of(
            match setting {
                Some(value) => Some(value@),
                None => None,
            },
        ),
        policy.enabled <==> (setting matches Some(value) && value@ == "true"@),
{
    let enabled: bool = match setting {
        Some(value) => same_text(value, "true"),
        None => false,
    };
    RequestMetricsPolicy { enabled }
}

/// Metrics are on where the setting is there and reads `true`, and nowhere else.
pub proof fn law_metrics_are_on_where_the_setting_reads_true(setting: Seq<char>)
    ensures
        policy_of(Some(setting)).enabled <==> setting == "true"@,
        !policy_of(None).enabled,
{
}

/// The policy of the process: read once, the first time that it is asked for, and kept in `cell`.
pub fn policy<R: FnOnce() -> Option<String>>(
    cell: &mut Option<RequestMetricsPolicy>,
    read: R,
) -> (policy: RequestMetricsPolicy)
    requires
        call_requires(read, ()),
    ensures
        *final(cell) == Some(policy),
        *old(cell) matches Some(kept) ==> policy == kept,
        *old(cell) is None ==> exists|setting: Option<String>| #[trigger]
            call_ensures(read, (), setting) && policy == policy_of(
                match setting {
                    Some(value) => Some(value@),
                    None => None,
                },
            ),
{
    match *cell {
        Some(kept) => kept,
        None => {
            let setting: Option<String> = read();
            let policy: RequestMetricsPolicy = match &setting {
                Some(value) => init_from_setting(Some(value.as_str())),
                None => init_from_setting(None),
            };
            *cell = Some(policy);
            policy
        },
    }
}

/// Whether request metrics are on for the process.
pub fn enabled<R: FnOnce() -> Option<String>>(
    cell: &mut Option<RequestMetricsPolicy>,
    read: R,
) -> (enabled: bool)
    requires
        call_requires(read, ()),
    ensures
        *final(cell) == Some(RequestMetricsPolicy { enabled }),
        *old(cell) matches Some(kept) ==> enabled == kept.enabled,
        *old(cell) is None ==> exists|setting: Option<String>| #[trigger]
            call_ensures(read, (), setting) && enabled == (setting matches Some(value) && value@
                == "true"@),
{
    policy(cell, read).enabled
}

/// How many records the bus keeps for sinks that lag behind, where no setting says otherwise.
pub const DEFAULT_CAPACITY: usize = 1024;

/// The capacity that the setting `DYN_REQUEST_METRICS_CAPACITY` stands for, or the default where it
/// is not there or is not a number.
pub fn bus_capacity(setting: Option<&str>) -> (capacity: usize)
    ensures
        capacity == (match setting {
            Some(value) => match crate::text::count_of(value@) {
                Some(count) => count as int,
                None => DEFAULT_CAPACITY as int,
            },
            None => DEFAULT_CAPACITY as int,
        }),
        setting is None ==> capacity == 1024,
        setting matches Some(value) ==> (match crate::text::count_of(value@) {
            Some(count) => capacity == count,
            None => capacity == 1024,
        }),
{
    match setting {
        Some(value) => match parse_count(value) {
            Some(count) => count,
            None => DEFAULT_CAPACITY,
        },
        None => DEFAULT_CAPACITY,
    }
}

} // verus!
