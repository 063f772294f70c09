//! What runs by itself, and how often.

use vstd::prelude::*;
use crate::config::{FeaturesSection, GitMonitorSection, NpubCashSection};

verus! {

/// Whether repositories are watched.
pub fn git_monitor_on(features: &FeaturesSection, git: &GitMonitorSection) -> (r: bool)
    ensures
        r == (features.git_monitor && git.enabled),
{
    features.git_monitor && git.enabled
}

/// The seconds between two polls of the repositories: at least a minute; none where they are not
/// watched.
pub fn git_poll_interval(features: &FeaturesSection, git: &GitMonitorSection) -> (r: Option<u64>)
    ensures
        r == if features.git_monitor && git.enabled {
            Some(
                if git.poll_interval_secs < 60 {
                    60
                } else {
                    git.poll_interval_secs
                },
            )
        } else {
            None
        },
{
    if git_monitor_on(features, git) {
        if git.poll_interval_secs < 60 {
            Some(60)
        } else {
            Some(git.poll_interval_secs)
        }
    } else {
        None
    }
}

/// The seconds between two claims of zaps; none where they are not claimed.
pub fn claim_interval(npub_cash: &NpubCashSection, has_wallet: bool) -> (r: Option<u64>)
    ensures
        r == if npub_cash.enabled && has_wallet && npub_cash.claim_interval_secs > 0 {
            Some(npub_cash.claim_interval_secs)
        } else {
            None
        },
{
    if npub_cash.enabled && has_wallet && npub_cash.claim_interval_secs > 0 {
        Some(npub_cash.claim_interval_secs)
    } else {
        None
    }
}

} // verus!
