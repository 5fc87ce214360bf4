//! Settings without which the service must not start.

use vstd::prelude::*;

verus! {

/// The settings on which the security of the service rests.
#[derive(Debug, Clone, Copy)]
pub struct SecurityConfig {
    pub global_ws_per_sec: u32,
    pub global_joins_per_sec: u32,
    pub invite_ttl_secs: u64,
    pub token_ttl_secs: u64,
    pub ban_duration_secs: u64,
    pub rate_limit_window_secs: u64,
    pub bug_report_rate_limit_max: u32,
    pub bug_report_rate_limit_window_secs: u64,
    pub github_bug_report_token_set: bool,
    pub github_bug_report_repo_set: bool,
}

/// What is wrong with the settings: the first that is zero or missing.
pub open spec fn first_fault(c: SecurityConfig) -> Option<Seq<char>> {
    if c.global_ws_per_sec == 0 {
        Some("GLOBAL_WS_UPGRADES_PER_SEC must be > 0"@)
    } else if c.global_joins_per_sec == 0 {
        Some("GLOBAL_JOINS_PER_SEC must be > 0"@)
    } else if c.invite_ttl_secs == 0 {
        Some("invite TTL must be > 0"@)
    } else if c.token_ttl_secs == 0 {
        Some("token TTL must be > 0"@)
    } else if c.ban_duration_secs == 0 {
        Some("ban duration must be > 0"@)
    } else if c.rate_limit_window_secs == 0 {
        Some("rate limit window must be > 0"@)
    } else if c.bug_report_rate_limit_max == 0 {
        Some("BUG_REPORT_RATE_LIMIT_MAX must be > 0"@)
    } else if c.bug_report_rate_limit_window_secs == 0 {
        Some("BUG_REPORT_RATE_LIMIT_WINDOW_SECS must be > 0"@)
    } else if !c.github_bug_report_token_set {
        Some("GITHUB_BUG_REPORT_TOKEN must be set and non-empty"@)
    } else if !c.github_bug_report_repo_set {
        Some("GITHUB_BUG_REPORT_REPO must be set and non-empty"@)
    } else {
        None
    }
}

/// Refuses settings of which one is zero or missing, and names the first.
pub fn validate_security_config(config: &SecurityConfig) -> (r: Result<(), String>)
    ensures
        match r {
            Ok(()) => first_fault(*config) is None,
            Err(e) => first_fault(*config) == Some(e@),
        },
{
    if config.global_ws_per_sec == 0 {
        return Err("GLOBAL_WS_UPGRADES_PER_SEC must be > 0".to_owned());
    }
    if config.global_joins_per_sec == 0 {
        return Err("GLOBAL_JOINS_PER_SEC must be > 0".to_owned());
    }
    if config.invite_ttl_secs == 0 {
        return Err("invite TTL must be > 0".to_owned());
    }
    if config.token_ttl_secs == 0 {
        return Err("token TTL must be > 0".to_owned());
    }
    if config.ban_duration_secs == 0 {
        return Err("ban duration must be > 0".to_owned());
    }
    if config.rate_limit_window_secs == 0 {
        return Err("rate limit window must be > 0".to_owned());
    }
    if config.bug_report_rate_limit_max == 0 {
        return Err("BUG_REPORT_RATE_LIMIT_MAX must be > 0".to_owned());
    }
    if config.bug_report_rate_limit_window_secs == 0 {
        return Err("BUG_REPORT_RATE_LIMIT_WINDOW_SECS must be > 0".to_owned());
    }
    if !config.github_bug_report_token_set {
        return Err("GITHUB_BUG_REPORT_TOKEN must be set and non-empty".to_owned());
    }
    if !config.github_bug_report_repo_set {
        return Err("GITHUB_BUG_REPORT_REPO must be set and non-empty".to_owned());
    }
    Ok(())
}

/// Settings are accepted exactly if none is zero and none is missing.
pub proof fn law_no_zero_passes(c: SecurityConfig)
    ensures
        first_fault(c) is None <==> c.global_ws_per_sec > 0 && c.global_joins_per_sec > 0
            && c.invite_ttl_secs > 0 && c.token_ttl_secs > 0 && c.ban_duration_secs > 0
            && c.rate_limit_window_secs > 0 && c.bug_report_rate_limit_max > 0
            && c.bug_report_rate_limit_window_secs > 0 && c.github_bug_report_token_set
            && c.github_bug_report_repo_set,
{
}

/// The service starts exactly where every limit and lifetime is positive and the
/// token and the repository of bug reports are set. Otherwise the error names a
/// setting that is at fault.
pub proof fn law_faulty_settings_are_named(config: &SecurityConfig, r: Result<(), String>)
    requires
        call_ensures(validate_security_config, (config,), r),
    ensures
        r is Ok <==> config.global_ws_per_sec > 0 && config.global_joins_per_sec > 0
            && config.invite_ttl_secs > 0 && config.token_ttl_secs > 0 && config.ban_duration_secs
            > 0 && config.rate_limit_window_secs > 0 && config.bug_report_rate_limit_max > 0
            && config.bug_report_rate_limit_window_secs > 0 && config.github_bug_report_token_set
            && config.github_bug_report_repo_set,
        config.global_ws_per_sec == 0 ==> r is Err && r->Err_0@
            == "GLOBAL_WS_UPGRADES_PER_SEC must be > 0"@,
        config.global_ws_per_sec > 0 && config.global_joins_per_sec == 0 ==> r is Err && r->Err_0@
            == "GLOBAL_JOINS_PER_SEC must be > 0"@,
        config.global_ws_per_sec > 0 && config.global_joins_per_sec > 0 && config.invite_ttl_secs
            == 0 ==> r is Err && r->Err_0@ == "invite TTL must be > 0"@,
{
}

} // verus!
