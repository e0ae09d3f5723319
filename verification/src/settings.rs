//! Changing the stored settings: default device and project, temporary
//! bundle prefix and team identifier. Each is checked before it is stored;
//! saving the file is up to the caller.

use vstd::prelude::*;
use crate::config::Config;
use crate::error::TossError;
use crate::lines::{trim, trimmed};
use crate::sign::{valid_bundle_prefix, valid_team_id, validate_bundle_prefix, validate_team_id};
use crate::text::{chars_of, concat, substring};

verus! {

/// `s` without the copies of `c` it starts with.
pub open spec fn drop_leading(s: Seq<char>, c: char) -> Seq<char>
    decreases s.len(),
{
    if s.len() > 0 && s[0] == c {
        drop_leading(s.drop_first(), c)
    } else {
        s
    }
}

/// `s` without the copies of `c` it ends with.
pub open spec fn drop_trailing(s: Seq<char>, c: char) -> Seq<char>
    decreases s.len(),
{
    if s.len() > 0 && s.last() == c {
        drop_trailing(s.drop_last(), c)
    } else {
        s
    }
}

/// `s` without the copies of `c` at either end (`str::trim_matches`).
pub open spec fn trim_char(s: Seq<char>, c: char) -> Seq<char> {
    drop_trailing(drop_leading(s, c), c)
}

/// Removes the copies of `c` at either end of `s`.
pub fn trim_matches_char(s: &str, c: char) -> (r: String)
    ensures
        r@ == trim_char(s@, c),
{
    let cs = chars_of(s);
    let n = cs.len();
    let mut a: usize = 0;
    assert(cs@.subrange(0, n as int) =~= cs@);
    while a < n && cs[a] == c
        invariant
            a <= n,
            n == cs@.len(),
            drop_leading(cs@, c) == drop_leading(cs@.subrange(a as int, n as int), c),
        decreases n - a,
    {
        assert(cs@.subrange(a as int, n as int).drop_first() =~= cs@.subrange(a + 1, n as int));
        a = a + 1;
    }
    proof {
        let t = cs@.subrange(a as int, n as int);
        if a < n {
            assert(t[0] == cs@[a as int]);
        }
        assert(drop_leading(cs@, c) == t);
    }
    let ghost t = cs@.subrange(a as int, n as int);
    let mut b: usize = n;
    assert(cs@.subrange(a as int, b as int) =~= t);
    while b > a && cs[b - 1] == c
        invariant
            a <= b <= n,
            n == cs@.len(),
            drop_trailing(t, c) == drop_trailing(cs@.subrange(a as int, b as int), c),
        decreases b,
    {
        assert(cs@.subrange(a as int, b as int).drop_last() =~= cs@.subrange(a as int, b - 1));
        b = b - 1;
    }
    proof {
        let u = cs@.subrange(a as int, b as int);
        if b > a {
            assert(u.last() == cs@[b - 1]);
        }
    }
    substring(cs.as_slice(), a, b)
}

/// Message for a default device that is neither an alias nor an aliased
/// UDID.
pub open spec fn unknown_default_device_msg(name: Seq<char>) -> Seq<char> {
    "unknown device '"@ + name + "' — use `toss devices alias` to create an alias first, or provide a UDID"@
}

/// Makes `name`, an alias or the UDID of an aliased device, the default
/// device.
pub fn set_default_device(config: &mut Config, name: &str) -> (r: Result<(), TossError>)
    ensures
        ({
            let known = old(config).devices.aliases@.dom().contains(name@)
                || exists|k: Seq<char>| #[trigger] old(config).devices.aliases@.dom().contains(k)
                    && old(config).devices.aliases@[k]@ == name@;
            if known {
                r is Ok && (final(config).defaults.device matches Some(d) && d@ == name@)
                    && final(config).defaults.project == old(config).defaults.project
                    && final(config).devices == old(config).devices && final(config).signing == old(config).signing
                    && final(config).projects == old(config).projects
            } else {
                (r matches Err(TossError::Config(m)) && m@ == unknown_default_device_msg(name@))
                    && *final(config) == *old(config)
            }
        }),
{
    let is_alias = config.devices.aliases.contains_key(name);
    let is_udid = config.devices.aliases.has_value(name);
    if !is_alias && !is_udid {
        let mut m = "unknown device '".to_string();
        m.append(name);
        m.append("' — use `toss devices alias` to create an alias first, or provide a UDID");
        return Err(TossError::Config(m));
    }
    config.defaults.device = Some(name.to_string());
    Ok(())
}

/// Message for a default project that is not registered.
pub open spec fn unknown_default_project_msg(name: Seq<char>) -> Seq<char> {
    "unknown project '"@ + name + "' — register it with `toss projects add` first"@
}

/// Makes the registered project `name` the default project.
pub fn set_default_project(config: &mut Config, name: &str) -> (r: Result<(), TossError>)
    ensures
        if old(config).projects@.dom().contains(name@) {
            r is Ok && (final(config).defaults.project matches Some(p) && p@ == name@)
                && final(config).defaults.device == old(config).defaults.device
                && final(config).devices == old(config).devices && final(config).signing == old(config).signing
                && final(config).projects == old(config).projects
        } else {
            (r matches Err(TossError::Config(m)) && m@ == unknown_default_project_msg(name@))
                && *final(config) == *old(config)
        },
{
    if !config.projects.contains_key(name) {
        return Err(TossError::Config(concat(
            "unknown project '",
            concat(name, "' — register it with `toss projects add` first").as_str(),
        )));
    }
    config.defaults.project = Some(name.to_string());
    Ok(())
}

/// Message for a temporary bundle prefix that is not dot-separated ASCII
/// letters, digits and hyphens.
pub open spec fn invalid_prefix_input_msg(prefix: Seq<char>) -> Seq<char> {
    "invalid temp bundle prefix '"@ + prefix + "' — use dot-separated ASCII letters/numbers/hyphens"@
}

/// Stores the temporary bundle prefix: `prefix` without surrounding
/// whitespace and dots, which must be non-empty dot-separated parts of
/// ASCII letters, digits and hyphens. Returns what was stored.
pub fn set_temp_bundle_prefix(config: &mut Config, prefix: &str) -> (r: Result<String, TossError>)
    ensures
        ({
            let t = trim_char(trimmed(prefix@), '.');
            if t.len() == 0 {
                (r matches Err(TossError::Config(m)) && m@ == "temp bundle prefix cannot be empty"@)
                    && *final(config) == *old(config)
            } else if !valid_bundle_prefix(t) {
                (r matches Err(TossError::Config(m)) && m@ == invalid_prefix_input_msg(prefix@))
                    && *final(config) == *old(config)
            } else {
                (r matches Ok(v) && v@ == t)
                    && (final(config).signing.temp_bundle_prefix matches Some(p) && p@ == t)
                    && final(config).signing.team_id == old(config).signing.team_id
                    && final(config).defaults == old(config).defaults && final(config).devices == old(config).devices
                    && final(config).projects == old(config).projects
            }
        }),
{
    let t = trim_matches_char(trim(prefix).as_str(), '.');
    if t.unicode_len() == 0 {
        return Err(TossError::Config("temp bundle prefix cannot be empty".to_string()));
    }
    if !validate_bundle_prefix(t.as_str()) {
        let mut m = "invalid temp bundle prefix '".to_string();
        m.append(prefix);
        m.append("' — use dot-separated ASCII letters/numbers/hyphens");
        return Err(TossError::Config(m));
    }
    config.signing.temp_bundle_prefix = Some(t.clone());
    Ok(t)
}

/// Message for a team identifier that is not ASCII letters and digits.
pub open spec fn invalid_team_input_msg(team_id: Seq<char>) -> Seq<char> {
    "invalid team id '"@ + team_id + "' — use ASCII letters and numbers only"@
}

/// Stores the team identifier: `team_id` without surrounding whitespace
/// and dots, which must be non-empty ASCII letters and digits. Returns
/// what was stored.
pub fn set_team_id(config: &mut Config, team_id: &str) -> (r: Result<String, TossError>)
    ensures
        ({
            let t = trim_char(trimmed(team_id@), '.');
            if t.len() == 0 {
                (r matches Err(TossError::Config(m)) && m@ == "team id cannot be empty"@)
                    && *final(config) == *old(config)
            } else if !valid_team_id(t) {
                (r matches Err(TossError::Config(m)) && m@ == invalid_team_input_msg(team_id@))
                    && *final(config) == *old(config)
            } else {
                (r matches Ok(v) && v@ == t)
                    && (final(config).signing.team_id matches Some(p) && p@ == t)
                    && final(config).signing.temp_bundle_prefix == old(config).signing.temp_bundle_prefix
                    && final(config).defaults == old(config).defaults && final(config).devices == old(config).devices
                    && final(config).projects == old(config).projects
            }
        }),
{
    let t = trim_matches_char(trim(team_id).as_str(), '.');
    if t.unicode_len() == 0 {
        return Err(TossError::Config("team id cannot be empty".to_string()));
    }
    if !validate_team_id(t.as_str()) {
        let mut m = "invalid team id '".to_string();
        m.append(team_id);
        m.append("' — use ASCII letters and numbers only");
        return Err(TossError::Config(m));
    }
    config.signing.team_id = Some(t.clone());
    Ok(t)
}

} // verus!
