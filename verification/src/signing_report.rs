//! What the signing commands show: the signing identities, the installed
//! provisioning profiles, the teams they name, and whether signing is ready.

use vstd::prelude::*;
use crate::decimal::{decimal, u64_to_decimal};
use crate::doctor::{count_parsed, parsed_count};
use crate::diagnostics::{extract_team_id_from_identity_name, join, join_or_none, joined, set_text, sorted_set, team_id_of_name};
use crate::lexorder::{lemma_sorted_members, sorted_members};
use crate::lines::string_views;
use crate::sign::{ProvisioningProfile, ProvisioningProfileInspection, SigningIdentity};
use crate::text::{concat, starts_with, str_starts_with};

verus! {

fn push_line(lines: &mut Vec<String>, a: String)
    ensures
        string_views(final(lines)@) == string_views(old(lines)@).push(a@),
{
    let ghost before = lines@;
    let ghost t = a@;
    lines.push(a);
    assert(string_views(lines@) =~= string_views(before).push(t));
}

/// One signing identity: its name, then its hash.
pub open spec fn identity_block(i: SigningIdentity) -> Seq<Seq<char>> {
    seq!["  "@ + i.name@, "    hash: "@ + i.hash@]
}

/// The identities, one block each.
pub open spec fn identity_blocks(ids: Seq<SigningIdentity>) -> Seq<Seq<char>>
    decreases ids.len(),
{
    if ids.len() == 0 {
        Seq::empty()
    } else {
        identity_blocks(ids.drop_last()) + identity_block(ids.last())
    }
}

/// The listing of the signing identities: their number, then each one.
pub open spec fn identities_report(ids: Seq<SigningIdentity>) -> Seq<Seq<char>> {
    seq!["Signing identities ("@ + decimal(ids.len()) + ")"@] + identity_blocks(ids)
}

/// The lines listing the signing identities.
pub fn identities_lines(ids: &[SigningIdentity]) -> (r: Vec<String>)
    ensures
        string_views(r@) == identities_report(ids@),
{
    let mut r: Vec<String> = Vec::new();
    let mut head = concat("Signing identities (", u64_to_decimal(ids.len() as u64).as_str());
    head.append(")");
    push_line(&mut r, head);
    let mut i: usize = 0;
    while i < ids.len()
        invariant
            i <= ids@.len(),
            string_views(r@) == seq!["Signing identities ("@ + decimal(ids@.len()) + ")"@]
                + identity_blocks(ids@.subrange(0, i as int)),
        decreases ids@.len() - i,
    {
        assert(ids@.subrange(0, i + 1).drop_last() =~= ids@.subrange(0, i as int));
        push_line(&mut r, concat("  ", ids[i].name.as_str()));
        push_line(&mut r, concat("    hash: ", ids[i].hash.as_str()));
        i = i + 1;
    }
    assert(ids@.subrange(0, ids@.len() as int) =~= ids@);
    r
}

/// ` [temp]` after a profile whose bundle pattern starts with the temporary
/// bundle prefix.
pub open spec fn temp_marker(p: ProvisioningProfile, prefix: Option<Seq<char>>) -> Seq<char> {
    match prefix {
        Some(x) => if starts_with(p.bundle_id_pattern@, x) { " [temp]"@ } else { Seq::empty() },
        None => Seq::empty(),
    }
}

/// The teams of a profile as shown.
pub open spec fn profile_teams_text(teams: Seq<Seq<char>>) -> Seq<char> {
    if teams.len() == 0 { "<unknown>"@ } else { joined(teams, ", "@) }
}

/// The devices a profile covers as shown: all, unspecified, or how many.
pub open spec fn profile_devices_text(p: ProvisioningProfile) -> Seq<char> {
    if p.provisions_all_devices {
        "all"@
    } else if p.provisioned_devices@.len() == 0 {
        "<unspecified>"@
    } else {
        decimal(p.provisioned_devices@.len())
    }
}

/// One inspected profile file: what was read from it, or why it could not
/// be read.
pub open spec fn inspection_block(i: ProvisioningProfileInspection, prefix: Option<Seq<char>>) -> Seq<Seq<char>> {
    match i.profile {
        Some(p) => seq![
            "  "@ + p.name@ + temp_marker(p, prefix),
            "    bundle: "@ + p.bundle_id_pattern@,
            "    team: "@ + profile_teams_text(string_views(p.team_ids@)),
        ] + match p.uuid {
            Some(u) => seq!["    uuid: "@ + u@],
            None => Seq::empty(),
        } + seq!["    devices: "@ + profile_devices_text(p), "    path: "@ + p.path@],
        None => seq![
            "  <parse failed>"@,
            "    path: "@ + i.path@,
            "    error: "@ + match i.error {
                Some(e) => e@,
                None => "unknown error"@,
            },
        ],
    }
}

/// The inspected profiles, one block each.
pub open spec fn inspection_blocks(insps: Seq<ProvisioningProfileInspection>, prefix: Option<Seq<char>>) -> Seq<Seq<char>>
    decreases insps.len(),
{
    if insps.len() == 0 {
        Seq::empty()
    } else {
        inspection_blocks(insps.drop_last(), prefix) + inspection_block(insps.last(), prefix)
    }
}

/// The listing of the provisioning profiles: their number, then each one,
/// or `<none>`.
pub open spec fn profiles_report(insps: Seq<ProvisioningProfileInspection>, prefix: Option<Seq<char>>) -> Seq<Seq<char>> {
    seq!["Provisioning profiles ("@ + decimal(insps.len()) + ")"@] + if insps.len() == 0 {
        seq!["  <none>"@]
    } else {
        inspection_blocks(insps, prefix)
    }
}

fn push_inspection(lines: &mut Vec<String>, i: &ProvisioningProfileInspection, prefix: Option<&str>)
    ensures
        string_views(final(lines)@) == string_views(old(lines)@) + inspection_block(*i,
            match prefix { Some(x) => Some(x@), None => None }),
{
    let ghost pre = match prefix { Some(x) => Some(x@), None => None::<Seq<char>> };
    let ghost before = string_views(lines@);
    match &i.profile {
        Some(p) => {
            let temp = match prefix {
                Some(x) => str_starts_with(p.bundle_id_pattern.as_str(), x),
                None => false,
            };
            let mut first = concat("  ", p.name.as_str());
            if temp {
                first.append(" [temp]");
            }
            push_line(lines, first);
            push_line(lines, concat("    bundle: ", p.bundle_id_pattern.as_str()));
            let teams = if p.team_ids.len() == 0 { "<unknown>".to_string() } else { join(p.team_ids.as_slice(), ", ") };
            push_line(lines, concat("    team: ", teams.as_str()));
            let ghost mid = string_views(lines@);
            if let Some(u) = &p.uuid {
                push_line(lines, concat("    uuid: ", u.as_str()));
            }
            let ghost mid2 = string_views(lines@);
            let devices = if p.provisions_all_devices {
                "all".to_string()
            } else if p.provisioned_devices.len() == 0 {
                "<unspecified>".to_string()
            } else {
                u64_to_decimal(p.provisioned_devices.len() as u64)
            };
            push_line(lines, concat("    devices: ", devices.as_str()));
            push_line(lines, concat("    path: ", p.path.as_str()));
            proof {
                let b = inspection_block(*i, pre);
                assert(string_views(lines@) =~= before + b);
            }
        },
        None => {
            push_line(lines, "  <parse failed>".to_string());
            push_line(lines, concat("    path: ", i.path.as_str()));
            let e = match &i.error {
                Some(e) => e.clone(),
                None => "unknown error".to_string(),
            };
            push_line(lines, concat("    error: ", e.as_str()));
            assert(string_views(lines@) =~= before + inspection_block(*i, pre));
        },
    }
}

/// The lines listing the provisioning profiles, marking those made for the
/// temporary bundle prefix `prefix`.
pub fn profiles_lines(insps: &[ProvisioningProfileInspection], prefix: Option<&str>) -> (r: Vec<String>)
    ensures
        string_views(r@) == profiles_report(insps@, match prefix { Some(x) => Some(x@), None => None }),
{
    let ghost pre = match prefix { Some(x) => Some(x@), None => None::<Seq<char>> };
    let mut r: Vec<String> = Vec::new();
    let mut head = concat("Provisioning profiles (", u64_to_decimal(insps.len() as u64).as_str());
    head.append(")");
    push_line(&mut r, head);
    if insps.len() == 0 {
        push_line(&mut r, "  <none>".to_string());
        return r;
    }
    let mut i: usize = 0;
    while i < insps.len()
        invariant
            i <= insps@.len(),
            pre == match prefix { Some(x) => Some(x@), None => None::<Seq<char>> },
            string_views(r@) == seq!["Provisioning profiles ("@ + decimal(insps@.len()) + ")"@]
                + inspection_blocks(insps@.subrange(0, i as int), pre),
        decreases insps@.len() - i,
    {
        assert(insps@.subrange(0, i + 1).drop_last() =~= insps@.subrange(0, i as int));
        push_inspection(&mut r, &insps[i], prefix);
        proof {
            assert(insps@.subrange(0, i + 1).last() == insps@[i as int]);
        }
        i = i + 1;
    }
    assert(insps@.subrange(0, insps@.len() as int) =~= insps@);
    r
}

/// The team identifiers in the names of the identities.
pub open spec fn identity_teams(ids: Seq<SigningIdentity>) -> Set<Seq<char>> {
    Set::new(|t: Seq<char>| exists|i: int| 0 <= i < ids.len() && team_id_of_name(#[trigger] ids[i].name@) == Some(t))
}

/// The inspected file is a profile that names team `t`.
pub open spec fn names_team(i: ProvisioningProfileInspection, t: Seq<char>) -> bool {
    i.profile matches Some(p) && exists|j: int| 0 <= j < p.team_ids@.len() && #[trigger] p.team_ids@[j]@ == t
}

/// The team identifiers named by the profiles.
pub open spec fn profile_teams(insps: Seq<ProvisioningProfileInspection>) -> Set<Seq<char>> {
    Set::new(|t: Seq<char>| exists|i: int| 0 <= i < insps.len() && names_team(#[trigger] insps[i], t))
}

/// The configured team, as a listing of at most one.
pub open spec fn config_teams(team: Option<String>) -> Seq<Seq<char>> {
    match team {
        Some(t) => seq![t@],
        None => Seq::empty(),
    }
}

/// The teams seen in the configuration, in the identities' names and in
/// the profiles, each set sorted, and the profile directories if any.
pub open spec fn teams_report(
    team: Option<String>,
    ids: Seq<SigningIdentity>,
    insps: Seq<ProvisioningProfileInspection>,
    dirs: Seq<Seq<char>>,
) -> Seq<Seq<char>> {
    seq![
        "Teams"@,
        "  config: "@ + set_text(config_teams(team)),
        "  identities: "@ + set_text(sorted_members(identity_teams(ids))),
        "  profiles: "@ + set_text(sorted_members(profile_teams(insps))),
    ] + if dirs.len() > 0 {
        seq!["  profile_dirs: "@ + joined(dirs, ", "@)]
    } else {
        Seq::empty()
    }
}

/// The team identifiers found in the identities' names (repeats kept).
fn identity_team_list(ids: &[SigningIdentity]) -> (r: Vec<String>)
    ensures
        forall|x: Seq<char>| #[trigger] string_views(r@).contains(x) <==> identity_teams(ids@).contains(x),
{
    let mut r: Vec<String> = Vec::new();
    let mut k: usize = 0;
    while k < ids.len()
        invariant
            k <= ids@.len(),
            forall|x: Seq<char>| #[trigger] string_views(r@).contains(x) <==> exists|i: int| 0 <= i < k
                && team_id_of_name(#[trigger] ids@[i].name@) == Some(x),
        decreases ids@.len() - k,
    {
        let ghost before = string_views(r@);
        match extract_team_id_from_identity_name(ids[k].name.as_str()) {
            Some(t) => {
                let ghost tv = t@;
                r.push(t);
                proof {
                    assert(string_views(r@) =~= before.push(tv));
                    assert forall|x: Seq<char>| #[trigger] string_views(r@).contains(x) <==> exists|i: int| 0 <= i < k + 1
                        && team_id_of_name(#[trigger] ids@[i].name@) == Some(x) by {
                        if string_views(r@).contains(x) {
                            let j = choose|j: int| 0 <= j < string_views(r@).len() && string_views(r@)[j] == x;
                            if j < before.len() {
                                assert(before[j] == x);
                                assert(before.contains(x));
                            } else {
                                assert(team_id_of_name(ids@[k as int].name@) == Some(x));
                            }
                        }
                        if exists|i: int| 0 <= i < k + 1 && team_id_of_name(#[trigger] ids@[i].name@) == Some(x) {
                            let i = choose|i: int| 0 <= i < k + 1 && team_id_of_name(#[trigger] ids@[i].name@) == Some(x);
                            if i < k {
                                assert(before.contains(x));
                                let j = choose|j: int| 0 <= j < before.len() && before[j] == x;
                                assert(string_views(r@)[j] == x);
                            } else {
                                assert(string_views(r@)[before.len() as int] == x);
                            }
                        }
                    }
                }
            },
            None => {
                proof {
                    assert forall|x: Seq<char>| #[trigger] string_views(r@).contains(x) <==> exists|i: int| 0 <= i < k + 1
                        && team_id_of_name(#[trigger] ids@[i].name@) == Some(x) by {
                        if exists|i: int| 0 <= i < k + 1 && team_id_of_name(#[trigger] ids@[i].name@) == Some(x) {
                            let i = choose|i: int| 0 <= i < k + 1 && team_id_of_name(#[trigger] ids@[i].name@) == Some(x);
                            assert(i < k);
                        }
                    }
                }
            },
        }
        k = k + 1;
    }
    r
}

/// The team identifiers named by the profiles (repeats kept).
fn profile_team_list(insps: &[ProvisioningProfileInspection]) -> (r: Vec<String>)
    ensures
        forall|x: Seq<char>| #[trigger] string_views(r@).contains(x) <==> profile_teams(insps@).contains(x),
{
    let mut r: Vec<String> = Vec::new();
    let mut k: usize = 0;
    while k < insps.len()
        invariant
            k <= insps@.len(),
            forall|x: Seq<char>| #[trigger] string_views(r@).contains(x) <==> exists|i: int| 0 <= i < k
                && names_team(#[trigger] insps@[i], x),
        decreases insps@.len() - k,
    {
        let ghost start = string_views(r@);
        if let Some(p) = &insps[k].profile {
            let mut j: usize = 0;
            while j < p.team_ids.len()
                invariant
                    j <= p.team_ids@.len(),
                    insps@[k as int].profile == Some(*p),
                    start.len() <= string_views(r@).len(),
                    string_views(r@).subrange(0, start.len() as int) == start,
                    forall|x: Seq<char>| #[trigger] string_views(r@).contains(x) <==> (start.contains(x)
                        || exists|m: int| 0 <= m < j && #[trigger] p.team_ids@[m]@ == x),
                decreases p.team_ids@.len() - j,
            {
                let ghost before = string_views(r@);
                let ghost tv = p.team_ids@[j as int]@;
                r.push(p.team_ids[j].clone());
                proof {
                    assert(string_views(r@) =~= before.push(tv));
                    assert(string_views(r@).subrange(0, start.len() as int) =~= before.subrange(0, start.len() as int));
                    assert forall|x: Seq<char>| #[trigger] string_views(r@).contains(x) <==> (start.contains(x)
                        || exists|m: int| 0 <= m < j + 1 && #[trigger] p.team_ids@[m]@ == x) by {
                        if string_views(r@).contains(x) {
                            let q = choose|q: int| 0 <= q < string_views(r@).len() && string_views(r@)[q] == x;
                            if q < before.len() {
                                assert(before[q] == x);
                                assert(before.contains(x));
                            } else {
                                assert(p.team_ids@[j as int]@ == x);
                            }
                        }
                        if start.contains(x) {
                            let q = choose|q: int| 0 <= q < start.len() && start[q] == x;
                            assert(before.subrange(0, start.len() as int)[q] == x);
                            assert(before[q] == x);
                            assert(before.contains(x));
                            assert(string_views(r@)[q] == x);
                        }
                        if exists|m: int| 0 <= m < j + 1 && #[trigger] p.team_ids@[m]@ == x {
                            let m = choose|m: int| 0 <= m < j + 1 && #[trigger] p.team_ids@[m]@ == x;
                            if m < j {
                                assert(before.contains(x));
                                let q = choose|q: int| 0 <= q < before.len() && before[q] == x;
                                assert(string_views(r@)[q] == x);
                            } else {
                                assert(string_views(r@)[before.len() as int] == x);
                            }
                        }
                    }
                }
                j = j + 1;
            }
        }
        proof {
            assert forall|x: Seq<char>| #[trigger] string_views(r@).contains(x) <==> exists|i: int| 0 <= i < k + 1
                && names_team(#[trigger] insps@[i], x) by {
                if string_views(r@).contains(x) && !start.contains(x) {
                    assert(names_team(insps@[k as int], x));
                }
                if exists|i: int| 0 <= i < k + 1 && names_team(#[trigger] insps@[i], x) {
                    let i = choose|i: int| 0 <= i < k + 1 && names_team(#[trigger] insps@[i], x);
                    if i == k {
                        let p = insps@[k as int].profile->0;
                        let m = choose|m: int| 0 <= m < p.team_ids@.len() && #[trigger] p.team_ids@[m]@ == x;
                        assert(p.team_ids@[m]@ == x);
                    }
                }
            }
        }
        k = k + 1;
    }
    r
}

/// The lines showing the teams seen in the configuration (`team`), in the
/// identities' names and in the profiles, and the profile directories.
pub fn teams_lines(
    team: &Option<String>,
    ids: &[SigningIdentity],
    insps: &[ProvisioningProfileInspection],
    dirs: &[String],
) -> (r: Vec<String>)
    ensures
        string_views(r@) == teams_report(*team, ids@, insps@, string_views(dirs@)),
{
    let mut r: Vec<String> = Vec::new();
    push_line(&mut r, "Teams".to_string());
    let mut configured: Vec<String> = Vec::new();
    if let Some(t) = team {
        configured.push(t.clone());
    }
    assert(string_views(configured@) =~= config_teams(*team));
    push_line(&mut r, concat("  config: ", join_or_none(configured.as_slice()).as_str()));
    let id_teams = sorted_set(identity_team_list(ids).as_slice());
    proof {
        lemma_sorted_members(string_views(id_teams@), identity_teams(ids@));
    }
    push_line(&mut r, concat("  identities: ", join_or_none(id_teams.as_slice()).as_str()));
    let profile_team_ids = sorted_set(profile_team_list(insps).as_slice());
    proof {
        lemma_sorted_members(string_views(profile_team_ids@), profile_teams(insps@));
    }
    push_line(&mut r, concat("  profiles: ", join_or_none(profile_team_ids.as_slice()).as_str()));
    if dirs.len() > 0 {
        push_line(&mut r, concat("  profile_dirs: ", join(dirs, ", ").as_str()));
    }
    assert(string_views(r@) =~= teams_report(*team, ids@, insps@, string_views(dirs@)));
    r
}

/// The identities' names in the signing check: each on its own line, or
/// `<none>`.
pub open spec fn identity_names_block(ids: Seq<SigningIdentity>) -> Seq<Seq<char>> {
    if ids.len() == 0 {
        seq!["  identities: <none>"@]
    } else {
        seq!["  identities:"@] + Seq::new(ids.len(), |i: int| "    "@ + ids[i].name@)
    }
}

/// The signing check: the configured team, the identities (or why they
/// could not be listed), and how many profiles were read with the teams
/// they name (or why they could not be listed).
pub open spec fn signing_doctor_report(
    team: Option<String>,
    ids: Result<Seq<SigningIdentity>, Seq<char>>,
    insps: Result<Seq<ProvisioningProfileInspection>, Seq<char>>,
) -> Seq<Seq<char>> {
    seq![
        "Signing doctor"@,
        "  config team: "@ + match team {
            Some(t) => t@,
            None => "<unset>"@,
        },
    ] + match ids {
        Ok(v) => identity_names_block(v),
        Err(e) => seq!["  identities: unavailable ("@ + e + ")"@],
    } + match insps {
        Ok(v) => seq![
            "  parsed profiles: "@ + decimal(parsed_count(v)),
            "  profile teams: "@ + set_text(sorted_members(profile_teams(v))),
        ],
        Err(e) => seq!["  profiles: unavailable ("@ + e + ")"@],
    }
}

/// The lines of the signing check, given the configured team and what
/// listing the identities and the profiles gave.
pub fn signing_doctor_lines(
    team: &Option<String>,
    ids: &Result<Vec<SigningIdentity>, String>,
    insps: &Result<Vec<ProvisioningProfileInspection>, String>,
) -> (r: Vec<String>)
    ensures
        string_views(r@) == signing_doctor_report(
            *team,
            match ids { Ok(v) => Ok(v@), Err(e) => Err(e@) },
            match insps { Ok(v) => Ok(v@), Err(e) => Err(e@) },
        ),
{
    let mut r: Vec<String> = Vec::new();
    push_line(&mut r, "Signing doctor".to_string());
    let t = match team {
        Some(t) => t.clone(),
        None => "<unset>".to_string(),
    };
    push_line(&mut r, concat("  config team: ", t.as_str()));
    let ghost head = string_views(r@);
    match ids {
        Ok(v) => {
            if v.len() == 0 {
                push_line(&mut r, "  identities: <none>".to_string());
            } else {
                push_line(&mut r, "  identities:".to_string());
                let mut i: usize = 0;
                while i < v.len()
                    invariant
                        i <= v@.len(),
                        v@.len() > 0,
                        string_views(r@) == head + seq!["  identities:"@] + Seq::new(i as nat, |k: int| "    "@ + v@[k].name@),
                    decreases v@.len() - i,
                {
                    push_line(&mut r, concat("    ", v[i].name.as_str()));
                    assert(Seq::new((i + 1) as nat, |k: int| "    "@ + v@[k].name@)
                        =~= Seq::new(i as nat, |k: int| "    "@ + v@[k].name@).push("    "@ + v@[i as int].name@));
                    i = i + 1;
                }
            }
        },
        Err(e) => {
            let mut m = concat("  identities: unavailable (", e.as_str());
            m.append(")");
            push_line(&mut r, m);
        },
    }
    let ghost mid = string_views(r@);
    match insps {
        Ok(v) => {
            let (parsed, _) = count_parsed(v.as_slice(), None);
            push_line(&mut r, concat("  parsed profiles: ", u64_to_decimal(parsed).as_str()));
            let teams = sorted_set(profile_team_list(v.as_slice()).as_slice());
            proof {
                lemma_sorted_members(string_views(teams@), profile_teams(v@));
            }
            push_line(&mut r, concat("  profile teams: ", join_or_none(teams.as_slice()).as_str()));
        },
        Err(e) => {
            let mut m = concat("  profiles: unavailable (", e.as_str());
            m.append(")");
            push_line(&mut r, m);
        },
    }
    assert(string_views(r@) =~= signing_doctor_report(
        *team,
        match ids { Ok(v) => Ok(v@), Err(e) => Err(e@) },
        match insps { Ok(v) => Ok(v@), Err(e) => Err(e@) },
    ));
    r
}

} // verus!
