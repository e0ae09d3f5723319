//! Re-signing an IPA for a device: signing identities and provisioning
//! profiles, which profile fits a bundle, temporary bundle identifiers, and
//! the entitlements a bundle is signed with.

use vstd::prelude::*;
use crate::error::TossError;
use crate::interaction::{Exchange, WorkflowAdapter, answer_in_range, asks, last_answer, pick_spec, select_one};
use crate::lines::{split_lines, string_views, text_lines, trim, trimmed};
use crate::paths::path_file_stem;
use crate::text::{
    chars_of, has_substring, push_char, starts_with, str_contains, str_eq, str_starts_with, substring,
};

verus! {

/// A code-signing identity in the keychain.
#[derive(Debug, Clone)]
pub struct SigningIdentity {
    pub hash: String,
    pub name: String,
}

impl SigningIdentity {
    /// An equal copy.
    pub fn duplicate(&self) -> (r: Self)
        ensures
            r == *self,
    {
        SigningIdentity { hash: self.hash.clone(), name: self.name.clone() }
    }
}

/// An ASCII decimal digit.
pub open spec fn ascii_digit(c: char) -> bool {
    '0' <= c <= '9'
}

/// An ASCII hexadecimal digit.
pub open spec fn ascii_hex(c: char) -> bool {
    ascii_digit(c) || ('a' <= c <= 'f') || ('A' <= c <= 'F')
}

/// `s` without the leading digits and `)` of an entry number.
pub open spec fn strip_entry_number(s: Seq<char>) -> Seq<char>
    decreases s.len(),
{
    if s.len() > 0 && (ascii_digit(s[0]) || s[0] == ')') {
        strip_entry_number(s.drop_first())
    } else {
        s
    }
}

/// Position of the first `c` in `s`, from position `i` on.
pub open spec fn first_index(s: Seq<char>, c: char, i: int) -> Option<int>
    decreases s.len() - i,
{
    if i < 0 || i >= s.len() {
        None
    } else if s[i] == c {
        Some(i)
    } else {
        first_index(s, c, i + 1)
    }
}

/// Position of the last `c` in `s[..n]`.
pub open spec fn last_index(s: Seq<char>, c: char, n: int) -> Option<int>
    decreases n,
{
    if n <= 0 || n > s.len() {
        None
    } else if s[n - 1] == c {
        Some(n - 1)
    } else {
        last_index(s, c, n - 1)
    }
}

/// The identity listed on one line of `security find-identity`: after an
/// entry number (a digit, then digits and `)`), a 40-digit hexadecimal hash,
/// then the name between the first and the last double quote.
pub open spec fn identity_line(line: Seq<char>) -> Option<(Seq<char>, Seq<char>)> {
    let t = trimmed(line);
    if t.len() > 0 && ascii_digit(t[0]) {
        let rest = trimmed(strip_entry_number(t.drop_first()));
        if rest.len() >= 40 && (forall|i: int| 0 <= i < 40 ==> ascii_hex(#[trigger] rest[i])) {
            let a = first_index(rest, '"', 0);
            let b = last_index(rest, '"', rest.len() as int);
            if a is Some && b is Some && a->0 < b->0 {
                Some((rest.subrange(0, 40), rest.subrange(a->0 + 1, b->0)))
            } else {
                None
            }
        } else {
            None
        }
    } else {
        None
    }
}

/// The identities listed in the lines `ls`, in order.
pub open spec fn identities_in(ls: Seq<Seq<char>>) -> Seq<(Seq<char>, Seq<char>)>
    decreases ls.len(),
{
    if ls.len() == 0 {
        Seq::empty()
    } else {
        let prev = identities_in(ls.drop_last());
        match identity_line(ls.last()) {
            Some(id) => prev.push(id),
            None => prev,
        }
    }
}

/// The hash and name of each identity.
pub open spec fn identity_views(v: Seq<SigningIdentity>) -> Seq<(Seq<char>, Seq<char>)> {
    Seq::new(v.len(), |i: int| (v[i].hash@, v[i].name@))
}

fn is_ascii_digit(c: char) -> (b: bool)
    ensures
        b == ascii_digit(c),
{
    '0' <= c && c <= '9'
}

fn is_ascii_hex(c: char) -> (b: bool)
    ensures
        b == ascii_hex(c),
{
    ('0' <= c && c <= '9') || ('a' <= c && c <= 'f') || ('A' <= c && c <= 'F')
}

fn find_char(s: &[char], c: char) -> (r: Option<usize>)
    ensures
        r matches Some(i) ==> i < s@.len() && first_index(s@, c, 0) == Some(i as int),
        r is None ==> first_index(s@, c, 0) is None,
{
    let mut i: usize = 0;
    while i < s.len()
        invariant
            i <= s@.len(),
            first_index(s@, c, 0) == first_index(s@, c, i as int),
        decreases s@.len() - i,
    {
        if s[i] == c {
            return Some(i);
        }
        i = i + 1;
    }
    None
}

fn rfind_char(s: &[char], c: char) -> (r: Option<usize>)
    ensures
        r matches Some(i) ==> i < s@.len() && last_index(s@, c, s@.len() as int) == Some(i as int),
        r is None ==> last_index(s@, c, s@.len() as int) is None,
{
    let mut n: usize = s.len();
    while n > 0
        invariant
            n <= s@.len(),
            last_index(s@, c, s@.len() as int) == last_index(s@, c, n as int),
        decreases n,
    {
        if s[n - 1] == c {
            return Some(n - 1);
        }
        n = n - 1;
    }
    None
}

/// Reads the identity listed on one line, if any.
#[verifier::loop_isolation(false)]
fn parse_identity_line(line: &str) -> (r: Option<SigningIdentity>)
    ensures
        match identity_line(line@) {
            Some((h, n)) => r matches Some(id) && id.hash@ == h && id.name@ == n,
            None => r is None,
        },
{
    let t = trim(line);
    let tc = chars_of(t.as_str());
    if tc.len() == 0 || !is_ascii_digit(tc[0]) {
        return None;
    }
    let mut i: usize = 1;
    while i < tc.len() && (is_ascii_digit(tc[i]) || tc[i] == ')')
        invariant
            1 <= i <= tc@.len(),
            strip_entry_number(tc@.drop_first()) == strip_entry_number(tc@.subrange(i as int, tc@.len() as int)),
        decreases tc@.len() - i,
    {
        assert(tc@.subrange(i as int, tc@.len() as int).drop_first() =~= tc@.subrange(i + 1, tc@.len() as int));
        i = i + 1;
    }
    proof {
        let u = tc@.subrange(i as int, tc@.len() as int);
        if i < tc@.len() {
            assert(u[0] == tc@[i as int]);
        }
        assert(strip_entry_number(u) == u);
    }
    let stripped = substring(tc.as_slice(), i, tc.len());
    let rest = trim(stripped.as_str());
    let rc = chars_of(rest.as_str());
    if rc.len() < 40 {
        return None;
    }
    let mut k: usize = 0;
    while k < 40
        invariant
            k <= 40 <= rc@.len(),
            forall|j: int| 0 <= j < k ==> ascii_hex(#[trigger] rc@[j]),
        decreases 40 - k,
    {
        if !is_ascii_hex(rc[k]) {
            assert(!ascii_hex(rc@[k as int]));
            return None;
        }
        k = k + 1;
    }
    let a = find_char(rc.as_slice(), '"');
    let b = rfind_char(rc.as_slice(), '"');
    proof {
        let t = trimmed(line@);
        assert(t == tc@);
        assert(t.drop_first() == tc@.drop_first());
        assert(stripped@ == strip_entry_number(t.drop_first()));
        assert(rc@ == trimmed(strip_entry_number(t.drop_first())));
        assert(forall|j: int| 0 <= j < 40 ==> ascii_hex(#[trigger] rc@[j]));
        assert(t.len() > 0 && ascii_digit(t[0]));
        assert(rc@.len() >= 40);
        let rest = trimmed(strip_entry_number(t.drop_first()));
        let sa = first_index(rest, '"', 0);
        let sb = last_index(rest, '"', rest.len() as int);
        assert(identity_line(line@) == if sa is Some && sb is Some && sa->0 < sb->0 {
            Some((rest.subrange(0, 40), rest.subrange(sa->0 + 1, sb->0)))
        } else {
            None::<(Seq<char>, Seq<char>)>
        });
    }
    let a = match a {
        Some(a) => a,
        None => return None,
    };
    let b = match b {
        Some(b) => b,
        None => return None,
    };
    if a >= b {
        return None;
    }
    let hash = substring(rc.as_slice(), 0, 40);
    let name = substring(rc.as_slice(), a + 1, b);
    Some(SigningIdentity { hash, name })
}

/// Message when the keychain holds no usable identity.
pub open spec fn no_identities_msg() -> Seq<char> {
    "no valid signing identities found in keychain"@
}

/// Reads the identities from the output of `security find-identity -v -p
/// codesigning`; there must be one.
pub fn parse_signing_identities(output: &str) -> (r: Result<Vec<SigningIdentity>, TossError>)
    ensures
        identities_in(text_lines(output@)).len() == 0 ==> (r matches Err(TossError::Signing(m))
            && m@ == no_identities_msg()),
        identities_in(text_lines(output@)).len() > 0 ==> (r matches Ok(v)
            && identity_views(v@) == identities_in(text_lines(output@))),
{
    let lines = split_lines(output);
    let ghost ls = string_views(lines@);
    let mut ids: Vec<SigningIdentity> = Vec::new();
    let mut i: usize = 0;
    while i < lines.len()
        invariant
            i <= lines@.len(),
            ls == string_views(lines@),
            identity_views(ids@) == identities_in(ls.subrange(0, i as int)),
        decreases lines@.len() - i,
    {
        assert(ls.subrange(0, i + 1).drop_last() =~= ls.subrange(0, i as int));
        assert(ls[i as int] == lines@[i as int]@);
        match parse_identity_line(lines[i].as_str()) {
            Some(id) => {
                let ghost before = ids@;
                ids.push(id);
                assert(identity_views(ids@) =~= identity_views(before).push((ids@.last().hash@, ids@.last().name@)));
            },
            None => {},
        }
        i = i + 1;
    }
    assert(ls.subrange(0, lines@.len() as int) =~= ls);
    if ids.len() == 0 {
        return Err(TossError::Signing("no valid signing identities found in keychain".to_string()));
    }
    Ok(ids)
}

/// The identity is named by `query`: its name contains it, or its hash
/// starts with it.
pub open spec fn identity_matches_query(id: SigningIdentity, query: Seq<char>) -> bool {
    has_substring(id.name@, query) || starts_with(id.hash@, query)
}

/// A query names an identity exactly when the identity's name holds the
/// query anywhere in it (a team identifier or a person's name inside
/// "Apple Development: me (TEAMID1234)" names it) or its hash begins with
/// the query.
pub proof fn lemma_identity_query_meaning(id: SigningIdentity, query: Seq<char>)
    ensures
        identity_matches_query(id, query) <==> (exists|before: Seq<char>, after: Seq<char>| id.name@ == before + query + after)
            || (exists|rest: Seq<char>| id.hash@ == query + rest),
{
    crate::text::lemma_has_substring_split(id.name@, query);
    crate::text::lemma_starts_with_split(id.hash@, query);
}

/// The identities offered for a query are exactly those it names, each
/// once, in list order.
pub proof fn lemma_matching_identities_meaning(ids: Seq<SigningIdentity>, query: Seq<char>)
    ensures
        forall|k: int| 0 <= k < matching_identities(ids, query).len() ==> 0 <= #[trigger] matching_identities(ids, query)[k] < ids.len()
            && identity_matches_query(ids[matching_identities(ids, query)[k]], query),
        forall|k: int, l: int| 0 <= k < l < matching_identities(ids, query).len()
            ==> #[trigger] matching_identities(ids, query)[k] < #[trigger] matching_identities(ids, query)[l],
        forall|i: int| 0 <= i < ids.len() && #[trigger] identity_matches_query(ids[i], query)
            ==> matching_identities(ids, query).contains(i),
    decreases ids.len(),
{
    if ids.len() > 0 {
        let init = ids.drop_last();
        lemma_matching_identities_meaning(init, query);
        let prev = matching_identities(init, query);
        let ms = matching_identities(ids, query);
        assert forall|k: int| 0 <= k < ms.len() implies 0 <= #[trigger] ms[k] < ids.len()
            && identity_matches_query(ids[ms[k]], query) by {
            if k < prev.len() {
                assert(ms[k] == prev[k]);
                assert(ids[prev[k]] == init[prev[k]]);
            }
        }
        assert forall|k: int, l: int| 0 <= k < l < ms.len() implies #[trigger] ms[k] < #[trigger] ms[l] by {
            if l < prev.len() {
                assert(ms[k] == prev[k] && ms[l] == prev[l]);
            } else {
                assert(ms[k] == prev[k]);
            }
        }
        assert forall|i: int| 0 <= i < ids.len() && #[trigger] identity_matches_query(ids[i], query) implies ms.contains(i) by {
            if i < ids.len() - 1 {
                assert(init[i] == ids[i]);
                assert(identity_matches_query(init[i], query));
                let q = choose|q: int| 0 <= q < prev.len() && prev[q] == i;
                assert(ms[q] == i);
            } else {
                assert(ms[prev.len() as int] == i);
            }
        }
    }
}

/// Positions of the identities named by `query`, in order.
pub open spec fn matching_identities(ids: Seq<SigningIdentity>, query: Seq<char>) -> Seq<int>
    decreases ids.len(),
{
    if ids.len() == 0 {
        Seq::empty()
    } else {
        let prev = matching_identities(ids.drop_last(), query);
        if identity_matches_query(ids.last(), query) {
            prev.push(ids.len() - 1)
        } else {
            prev
        }
    }
}

/// Message when no identity is named by the query.
pub open spec fn no_matching_identity_msg(query: Seq<char>) -> Seq<char> {
    "no signing identity matching '"@ + query + "'"@
}

/// Message when several identities are named by the query and the user
/// cannot be asked.
pub open spec fn multiple_matching_identities_msg() -> Seq<char> {
    "multiple signing identities match — specify one with `--identity`"@
}

/// Message when several identities exist and the user cannot be asked.
pub open spec fn multiple_identities_msg() -> Seq<char> {
    "multiple signing identities found — specify one with `--identity`"@
}

/// `r` is what picking among the identities at `positions` gives for the
/// chooser's answer `c`.
pub open spec fn chosen_identity(r: Result<SigningIdentity, TossError>, c: Result<Option<usize>, TossError>, ids: Seq<SigningIdentity>, positions: Seq<int>, msg: Seq<char>) -> bool {
    match c {
        Ok(Some(k)) => r == Ok::<SigningIdentity, TossError>(ids[positions[k as int]]),
        Ok(None) => r matches Err(TossError::Signing(m)) && m@ == msg,
        Err(e) => r == Err::<SigningIdentity, TossError>(e),
    }
}

/// Picks one of the identities at `positions` given the chooser's answer:
/// the identity at the chosen position, a signing error with `msg` when the
/// user could not be asked, or the front end's own failure.
pub fn pick_identity(identities: &[SigningIdentity], positions: &[usize], choice: Result<Option<usize>, TossError>, msg: &str) -> (r: Result<SigningIdentity, TossError>)
    requires
        answer_in_range(choice, positions@.len()),
        forall|k: int| 0 <= k < positions@.len() ==> #[trigger] positions@[k] < identities@.len(),
    ensures
        chosen_identity(r, choice, identities@, position_views(positions@), msg@),
{
    match choice {
        Ok(Some(k)) => Ok(identities[positions[k]].duplicate()),
        Ok(None) => Err(TossError::Signing(msg.to_string())),
        Err(e) => Err(e),
    }
}

/// The names of the identities at `positions`, as offered to the user.
pub open spec fn identity_choices(ids: Seq<SigningIdentity>, positions: Seq<int>) -> Seq<Seq<char>> {
    positions.map_values(|i: int| ids[i].name@)
}

/// Prompt when a query names several identities.
pub open spec fn matching_identities_prompt() -> Seq<char> {
    "Multiple identities match, select one"@
}

/// Prompt when no query is given and there are several identities.
pub open spec fn identity_prompt() -> Seq<char> {
    "Select signing identity"@
}

fn identity_names(ids: &[SigningIdentity], positions: &[usize]) -> (r: Vec<String>)
    requires
        forall|k: int| 0 <= k < positions@.len() ==> #[trigger] positions@[k] < ids@.len(),
    ensures
        r@.len() == positions@.len(),
        string_views(r@) == identity_choices(ids@, position_views(positions@)),
{
    let mut r: Vec<String> = Vec::new();
    let mut k: usize = 0;
    while k < positions.len()
        invariant
            k <= positions@.len(),
            r@.len() == k,
            forall|j: int| 0 <= j < positions@.len() ==> #[trigger] positions@[j] < ids@.len(),
            forall|j: int| 0 <= j < k ==> #[trigger] r@[j]@ == ids@[positions@[j] as int].name@,
        decreases positions@.len() - k,
    {
        r.push(ids[positions[k]].name.clone());
        k = k + 1;
    }
    assert(string_views(r@) =~= identity_choices(ids@, position_views(positions@)));
    r
}

/// Picking the signing identity among `ids`, from log `before` to log
/// `after`, with result `r`: with a query, the one it names, the user being
/// asked when it names several; without, the only identity, else the user's
/// choice among all.
pub open spec fn identity_selection(ids: Seq<SigningIdentity>, query: Option<Seq<char>>, before: Seq<Exchange>, after: Seq<Exchange>,
    r: Result<SigningIdentity, TossError>) -> bool {
    match query {
        Some(q) => {
            let ms = matching_identities(ids, q);
            &&& ms.len() <= 1 ==> after == before
            &&& ms.len() == 0 ==> (r matches Err(TossError::Signing(m)) && m@ == no_matching_identity_msg(q))
            &&& ms.len() == 1 ==> r == Ok::<SigningIdentity, TossError>(ids[ms[0]])
            &&& ms.len() > 1 ==> {
                &&& asks(before, after, matching_identities_prompt(), identity_choices(ids, ms))
                &&& answer_in_range(last_answer(after), ms.len())
                &&& chosen_identity(r, last_answer(after), ids, ms, multiple_matching_identities_msg())
            }
        },
        None => {
            let all = Seq::new(ids.len(), |i: int| i);
            &&& ids.len() == 1 ==> after == before && r == Ok::<SigningIdentity, TossError>(ids[0])
            &&& ids.len() != 1 ==> {
                &&& asks(before, after, identity_prompt(), identity_choices(ids, all))
                &&& answer_in_range(last_answer(after), ids.len())
                &&& chosen_identity(r, last_answer(after), ids, all, multiple_identities_msg())
            }
        },
    }
}

/// Picks the signing identity: with a query, the one it names (asking the
/// user when it names several); without, the only identity or the user's
/// choice among all.
pub fn select_signing_identity<A: WorkflowAdapter>(identities: &[SigningIdentity], override_name: Option<&str>, adapter: &mut A) -> (r: Result<SigningIdentity, TossError>)
    ensures
        identity_selection(identities@, match override_name { Some(q) => Some(q@), None => None },
            old(adapter).log(), final(adapter).log(), r),
{
    match override_name {
        Some(q) => {
            let mut positions: Vec<usize> = Vec::new();
            let mut i: usize = 0;
            while i < identities.len()
                invariant
                    i <= identities@.len(),
                    positions@.len() == matching_identities(identities@.subrange(0, i as int), q@).len(),
                    forall|k: int| 0 <= k < positions@.len() ==> #[trigger] positions@[k] as int == matching_identities(identities@.subrange(0, i as int), q@)[k],
                    forall|k: int| 0 <= k < positions@.len() ==> #[trigger] positions@[k] < i,
                decreases identities@.len() - i,
            {
                let ghost before = positions@;
                assert(identities@.subrange(0, i + 1).drop_last() =~= identities@.subrange(0, i as int));
                assert(identities@.subrange(0, i + 1).last() == identities@[i as int]);
                if str_contains(identities[i].name.as_str(), q) || str_starts_with(identities[i].hash.as_str(), q) {
                    positions.push(i);
                }
                i = i + 1;
            }
            assert(identities@.subrange(0, identities@.len() as int) =~= identities@);
            let ghost ms = matching_identities(identities@, q@);
            if positions.len() == 0 {
                let mut m = "no signing identity matching '".to_string();
                m.append(q);
                m.append("'");
                return Err(TossError::Signing(m));
            }
            assert(position_views(positions@) =~= ms);
            if positions.len() == 1 {
                return Ok(identities[positions[0]].duplicate());
            }
            let names = identity_names(identities, positions.as_slice());
            let choice = adapter.select_index("Multiple identities match, select one", names.as_slice(), 0);
            let r = pick_identity(identities, positions.as_slice(), choice,
                "multiple signing identities match — specify one with `--identity`");
            proof {
                reveal_strlit("multiple signing identities match — specify one with `--identity`");
                assert(chosen_identity(r, choice, identities@, ms, multiple_matching_identities_msg()));
                assert(last_answer(adapter.log()) == choice);
            }
            r
        },
        None => {
            if identities.len() == 1 {
                return Ok(identities[0].duplicate());
            }
            let mut all: Vec<String> = Vec::new();
            let mut positions: Vec<usize> = Vec::new();
            let mut i: usize = 0;
            while i < identities.len()
                invariant
                    i <= identities@.len(),
                    all@.len() == i,
                    positions@.len() == i,
                    forall|k: int| 0 <= k < i ==> #[trigger] positions@[k] == k,
                    forall|k: int| 0 <= k < i ==> #[trigger] all@[k]@ == identities@[k].name@,
                decreases identities@.len() - i,
            {
                all.push(identities[i].name.clone());
                positions.push(i);
                i = i + 1;
            }
            let choice = adapter.select_index("Select signing identity", all.as_slice(), 0);
            let r = pick_identity(identities, positions.as_slice(), choice,
                "multiple signing identities found — specify one with `--identity`");
            proof {
                reveal_strlit("multiple signing identities found — specify one with `--identity`");
                let ps = Seq::new(identities@.len(), |i: int| i);
                assert(position_views(positions@) =~= ps);
                assert(chosen_identity(r, choice, identities@, ps, multiple_identities_msg()));
                assert(string_views(all@) =~= identity_choices(identities@, ps));
                assert(last_answer(adapter.log()) == choice);
            }
            r
        },
    }
}

/// A provisioning profile, as read from its decoded property list.
#[derive(Debug, Clone)]
pub struct ProvisioningProfile {
    pub path: String,
    pub uuid: Option<String>,
    pub name: String,
    pub team_ids: Vec<String>,
    pub bundle_id_pattern: String,
    pub expiration_epoch: Option<u64>,
    pub provisioned_devices: Vec<String>,
    pub provisions_all_devices: bool,
}

/// A profile file with what could be read from it, or why not.
#[derive(Debug, Clone)]
pub struct ProvisioningProfileInspection {
    pub path: String,
    pub profile: Option<ProvisioningProfile>,
    pub error: Option<String>,
}

/// The bundle identifier pattern of an application identifier: what
/// follows the team prefix (the first `.`), or the whole identifier.
pub open spec fn pattern_of_app_id(app_id: Seq<char>) -> Seq<char> {
    match first_index(app_id, '.', 0) {
        Some(i) => app_id.subrange(i + 1, app_id.len() as int),
        None => app_id,
    }
}

/// A `ProvisionsAllDevices` value that means yes: `true` in any letter case,
/// or `1`.
pub open spec fn is_yes(v: Seq<char>) -> bool {
    (v.len() == 4 && (v[0] == 't' || v[0] == 'T') && (v[1] == 'r' || v[1] == 'R')
        && (v[2] == 'u' || v[2] == 'U') && (v[3] == 'e' || v[3] == 'E')) || v == seq!['1']
}

fn yes_value(v: &str) -> (b: bool)
    ensures
        b == is_yes(v@),
{
    let c = chars_of(v);
    if c.len() == 4 && (c[0] == 't' || c[0] == 'T') && (c[1] == 'r' || c[1] == 'R') && (c[2] == 'u' || c[2] == 'U')
        && (c[3] == 'e' || c[3] == 'E') {
        return true;
    }
    let one = c.len() == 1 && c[0] == '1';
    assert(one == (c@ == seq!['1'])) by {
        if c@.len() == 1 && c@[0] == '1' {
            assert(c@ =~= seq!['1']);
        }
    }
    one
}

/// Builds a profile from the values read from its property list: `Name`
/// (`Unknown` when missing), `UUID`, the team identifiers, the application
/// identifier (empty when missing), the expiration time, the provisioned
/// devices and `ProvisionsAllDevices`.
pub fn profile_from_fields(
    path: String,
    name: Option<String>,
    uuid: Option<String>,
    team_ids: Vec<String>,
    app_id: Option<String>,
    expiration_epoch: Option<u64>,
    provisioned_devices: Vec<String>,
    provisions_all_devices: Option<String>,
) -> (p: ProvisioningProfile)
    ensures
        p.path == path,
        p.uuid == uuid,
        p.name@ == match name { Some(n) => n@, None => "Unknown"@ },
        p.team_ids == team_ids,
        p.bundle_id_pattern@ == pattern_of_app_id(match app_id { Some(a) => a@, None => Seq::empty() }),
        p.expiration_epoch == expiration_epoch,
        p.provisioned_devices == provisioned_devices,
        p.provisions_all_devices == match provisions_all_devices { Some(v) => is_yes(v@), None => false },
{
    let name = match name {
        Some(n) => n,
        None => "Unknown".to_string(),
    };
    let app_id = match app_id {
        Some(a) => a,
        None => String::new(),
    };
    let ac = chars_of(app_id.as_str());
    let bundle_id_pattern = match find_char(ac.as_slice(), '.') {
        Some(i) => {
            assert(i < ac@.len() && ac@.len() == ac.len());
            substring(ac.as_slice(), i + 1, ac.len())
        },
        None => app_id,
    };
    let all = match &provisions_all_devices {
        Some(v) => yes_value(v.as_str()),
        None => false,
    };
    ProvisioningProfile {
        path,
        uuid,
        name,
        team_ids,
        bundle_id_pattern,
        expiration_epoch,
        provisioned_devices,
        provisions_all_devices: all,
    }
}

/// Position of the first occurrence of a non-empty `needle` in `hay`, from
/// position `i` on.
pub open spec fn occurrence_from(hay: Seq<u8>, needle: Seq<u8>, i: int) -> Option<int>
    decreases hay.len() - i,
{
    if needle.len() == 0 || i < 0 || i + needle.len() > hay.len() {
        None
    } else if hay.subrange(i, i + needle.len()) == needle {
        Some(i)
    } else {
        occurrence_from(hay, needle, i + 1)
    }
}

/// Position of the first occurrence of a non-empty `needle` in `hay`.
pub open spec fn first_occurrence(hay: Seq<u8>, needle: Seq<u8>) -> Option<int> {
    occurrence_from(hay, needle, 0)
}

proof fn lemma_occurrence_range(hay: Seq<u8>, needle: Seq<u8>, i: int)
    ensures
        occurrence_from(hay, needle, i) matches Some(k) ==> i <= k && k + needle.len() <= hay.len(),
    decreases hay.len() - i,
{
    if !(needle.len() == 0 || i < 0 || i + needle.len() > hay.len()) && hay.subrange(i, i + needle.len()) != needle {
        lemma_occurrence_range(hay, needle, i + 1);
    }
}

/// Position of the first occurrence of `needle` in `hay`; none for an empty
/// needle.
pub fn find_bytes(hay: &[u8], needle: &[u8]) -> (r: Option<usize>)
    ensures
        r matches Some(i) ==> first_occurrence(hay@, needle@) == Some(i as int) && i + needle@.len() <= hay@.len(),
        r is None ==> first_occurrence(hay@, needle@) is None,
{
    if needle.len() == 0 || hay.len() < needle.len() {
        return None;
    }
    let last = hay.len() - needle.len();
    let mut i: usize = 0;
    while i <= last
        invariant
            needle@.len() > 0,
            hay@.len() == hay.len(),
            needle@.len() == needle.len(),
            last == hay@.len() - needle@.len(),
            i <= last + 1,
            first_occurrence(hay@, needle@) == occurrence_from(hay@, needle@, i as int),
        decreases last + 1 - i,
    {
        let mut k: usize = 0;
        let mut same = true;
        while k < needle.len()
            invariant
                i <= last,
                hay@.len() == hay.len(),
                needle@.len() == needle.len(),
                last == hay@.len() - needle@.len(),
                k <= needle@.len(),
                same == forall|m: int| 0 <= m < k ==> hay@[i + m] == needle@[m],
            decreases needle@.len() - k,
        {
            if hay[i + k] != needle[k] {
                same = false;
            }
            k = k + 1;
        }
        if same {
            assert(hay@.subrange(i as int, i + needle@.len()) =~= needle@);
            return Some(i);
        }
        proof {
            if hay@.subrange(i as int, i + needle@.len()) == needle@ {
                assert forall|m: int| 0 <= m < needle@.len() implies hay@[i + m] == needle@[m] by {
                    assert(hay@.subrange(i as int, i + needle@.len())[m] == hay@[i + m]);
                }
            }
        }
        i = i + 1;
    }
    None
}

/// The bytes of `<?xml`.
pub open spec fn xml_decl_bytes() -> Seq<u8> {
    seq![60u8, 63u8, 120u8, 109u8, 108u8]
}

/// The bytes of `<plist`.
pub open spec fn plist_open_bytes() -> Seq<u8> {
    seq![60u8, 112u8, 108u8, 105u8, 115u8, 116u8]
}

/// The bytes of `</plist>`.
pub open spec fn plist_close_bytes() -> Seq<u8> {
    seq![60u8, 47u8, 112u8, 108u8, 105u8, 115u8, 116u8, 62u8]
}

/// The property list embedded in a signed profile: from the first `<?xml`
/// (else the first `<plist`) to the end of the first `</plist>` after it.
pub open spec fn embedded_plist(raw: Seq<u8>) -> Option<Seq<u8>> {
    let start = match first_occurrence(raw, xml_decl_bytes()) {
        Some(s) => Some(s),
        None => first_occurrence(raw, plist_open_bytes()),
    };
    match start {
        None => None,
        Some(s) => match first_occurrence(raw.subrange(s, raw.len() as int), plist_close_bytes()) {
            None => None,
            Some(e) => Some(raw.subrange(s, s + e + 8)),
        },
    }
}

fn bytes_from(raw: &[u8], from: usize, to: usize) -> (r: Vec<u8>)
    requires
        from <= to <= raw@.len(),
    ensures
        r@ == raw@.subrange(from as int, to as int),
{
    let mut r: Vec<u8> = Vec::new();
    let mut i = from;
    while i < to
        invariant
            from <= i <= to <= raw@.len(),
            r@ == raw@.subrange(from as int, i as int),
        decreases to - i,
    {
        r.push(raw[i]);
        assert(raw@.subrange(from as int, i + 1) =~= raw@.subrange(from as int, i as int).push(raw@[i as int]));
        i = i + 1;
    }
    r
}

/// Cuts the embedded property list out of a profile that `security cms`
/// could not decode.
pub fn extract_embedded_plist_bytes(raw: &[u8]) -> (r: Option<Vec<u8>>)
    ensures
        match embedded_plist(raw@) {
            Some(p) => r matches Some(v) && v@ == p,
            None => r is None,
        },
{
    let xml: Vec<u8> = vec![60u8, 63u8, 120u8, 109u8, 108u8];
    let open: Vec<u8> = vec![60u8, 112u8, 108u8, 105u8, 115u8, 116u8];
    let close: Vec<u8> = vec![60u8, 47u8, 112u8, 108u8, 105u8, 115u8, 116u8, 62u8];
    assert(xml@ == xml_decl_bytes());
    assert(open@ == plist_open_bytes());
    assert(close@ == plist_close_bytes());
    let start = match find_bytes(raw, xml.as_slice()) {
        Some(s) => s,
        None => match find_bytes(raw, open.as_slice()) {
            Some(s) => s,
            None => return None,
        },
    };
    let tail = bytes_from(raw, start, raw.len());
    let e = match find_bytes(tail.as_slice(), close.as_slice()) {
        Some(e) => e,
        None => return None,
    };
    Some(bytes_from(raw, start, start + e + 8))
}

/// The identity's name mentions the team, in parentheses or not.
pub open spec fn names_team(name: Seq<char>, team: Seq<char>) -> bool {
    has_substring(name, "("@ + team + ")"@) || has_substring(name, team)
}

/// The identity belongs to one of the profile's teams (any identity fits a
/// profile without teams).
pub open spec fn identity_fits_profile(id: SigningIdentity, p: ProvisioningProfile) -> bool {
    p.team_ids@.len() == 0 || exists|i: int| 0 <= i < p.team_ids@.len() && #[trigger] names_team(id.name@, p.team_ids@[i]@)
}

/// Whether the identity may sign with the profile.
pub fn identity_matches_profile(identity: &SigningIdentity, profile: &ProvisioningProfile) -> (b: bool)
    ensures
        b == identity_fits_profile(*identity, *profile),
{
    if profile.team_ids.len() == 0 {
        return true;
    }
    let mut i: usize = 0;
    while i < profile.team_ids.len()
        invariant
            i <= profile.team_ids@.len(),
            forall|j: int| 0 <= j < i ==> !#[trigger] names_team(identity.name@, profile.team_ids@[j]@),
        decreases profile.team_ids@.len() - i,
    {
        let t = profile.team_ids[i].as_str();
        let mut paren = "(".to_string();
        paren.append(t);
        paren.append(")");
        if str_contains(identity.name.as_str(), paren.as_str()) || str_contains(identity.name.as_str(), t) {
            assert(names_team(identity.name@, profile.team_ids@[i as int]@));
            return true;
        }
        assert(!names_team(identity.name@, profile.team_ids@[i as int]@));
        i = i + 1;
    }
    false
}

/// The bundle identifier fits the profile's pattern: `*` fits all, a pattern
/// ending in `*` fits what starts with the rest, any other only itself.
pub open spec fn pattern_fits(pattern: Seq<char>, bundle_id: Seq<char>) -> bool {
    if pattern == seq!['*'] {
        true
    } else if pattern.len() > 0 && pattern.last() == '*' {
        starts_with(bundle_id, pattern.drop_last())
    } else {
        pattern == bundle_id
    }
}

/// What a profile's pattern admits: `*` admits every identifier; a longer
/// pattern ending in `*` admits exactly the identifiers that consist of the
/// pattern without its `*` followed by anything (so `com.example.*` admits
/// `com.example.app`); any other pattern admits only itself.
pub proof fn lemma_pattern_fits_meaning(pattern: Seq<char>, bundle_id: Seq<char>)
    ensures
        pattern == seq!['*'] ==> pattern_fits(pattern, bundle_id),
        pattern.len() >= 2 && pattern[pattern.len() - 1] == '*' ==> (pattern_fits(pattern, bundle_id)
            <==> exists|rest: Seq<char>| bundle_id == #[trigger] (pattern.subrange(0, pattern.len() - 1) + rest)),
        pattern.len() == 0 || pattern[pattern.len() - 1] != '*' ==> (pattern_fits(pattern, bundle_id) <==> bundle_id == pattern),
{
    crate::text::lemma_starts_with_split(bundle_id, pattern.drop_last());
    if pattern.len() >= 2 {
        assert(pattern.drop_last() =~= pattern.subrange(0, pattern.len() - 1));
        assert(pattern != seq!['*']);
    }
    if pattern.len() > 0 && pattern[pattern.len() - 1] != '*' {
        assert(pattern.last() != '*');
        assert(pattern != seq!['*']);
    }
}

/// Whether the profile's bundle identifier pattern fits the bundle identifier.
pub fn profile_matches_bundle_id(profile: &ProvisioningProfile, bundle_id: &str) -> (b: bool)
    ensures
        b == pattern_fits(profile.bundle_id_pattern@, bundle_id@),
{
    let p = chars_of(profile.bundle_id_pattern.as_str());
    if p.len() == 1 && p[0] == '*' {
        assert(p@ =~= seq!['*']);
        return true;
    }
    proof {
        if p@ == seq!['*'] {
            assert(p@.len() == 1);
        }
    }
    if p.len() > 0 && p[p.len() - 1] == '*' {
        let prefix = substring(p.as_slice(), 0, p.len() - 1);
        assert(prefix@ =~= p@.drop_last());
        return str_starts_with(bundle_id, prefix.as_str());
    }
    str_eq(profile.bundle_id_pattern.as_str(), bundle_id)
}

/// Message for a bundle identifier outside the profile's pattern.
pub open spec fn pattern_mismatch_msg(bundle_id: Seq<char>, pattern: Seq<char>) -> Seq<char> {
    "bundle id '"@ + bundle_id + "' does not match profile pattern '"@ + pattern + "'"@
}

/// Message for a profile past its expiration time.
pub open spec fn expired_msg() -> Seq<char> {
    "profile is expired"@
}

/// Message for a profile that does not list the device.
pub open spec fn missing_device_msg(udid: Seq<char>) -> Seq<char> {
    "profile does not include device "@ + udid
}

/// The profile lists the device.
pub open spec fn lists_device(p: ProvisioningProfile, udid: Seq<char>) -> bool {
    exists|i: int| 0 <= i < p.provisioned_devices@.len() && #[trigger] p.provisioned_devices@[i]@ == udid
}

/// Why the profile cannot sign the bundle for the device at time `now`
/// (seconds since the epoch): the bundle identifier is outside its pattern;
/// it has expired; it lists devices, not this one, and does not cover all.
pub open spec fn compatibility_issues(p: ProvisioningProfile, bundle_id: Seq<char>, udid: Seq<char>, now: u64) -> Seq<Seq<char>> {
    (if !pattern_fits(p.bundle_id_pattern@, bundle_id) {
        seq![pattern_mismatch_msg(bundle_id, p.bundle_id_pattern@)]
    } else {
        Seq::empty()
    }) + (if p.expiration_epoch matches Some(e) && e <= now {
        seq![expired_msg()]
    } else {
        Seq::empty()
    }) + (if !p.provisions_all_devices && p.provisioned_devices@.len() > 0 && !lists_device(p, udid) {
        seq![missing_device_msg(udid)]
    } else {
        Seq::empty()
    })
}

/// The current time in seconds since the Unix epoch (0 when the clock is
/// before it), from `SystemTime::now`. Nothing is claimed of its value.
#[verifier::external_body]
pub(crate) fn unix_now() -> (r: u64) {
    std::time::SystemTime::now().duration_since(std::time::UNIX_EPOCH).map(|d| d.as_secs()).unwrap_or(0)
}

fn device_listed(profile: &ProvisioningProfile, udid: &str) -> (b: bool)
    ensures
        b == lists_device(*profile, udid@),
{
    let mut i: usize = 0;
    while i < profile.provisioned_devices.len()
        invariant
            i <= profile.provisioned_devices@.len(),
            forall|j: int| 0 <= j < i ==> #[trigger] profile.provisioned_devices@[j]@ != udid@,
        decreases profile.provisioned_devices@.len() - i,
    {
        if str_eq(profile.provisioned_devices[i].as_str(), udid) {
            return true;
        }
        i = i + 1;
    }
    false
}

/// Why the profile cannot sign the bundle for the device at time `now`.
pub fn compatibility_issues_at(profile: &ProvisioningProfile, bundle_id: &str, device_udid: &str, now: u64) -> (r: Vec<String>)
    ensures
        string_views(r@) == compatibility_issues(*profile, bundle_id@, device_udid@, now),
{
    let mut issues: Vec<String> = Vec::new();
    let ghost a: Seq<Seq<char>> = if !pattern_fits(profile.bundle_id_pattern@, bundle_id@) {
        seq![pattern_mismatch_msg(bundle_id@, profile.bundle_id_pattern@)]
    } else {
        Seq::empty()
    };
    let ghost b: Seq<Seq<char>> = if profile.expiration_epoch matches Some(e) && e <= now {
        seq![expired_msg()]
    } else {
        Seq::empty()
    };
    if !profile_matches_bundle_id(profile, bundle_id) {
        let mut m = "bundle id '".to_string();
        m.append(bundle_id);
        m.append("' does not match profile pattern '");
        m.append(profile.bundle_id_pattern.as_str());
        m.append("'");
        issues.push(m);
    }
    assert(string_views(issues@) =~= a);
    if let Some(e) = profile.expiration_epoch {
        if e <= now {
            issues.push("profile is expired".to_string());
        }
    }
    assert(string_views(issues@) =~= a + b);
    if !profile.provisions_all_devices && profile.provisioned_devices.len() > 0 && !device_listed(profile, device_udid) {
        let mut m = "profile does not include device ".to_string();
        m.append(device_udid);
        issues.push(m);
    }
    assert(string_views(issues@) =~= compatibility_issues(*profile, bundle_id@, device_udid@, now));
    issues
}

/// Why the profile cannot sign the bundle for the device now.
pub fn profile_compatibility_issues(profile: &ProvisioningProfile, identity: &SigningIdentity, bundle_id: &str, device_udid: &str) -> (r: Vec<String>)
    ensures
        exists|now: u64| string_views(r@) == #[trigger] compatibility_issues(*profile, bundle_id@, device_udid@, now),
{
    let now = unix_now();
    compatibility_issues_at(profile, bundle_id, device_udid, now)
}

/// The profile can sign the bundle for the device with the identity at
/// time `now`; `exact` asks its pattern to be the bundle identifier itself.
pub open spec fn profile_fits(p: ProvisioningProfile, bundle_id: Seq<char>, id: SigningIdentity, udid: Seq<char>, now: u64, exact: bool) -> bool {
    &&& (if exact { p.bundle_id_pattern@ == bundle_id } else { pattern_fits(p.bundle_id_pattern@, bundle_id) })
    &&& compatibility_issues(p, bundle_id, udid, now).len() == 0
    &&& identity_fits_profile(id, p)
}

/// Positions of the profiles that fit, in order.
pub open spec fn fitting_profiles(ps: Seq<ProvisioningProfile>, bundle_id: Seq<char>, id: SigningIdentity, udid: Seq<char>, now: u64, exact: bool) -> Seq<int>
    decreases ps.len(),
{
    if ps.len() == 0 {
        Seq::empty()
    } else {
        let prev = fitting_profiles(ps.drop_last(), bundle_id, id, udid, now, exact);
        if profile_fits(ps.last(), bundle_id, id, udid, now, exact) {
            prev.push(ps.len() - 1)
        } else {
            prev
        }
    }
}

/// The positions as integers.
pub open spec fn position_views(v: Seq<usize>) -> Seq<int> {
    Seq::new(v.len(), |i: int| v[i] as int)
}

fn fitting_positions(profiles: &[ProvisioningProfile], bundle_id: &str, identity: &SigningIdentity, device_udid: &str, now: u64, exact: bool) -> (r: Vec<usize>)
    ensures
        position_views(r@) == fitting_profiles(profiles@, bundle_id@, *identity, device_udid@, now, exact),
        forall|k: int| 0 <= k < r@.len() ==> #[trigger] r@[k] < profiles@.len(),
{
    let mut r: Vec<usize> = Vec::new();
    let mut i: usize = 0;
    while i < profiles.len()
        invariant
            i <= profiles@.len(),
            position_views(r@) == fitting_profiles(profiles@.subrange(0, i as int), bundle_id@, *identity, device_udid@, now, exact),
            forall|k: int| 0 <= k < r@.len() ==> #[trigger] r@[k] < i,
        decreases profiles@.len() - i,
    {
        let p = &profiles[i];
        assert(profiles@.subrange(0, i + 1).drop_last() =~= profiles@.subrange(0, i as int));
        assert(profiles@.subrange(0, i + 1).last() == profiles@[i as int]);
        let pattern_ok = if exact {
            str_eq(p.bundle_id_pattern.as_str(), bundle_id)
        } else {
            profile_matches_bundle_id(p, bundle_id)
        };
        if pattern_ok && compatibility_issues_at(p, bundle_id, device_udid, now).len() == 0
            && identity_matches_profile(identity, p) {
            let ghost before = r@;
            r.push(i);
            assert(position_views(r@) =~= position_views(before).push(i as int));
        }
        i = i + 1;
    }
    assert(profiles@.subrange(0, profiles@.len() as int) =~= profiles@);
    r
}

/// The profiles a bundle may be signed with: those whose pattern is the
/// bundle identifier itself, if any fit, else those whose pattern fits it.
pub open spec fn candidate_profiles(ps: Seq<ProvisioningProfile>, bundle_id: Seq<char>, id: SigningIdentity, udid: Seq<char>, now: u64) -> Seq<int> {
    let exact = fitting_profiles(ps, bundle_id, id, udid, now, true);
    if exact.len() > 0 {
        exact
    } else {
        fitting_profiles(ps, bundle_id, id, udid, now, false)
    }
}

/// Message when several profiles fit and the user cannot be asked.
pub open spec fn multiple_profiles_msg() -> Seq<char> {
    "multiple compatible provisioning profiles found — specify one with `--profile`"@
}

/// The chooser label of a profile: name, pattern and UUID.
pub open spec fn profile_label(p: ProvisioningProfile) -> Seq<char> {
    p.name@ + " ("@ + p.bundle_id_pattern@ + ", "@ + match p.uuid { Some(u) => u@, None => "no-uuid"@ } + ")"@
}

/// `r` is what picking among the candidate profiles `cs` gives for the
/// chooser's answer `c`.
pub open spec fn chosen_profile(r: Result<Option<usize>, TossError>, c: Result<Option<usize>, TossError>, cs: Seq<int>) -> bool {
    match c {
        Ok(Some(k)) => r matches Ok(Some(i)) && i == cs[k as int],
        Ok(None) => r matches Err(TossError::Signing(m)) && m@ == multiple_profiles_msg(),
        Err(e) => r == Err::<Option<usize>, TossError>(e),
    }
}

/// The text offered for a profile: `name (pattern, uuid)`.
pub open spec fn profile_choice_text(p: ProvisioningProfile) -> Seq<char> {
    p.name@ + " ("@ + p.bundle_id_pattern@ + ", "@ + (match p.uuid {
        Some(u) => u@,
        None => "no-uuid"@,
    }) + ")"@
}

/// The texts offered for the profiles at `positions`.
pub open spec fn profile_choices(profiles: Seq<ProvisioningProfile>, positions: Seq<int>) -> Seq<Seq<char>> {
    positions.map_values(|i: int| profile_choice_text(profiles[i]))
}

/// Prompt when several profiles fit.
pub open spec fn profile_prompt() -> Seq<char> {
    "Multiple compatible profiles match, select one"@
}

/// Picks the profile to sign a bundle with, at time `now`: the only
/// candidate, or the user's choice among several; none when nothing fits.
/// The result is a position in `profiles`.
pub fn match_compatible_profile<A: WorkflowAdapter>(
    profiles: &[ProvisioningProfile],
    bundle_id: &str,
    identity: &SigningIdentity,
    device_udid: &str,
    now: u64,
    adapter: &mut A,
) -> (r: Result<Option<usize>, TossError>)
    ensures
        ({
            let cs = candidate_profiles(profiles@, bundle_id@, *identity, device_udid@, now);
            &&& cs.len() <= 1 ==> final(adapter).log() == old(adapter).log()
            &&& cs.len() == 0 ==> r == Ok::<Option<usize>, TossError>(None)
            &&& cs.len() == 1 ==> (r matches Ok(Some(i)) && i == cs[0])
            &&& cs.len() > 1 ==> {
                &&& asks(old(adapter).log(), final(adapter).log(), profile_prompt(), profile_choices(profiles@, cs))
                &&& answer_in_range(last_answer(final(adapter).log()), cs.len())
                &&& chosen_profile(r, last_answer(final(adapter).log()), cs)
            }
        }),
        r matches Ok(Some(i)) ==> i < profiles@.len(),
{
    let exact = fitting_positions(profiles, bundle_id, identity, device_udid, now, true);
    if exact.len() == 1 {
        return Ok(Some(exact[0]));
    }
    let candidates = if exact.len() > 0 {
        exact
    } else {
        fitting_positions(profiles, bundle_id, identity, device_udid, now, false)
    };
    if candidates.len() == 0 {
        return Ok(None);
    }
    if candidates.len() == 1 {
        return Ok(Some(candidates[0]));
    }
    let mut items: Vec<String> = Vec::new();
    let mut k: usize = 0;
    while k < candidates.len()
        invariant
            k <= candidates@.len(),
            items@.len() == k,
            forall|j: int| 0 <= j < candidates@.len() ==> #[trigger] candidates@[j] < profiles@.len(),
            forall|j: int| 0 <= j < k ==> #[trigger] items@[j]@ == profile_choice_text(profiles@[candidates@[j] as int]),
        decreases candidates@.len() - k,
    {
        let p = &profiles[candidates[k]];
        let mut label = p.name.clone();
        label.append(" (");
        label.append(p.bundle_id_pattern.as_str());
        label.append(", ");
        match &p.uuid {
            Some(u) => label.append(u.as_str()),
            None => label.append("no-uuid"),
        }
        label.append(")");
        items.push(label);
        k = k + 1;
    }
    assert(string_views(items@) =~= profile_choices(profiles@, position_views(candidates@)));
    let multiple = TossError::Signing("multiple compatible provisioning profiles found — specify one with `--profile`".to_string());
    let choice = adapter.select_index("Multiple compatible profiles match, select one", items.as_slice(), 0);
    proof {
        assert(answer_in_range(choice, candidates@.len()));
    }
    let r = match choice {
        Ok(Some(k)) => Ok(Some(candidates[k])),
        Ok(None) => Err(multiple),
        Err(e) => Err(e),
    };
    assert(chosen_profile(r, choice, position_views(candidates@)));
    r
}

/// An ASCII letter or digit.
pub open spec fn ascii_alnum(c: char) -> bool {
    ascii_digit(c) || ('a' <= c <= 'z') || ('A' <= c <= 'Z')
}

/// The ASCII lower-case form of a character.
pub open spec fn ascii_lower(c: char) -> char {
    if 'A' <= c <= 'Z' {
        ((c as u32) + 32) as char
    } else {
        c
    }
}

fn to_ascii_lower(c: char) -> (r: char)
    ensures
        r == ascii_lower(c),
{
    if 'A' <= c && c <= 'Z' {
        let b = (c as u8) + 32;
        let r = b as char;
        assert((c as u8) as int == c as int);
        assert(r == ((c as u32) + 32) as char);
        r
    } else {
        c
    }
}

/// The bundle-identifier component built from the first `n` characters of
/// a text, and whether it ends with a separator: letters and digits in
/// lower case, each run of other characters as one `-`.
pub open spec fn component_state(s: Seq<char>) -> (Seq<char>, bool)
    decreases s.len(),
{
    if s.len() == 0 {
        (Seq::empty(), false)
    } else {
        let prev = component_state(s.drop_last());
        let c = s.last();
        if ascii_alnum(c) {
            (prev.0.push(ascii_lower(c)), false)
        } else if !prev.1 {
            (prev.0.push('-'), true)
        } else {
            prev
        }
    }
}

/// `s` without leading `-`.
pub open spec fn trim_dash_start(s: Seq<char>) -> Seq<char>
    decreases s.len(),
{
    if s.len() > 0 && s[0] == '-' {
        trim_dash_start(s.drop_first())
    } else {
        s
    }
}

/// `s` without trailing `-`.
pub open spec fn trim_dash_end(s: Seq<char>) -> Seq<char>
    decreases s.len(),
{
    if s.len() > 0 && s.last() == '-' {
        trim_dash_end(s.drop_last())
    } else {
        s
    }
}

/// A text made fit for a bundle identifier component: lower-case ASCII
/// letters and digits, single `-` between runs, none at the ends.
pub open spec fn normalized_component(s: Seq<char>) -> Seq<char> {
    trim_dash_end(trim_dash_start(component_state(s).0))
}

fn trim_dashes(s: &[char]) -> (r: String)
    ensures
        r@ == trim_dash_end(trim_dash_start(s@)),
{
    let mut a: usize = 0;
    assert(s@.subrange(0, s@.len() as int) =~= s@);
    while a < s.len() && s[a] == '-'
        invariant
            a <= s@.len(),
            trim_dash_start(s@) == trim_dash_start(s@.subrange(a as int, s@.len() as int)),
        decreases s@.len() - a,
    {
        assert(s@.subrange(a as int, s@.len() as int).drop_first() =~= s@.subrange(a + 1, s@.len() as int));
        a = a + 1;
    }
    assert(s@.subrange(0, s@.len() as int) =~= s@);
    proof {
        let u = s@.subrange(a as int, s@.len() as int);
        if a < s@.len() {
            assert(u[0] == s@[a as int]);
        }
    }
    let ghost t = s@.subrange(a as int, s@.len() as int);
    let mut b = s.len();
    while b > a && s[b - 1] == '-'
        invariant
            a <= b <= s@.len(),
            t == s@.subrange(a as int, s@.len() as int),
            trim_dash_end(t) == trim_dash_end(s@.subrange(a as int, b as int)),
        decreases b,
    {
        assert(s@.subrange(a as int, b as int).drop_last() =~= s@.subrange(a as int, b - 1));
        b = b - 1;
    }
    proof {
        let u = s@.subrange(a as int, b as int);
        if b > a {
            assert(u.last() == s@[b - 1]);
        }
    }
    substring(s, a, b)
}

/// Turns a text into a bundle identifier component.
pub fn normalize_bundle_component(input: &str) -> (r: String)
    ensures
        r@ == normalized_component(input@),
{
    let cs = chars_of(input);
    let mut out: Vec<char> = Vec::new();
    let mut prev_was_sep = false;
    let mut i: usize = 0;
    while i < cs.len()
        invariant
            i <= cs@.len(),
            (out@, prev_was_sep) == component_state(cs@.subrange(0, i as int)),
        decreases cs@.len() - i,
    {
        let c = cs[i];
        assert(cs@.subrange(0, i + 1).drop_last() =~= cs@.subrange(0, i as int));
        if ('0' <= c && c <= '9') || ('a' <= c && c <= 'z') || ('A' <= c && c <= 'Z') {
            out.push(to_ascii_lower(c));
            prev_was_sep = false;
        } else if !prev_was_sep {
            out.push('-');
            prev_was_sep = true;
        }
        i = i + 1;
    }
    assert(cs@.subrange(0, cs@.len() as int) =~= cs@);
    trim_dashes(out.as_slice())
}

/// The 64-bit FNV-1a hash of a byte string.
pub open spec fn fnv1a(bytes: Seq<u8>) -> u64
    decreases bytes.len(),
{
    if bytes.len() == 0 {
        0xcbf29ce484222325
    } else {
        (fnv1a(bytes.drop_last()) ^ (bytes.last() as u64)).wrapping_mul(0x100000001b3)
    }
}

/// The lower-case hexadecimal digit of a value below 16.
pub open spec fn hex_digit(d: nat) -> char {
    if d < 10 {
        ((d + 48) as u32) as char
    } else {
        ((d + 87) as u32) as char
    }
}

/// A 32-bit value as eight lower-case hexadecimal digits.
pub open spec fn hex8(v: nat) -> Seq<char> {
    seq![
        hex_digit(v / 0x1000_0000 % 16),
        hex_digit(v / 0x100_0000 % 16),
        hex_digit(v / 0x10_0000 % 16),
        hex_digit(v / 0x1_0000 % 16),
        hex_digit(v / 0x1000 % 16),
        hex_digit(v / 0x100 % 16),
        hex_digit(v / 0x10 % 16),
        hex_digit(v % 16),
    ]
}

fn hex_char(d: u64) -> (c: char)
    requires
        d < 16,
    ensures
        c == hex_digit(d as nat),
{
    if d < 10 {
        let b = (d + 48) as u8;
        let c = b as char;
        assert(c == ((d + 48) as u32) as char);
        c
    } else {
        let b = (d + 87) as u8;
        let c = b as char;
        assert(c == ((d + 87) as u32) as char);
        c
    }
}

/// A stable eight-digit suffix for a text: the low 32 bits of the FNV-1a
/// hash of its UTF-8 bytes, in lower-case hexadecimal.
pub fn stable_hex_suffix(input: &str) -> (r: String)
    ensures
        r@ == hex8((fnv1a(vstd::utf8::encode_utf8(input@)) as nat) % 0x1_0000_0000),
{
    let bytes = input.as_bytes();
    let mut hash: u64 = 0xcbf29ce484222325;
    let mut i: usize = 0;
    while i < bytes.len()
        invariant
            i <= bytes@.len(),
            bytes@ == vstd::utf8::encode_utf8(input@),
            hash == fnv1a(bytes@.subrange(0, i as int)),
        decreases bytes@.len() - i,
    {
        assert(bytes@.subrange(0, i + 1).drop_last() =~= bytes@.subrange(0, i as int));
        hash = (hash ^ (bytes[i] as u64)).wrapping_mul(0x100000001b3);
        i = i + 1;
    }
    assert(bytes@.subrange(0, bytes@.len() as int) =~= bytes@);
    let low = hash % 0x1_0000_0000;
    let mut r = String::new();
    push_char(&mut r, hex_char(low / 0x1000_0000 % 16));
    push_char(&mut r, hex_char(low / 0x100_0000 % 16));
    push_char(&mut r, hex_char(low / 0x10_0000 % 16));
    push_char(&mut r, hex_char(low / 0x1_0000 % 16));
    push_char(&mut r, hex_char(low / 0x1000 % 16));
    push_char(&mut r, hex_char(low / 0x100 % 16));
    push_char(&mut r, hex_char(low / 0x10 % 16));
    push_char(&mut r, hex_char(low % 16));
    assert(r@ =~= hex8(low as nat));
    r
}

/// A valid temporary bundle identifier prefix: dot-separated parts, each
/// non-empty and made of ASCII letters, digits and `-`.
pub open spec fn valid_bundle_prefix(p: Seq<char>) -> bool {
    &&& p.len() > 0
    &&& p[0] != '.'
    &&& p.last() != '.'
    &&& forall|i: int| 0 <= i < p.len() ==> ascii_alnum(#[trigger] p[i]) || p[i] == '-' || p[i] == '.'
    &&& forall|i: int| 0 <= i < p.len() - 1 && #[trigger] p[i] == '.' ==> p[i + 1] != '.'
}

/// Whether a temporary bundle identifier prefix is valid.
pub fn validate_bundle_prefix(prefix: &str) -> (b: bool)
    ensures
        b == valid_bundle_prefix(prefix@),
{
    let p = chars_of(prefix);
    if p.len() == 0 || p[0] == '.' || p[p.len() - 1] == '.' {
        return false;
    }
    let mut i: usize = 0;
    while i < p.len()
        invariant
            i <= p@.len(),
            p@ == prefix@,
            p@.len() > 0,
            forall|j: int| 0 <= j < i ==> ascii_alnum(#[trigger] p@[j]) || p@[j] == '-' || p@[j] == '.',
            forall|j: int| 0 <= j < i && j < p@.len() - 1 && #[trigger] p@[j] == '.' ==> p@[j + 1] != '.',
        decreases p@.len() - i,
    {
        let c = p[i];
        if !(('0' <= c && c <= '9') || ('a' <= c && c <= 'z') || ('A' <= c && c <= 'Z') || c == '-' || c == '.') {
            assert(!(ascii_alnum(p@[i as int]) || p@[i as int] == '-' || p@[i as int] == '.'));
            return false;
        }
        if c == '.' && i + 1 < p.len() && p[i + 1] == '.' {
            assert(p@[i as int] == '.' && p@[i + 1] == '.');
            return false;
        }
        i = i + 1;
    }
    true
}

/// Message when no temporary bundle prefix is configured.
pub open spec fn missing_prefix_msg() -> Seq<char> {
    "temporary bundle ID fallback requires `toss config set-temp-bundle-prefix <prefix>`"@
}

/// Message for an invalid configured temporary bundle prefix.
pub open spec fn invalid_prefix_msg(p: Seq<char>) -> Seq<char> {
    "invalid configured temp bundle prefix '"@ + p + "' — update it with `toss config set-temp-bundle-prefix <prefix>`"@
}

/// The configured temporary bundle identifier prefix, which must be valid.
pub fn temp_bundle_id_prefix(config: &crate::config::Config) -> (r: Result<String, TossError>)
    ensures
        match config.signing.temp_bundle_prefix {
            None => r matches Err(TossError::Signing(m)) && m@ == missing_prefix_msg(),
            Some(p) => if valid_bundle_prefix(p@) {
                r matches Ok(q) && q@ == p@
            } else {
                r matches Err(TossError::Signing(m)) && m@ == invalid_prefix_msg(p@)
            },
        },
{
    match &config.signing.temp_bundle_prefix {
        None => Err(TossError::Signing("temporary bundle ID fallback requires `toss config set-temp-bundle-prefix <prefix>`".to_string())),
        Some(p) => {
            if !validate_bundle_prefix(p.as_str()) {
                let mut m = "invalid configured temp bundle prefix '".to_string();
                m.append(p.as_str());
                m.append("' — update it with `toss config set-temp-bundle-prefix <prefix>`");
                return Err(TossError::Signing(m));
            }
            Ok(p.clone())
        },
    }
}

/// A valid team identifier: ASCII letters and digits only.
pub open spec fn valid_team_id(t: Seq<char>) -> bool {
    forall|i: int| 0 <= i < t.len() ==> ascii_alnum(#[trigger] t[i])
}

/// Whether a team identifier is valid.
pub fn validate_team_id(team_id: &str) -> (b: bool)
    ensures
        b == valid_team_id(team_id@),
{
    let t = chars_of(team_id);
    let mut i: usize = 0;
    while i < t.len()
        invariant
            i <= t@.len(),
            t@ == team_id@,
            forall|j: int| 0 <= j < i ==> ascii_alnum(#[trigger] t@[j]),
        decreases t@.len() - i,
    {
        let c = t[i];
        if !(('0' <= c && c <= '9') || ('a' <= c && c <= 'z') || ('A' <= c && c <= 'Z')) {
            assert(!ascii_alnum(t@[i as int]));
            return false;
        }
        i = i + 1;
    }
    true
}

/// Message when no team is configured.
pub open spec fn missing_team_msg() -> Seq<char> {
    "temporary signing requires `toss config set-team-id <TEAMID>`"@
}

/// Message for an invalid configured team identifier.
pub open spec fn invalid_team_msg(t: Seq<char>) -> Seq<char> {
    "invalid configured team id '"@ + t + "' — update it with `toss config set-team-id <TEAMID>`"@
}

/// The configured team identifier, which must be valid.
pub fn temp_team_id(config: &crate::config::Config) -> (r: Result<String, TossError>)
    ensures
        match config.signing.team_id {
            None => r matches Err(TossError::Signing(m)) && m@ == missing_team_msg(),
            Some(t) => if valid_team_id(t@) {
                r matches Ok(q) && q@ == t@
            } else {
                r matches Err(TossError::Signing(m)) && m@ == invalid_team_msg(t@)
            },
        },
{
    match &config.signing.team_id {
        None => Err(TossError::Signing("temporary signing requires `toss config set-team-id <TEAMID>`".to_string())),
        Some(t) => {
            if !validate_team_id(t.as_str()) {
                let mut m = "invalid configured team id '".to_string();
                m.append(t.as_str());
                m.append("' — update it with `toss config set-team-id <TEAMID>`");
                return Err(TossError::Signing(m));
            }
            Ok(t.clone())
        },
    }
}

/// The part of a bundle identifier after its last `.` (all of it when it
/// has none).
pub open spec fn last_component(id: Seq<char>) -> Seq<char> {
    match last_index(id, '.', id.len() as int) {
        Some(i) => id.subrange(i + 1, id.len() as int),
        None => id,
    }
}

/// The app name used in a temporary bundle identifier: the bundle's file
/// stem, else the last component of its original identifier, normalized;
/// `app` when both are empty.
pub open spec fn temp_app_name(bundle_path: Seq<char>, original_bundle_id: Seq<char>) -> Seq<char> {
    let from_path = normalized_component(match path_file_stem(bundle_path) {
        Some(s) => s,
        None => Seq::empty(),
    });
    if from_path.len() > 0 {
        from_path
    } else {
        let from_id = normalized_component(last_component(original_bundle_id));
        if from_id.len() > 0 {
            from_id
        } else {
            "app"@
        }
    }
}

/// The app name used in a temporary bundle identifier.
pub fn display_app_name(bundle_path: &str, original_bundle_id: &str) -> (r: String)
    ensures
        r@ == temp_app_name(bundle_path@, original_bundle_id@),
{
    let stem = match crate::paths::file_stem_of(bundle_path) {
        Some(s) => s,
        None => String::new(),
    };
    let normalized = normalize_bundle_component(stem.as_str());
    if normalized.as_str().unicode_len() > 0 {
        return normalized;
    }
    let id = chars_of(original_bundle_id);
    let last = match rfind_char(id.as_slice(), '.') {
        Some(i) => {
            assert(i < id@.len() && id@.len() == id.len());
            substring(id.as_slice(), i + 1, id.len())
        },
        None => original_bundle_id.to_string(),
    };
    let from_id = normalize_bundle_component(last.as_str());
    if from_id.as_str().unicode_len() > 0 {
        return from_id;
    }
    "app".to_string()
}

/// The temporary bundle identifier for a bundle: prefix, app name and a
/// hash of the original identifier, joined by dots.
pub open spec fn temp_bundle_id(prefix: Seq<char>, bundle_path: Seq<char>, original_bundle_id: Seq<char>) -> Seq<char> {
    prefix + "."@ + temp_app_name(bundle_path, original_bundle_id) + "."@
        + hex8((fnv1a(vstd::utf8::encode_utf8(original_bundle_id)) as nat) % 0x1_0000_0000)
}

/// Builds the temporary bundle identifier of a bundle from the configured
/// prefix, which must be set and valid.
pub fn generate_temp_bundle_id(config: &crate::config::Config, bundle_path: &str, original_bundle_id: &str) -> (r: Result<String, TossError>)
    ensures
        match config.signing.temp_bundle_prefix {
            None => r matches Err(TossError::Signing(m)) && m@ == missing_prefix_msg(),
            Some(p) => if valid_bundle_prefix(p@) {
                r matches Ok(id) && id@ == temp_bundle_id(p@, bundle_path@, original_bundle_id@)
            } else {
                r matches Err(TossError::Signing(m)) && m@ == invalid_prefix_msg(p@)
            },
        },
{
    let prefix = match temp_bundle_id_prefix(config) {
        Ok(p) => p,
        Err(e) => return Err(e),
    };
    let app_name = display_app_name(bundle_path, original_bundle_id);
    let suffix = stable_hex_suffix(original_bundle_id);
    let mut id = prefix;
    id.append(".");
    id.append(app_name.as_str());
    id.append(".");
    id.append(suffix.as_str());
    Ok(id)
}

/// The bundle identifier of an app extension signed under a new main
/// identifier: when the extension's identifier is the main one followed by
/// `.` and more, the same suffix after the new main identifier.
pub open spec fn follows_main(main_original: Seq<char>, extension_original: Seq<char>) -> bool {
    starts_with(extension_original, main_original) && extension_original.len() > main_original.len()
        && extension_original[main_original.len() as int] == '.'
}

/// Derives the bundle identifier of an app extension: the new main
/// identifier with the extension's own suffix, else a temporary identifier
/// of its own.
pub fn derive_extension_bundle_id(
    main_original_bundle_id: &str,
    main_final_bundle_id: &str,
    extension_original_bundle_id: &str,
    extension_path: &str,
    config: &crate::config::Config,
) -> (r: Result<String, TossError>)
    ensures
        follows_main(main_original_bundle_id@, extension_original_bundle_id@) ==> (r matches Ok(id)
            && id@ == main_final_bundle_id@ + extension_original_bundle_id@.subrange(
                main_original_bundle_id@.len() as int,
                extension_original_bundle_id@.len() as int,
            )),
        !follows_main(main_original_bundle_id@, extension_original_bundle_id@) ==> match config.signing.temp_bundle_prefix {
            None => r matches Err(TossError::Signing(m)) && m@ == missing_prefix_msg(),
            Some(p) => if valid_bundle_prefix(p@) {
                r matches Ok(id) && id@ == temp_bundle_id(p@, extension_path@, extension_original_bundle_id@)
            } else {
                r matches Err(TossError::Signing(m)) && m@ == invalid_prefix_msg(p@)
            },
        },
{
    if str_starts_with(extension_original_bundle_id, main_original_bundle_id) {
        let e = chars_of(extension_original_bundle_id);
        let n = main_original_bundle_id.unicode_len();
        if e.len() > n && e[n] == '.' {
            let rest = substring(e.as_slice(), n, e.len());
            let mut id = main_final_bundle_id.to_string();
            id.append(rest.as_str());
            return Ok(id);
        }
    }
    generate_temp_bundle_id(config, extension_path, extension_original_bundle_id)
}

/// Paths of the profiles made for exactly `bundle_id` that were not there
/// before.
pub open spec fn created_profiles(before: Seq<String>, after: Seq<ProvisioningProfile>, bundle_id: Seq<char>) -> Seq<Seq<char>>
    decreases after.len(),
{
    if after.len() == 0 {
        Seq::empty()
    } else {
        let prev = created_profiles(before, after.drop_last(), bundle_id);
        let p = after.last();
        if p.bundle_id_pattern@ == bundle_id && !(exists|i: int| 0 <= i < before.len() && #[trigger] before[i]@ == p.path@) {
            prev.push(p.path@)
        } else {
            prev
        }
    }
}

fn path_listed(paths: &[String], path: &str) -> (b: bool)
    ensures
        b == exists|i: int| 0 <= i < paths@.len() && #[trigger] paths@[i]@ == path@,
{
    let mut i: usize = 0;
    while i < paths.len()
        invariant
            i <= paths@.len(),
            forall|j: int| 0 <= j < i ==> #[trigger] paths@[j]@ != path@,
        decreases paths@.len() - i,
    {
        if str_eq(paths[i].as_str(), path) {
            return true;
        }
        i = i + 1;
    }
    false
}

/// The profiles that automatic provisioning created for `bundle_id`: those
/// for exactly that identifier whose paths were not listed before.
pub fn profiles_created_for_bundle_id(before_paths: &[String], after_profiles: &[ProvisioningProfile], bundle_id: &str) -> (r: Vec<String>)
    ensures
        string_views(r@) == created_profiles(before_paths@, after_profiles@, bundle_id@),
{
    let mut r: Vec<String> = Vec::new();
    let mut i: usize = 0;
    while i < after_profiles.len()
        invariant
            i <= after_profiles@.len(),
            string_views(r@) == created_profiles(before_paths@, after_profiles@.subrange(0, i as int), bundle_id@),
        decreases after_profiles@.len() - i,
    {
        assert(after_profiles@.subrange(0, i + 1).drop_last() =~= after_profiles@.subrange(0, i as int));
        assert(after_profiles@.subrange(0, i + 1).last() == after_profiles@[i as int]);
        let p = &after_profiles[i];
        if str_eq(p.bundle_id_pattern.as_str(), bundle_id) && !path_listed(before_paths, p.path.as_str()) {
            let ghost before = r@;
            r.push(p.path.clone());
            assert(string_views(r@) =~= string_views(before).push(p.path@));
        }
        i = i + 1;
    }
    assert(after_profiles@.subrange(0, after_profiles@.len() as int) =~= after_profiles@);
    r
}

/// Two profiles with the same contents.
pub open spec fn same_profile(a: ProvisioningProfile, b: ProvisioningProfile) -> bool {
    &&& a.path == b.path
    &&& a.uuid == b.uuid
    &&& a.name == b.name
    &&& a.team_ids@ == b.team_ids@
    &&& a.bundle_id_pattern == b.bundle_id_pattern
    &&& a.expiration_epoch == b.expiration_epoch
    &&& a.provisioned_devices@ == b.provisioned_devices@
    &&& a.provisions_all_devices == b.provisions_all_devices
}

fn clone_strings(v: &Vec<String>) -> (r: Vec<String>)
    ensures
        r@ == v@,
{
    let mut r: Vec<String> = Vec::new();
    let mut i: usize = 0;
    while i < v.len()
        invariant
            i <= v@.len(),
            r@ == v@.subrange(0, i as int),
        decreases v@.len() - i,
    {
        r.push(v[i].clone());
        assert(v@.subrange(0, i + 1) =~= v@.subrange(0, i as int).push(v@[i as int]));
        i = i + 1;
    }
    assert(v@.subrange(0, v@.len() as int) =~= v@);
    r
}

impl ProvisioningProfile {
    /// A copy with the same contents.
    pub fn duplicate(&self) -> (r: Self)
        ensures
            same_profile(r, *self),
    {
        ProvisioningProfile {
            path: self.path.clone(),
            uuid: crate::config::clone_opt(&self.uuid),
            name: self.name.clone(),
            team_ids: clone_strings(&self.team_ids),
            bundle_id_pattern: self.bundle_id_pattern.clone(),
            expiration_epoch: self.expiration_epoch,
            provisioned_devices: clone_strings(&self.provisioned_devices),
            provisions_all_devices: self.provisions_all_devices,
        }
    }
}

/// What kind of bundle is signed.
#[derive(Debug, Clone, Copy, PartialEq, Eq, Structural)]
pub enum BundleKind {
    App,
    AppExtension,
}

/// How a bundle kind is named in messages.
pub open spec fn kind_name(k: BundleKind) -> Seq<char> {
    match k {
        BundleKind::App => "app"@,
        BundleKind::AppExtension => "app extension"@,
    }
}

impl BundleKind {
    /// How the kind is named in messages.
    pub fn display_name(self) -> (r: &'static str)
        ensures
            r@ == kind_name(self),
    {
        match self {
            BundleKind::App => "app",
            BundleKind::AppExtension => "app extension",
        }
    }
}

/// A bundle found in the app: its path, kind and bundle identifier.
#[derive(Debug, Clone)]
pub struct DiscoveredBundle {
    pub path: String,
    pub kind: BundleKind,
    pub bundle_id: String,
}

/// A bundle to sign: where it is, its original and final bundle
/// identifiers, and the profile it is signed with.
#[derive(Debug, Clone)]
pub struct BundleTarget {
    pub path: String,
    pub kind: BundleKind,
    pub original_bundle_id: String,
    pub final_bundle_id: String,
    pub profile: ProvisioningProfile,
}

/// The bundles to sign, main app first, and the temporary profiles to
/// delete afterwards.
#[derive(Debug)]
pub struct SigningPlan {
    pub targets: Vec<BundleTarget>,
    pub cleanup_profiles: Vec<String>,
}

/// Message for an override profile that cannot sign the bundle.
pub open spec fn incompatible_override_msg(path: Seq<char>, kind: BundleKind, bundle_id: Seq<char>, issues: Seq<char>) -> Seq<char> {
    "override profile '"@ + path + "' is incompatible with "@ + kind_name(kind) + " '"@ + bundle_id + "': "@ + issues
}

/// The issues joined by `; `.
pub open spec fn joined_issues(issues: Seq<Seq<char>>) -> Seq<char>
    decreases issues.len(),
{
    if issues.len() == 0 {
        Seq::empty()
    } else if issues.len() == 1 {
        issues[0]
    } else {
        joined_issues(issues.drop_last()) + "; "@ + issues.last()
    }
}

fn join_issues(issues: &[String]) -> (r: String)
    ensures
        r@ == joined_issues(string_views(issues@)),
{
    let mut r = String::new();
    let mut i: usize = 0;
    while i < issues.len()
        invariant
            i <= issues@.len(),
            r@ == joined_issues(string_views(issues@.subrange(0, i as int))),
        decreases issues@.len() - i,
    {
        assert(string_views(issues@.subrange(0, i + 1)).drop_last() =~= string_views(issues@.subrange(0, i as int)));
        if i > 0 {
            r.append("; ");
        } else {
            assert(r@ =~= Seq::<char>::empty());
        }
        r.append(issues[i].as_str());
        i = i + 1;
    }
    assert(issues@.subrange(0, issues@.len() as int) =~= issues@);
    r
}

/// Signs a bundle with the profile given on the command line (read from
/// `override_path`), which must be able to sign it at time `now`; the
/// bundle keeps its identifier.
pub fn override_target(
    profile: ProvisioningProfile,
    override_path: &str,
    bundle: &DiscoveredBundle,
    device_udid: &str,
    now: u64,
) -> (r: Result<BundleTarget, TossError>)
    ensures
        ({
            let issues = compatibility_issues(profile, bundle.bundle_id@, device_udid@, now);
            &&& issues.len() > 0 ==> (r matches Err(TossError::Signing(m)) && m@ == incompatible_override_msg(
                override_path@, bundle.kind, bundle.bundle_id@, joined_issues(issues)))
            &&& issues.len() == 0 ==> (r matches Ok(t) && t.path == bundle.path && t.kind == bundle.kind
                && t.original_bundle_id == bundle.bundle_id && t.final_bundle_id == bundle.bundle_id && t.profile == profile)
        }),
{
    let issues = compatibility_issues_at(&profile, bundle.bundle_id.as_str(), device_udid, now);
    if issues.len() > 0 {
        let mut m = "override profile '".to_string();
        m.append(override_path);
        m.append("' is incompatible with ");
        m.append(bundle.kind.display_name());
        m.append(" '");
        m.append(bundle.bundle_id.as_str());
        m.append("': ");
        let joined = join_issues(issues.as_slice());
        m.append(joined.as_str());
        return Err(TossError::Signing(m));
    }
    Ok(BundleTarget {
        path: bundle.path.clone(),
        kind: bundle.kind,
        original_bundle_id: bundle.bundle_id.clone(),
        final_bundle_id: bundle.bundle_id.clone(),
        profile,
    })
}

/// Keeps the first occurrence of each path.
pub open spec fn first_occurrences(s: Seq<Seq<char>>) -> Seq<Seq<char>>
    decreases s.len(),
{
    if s.len() == 0 {
        s
    } else {
        let prev = first_occurrences(s.drop_last());
        if s.drop_last().contains(s.last()) {
            prev
        } else {
            prev.push(s.last())
        }
    }
}

/// Drops repeated paths, keeping the first occurrence of each.
pub fn dedup_paths(paths: &[String]) -> (r: Vec<String>)
    ensures
        string_views(r@) == first_occurrences(string_views(paths@)),
{
    let mut r: Vec<String> = Vec::new();
    let mut i: usize = 0;
    while i < paths.len()
        invariant
            i <= paths@.len(),
            string_views(r@) == first_occurrences(string_views(paths@.subrange(0, i as int))),
        decreases paths@.len() - i,
    {
        let ghost pre = string_views(paths@.subrange(0, i as int));
        assert(string_views(paths@.subrange(0, i + 1)).drop_last() =~= pre);
        assert(string_views(paths@.subrange(0, i + 1)).last() == paths@[i as int]@);
        let seen = path_listed_before(paths, i);
        if !seen {
            let ghost before = r@;
            r.push(paths[i].clone());
            assert(string_views(r@) =~= string_views(before).push(paths@[i as int]@));
        }
        i = i + 1;
    }
    assert(paths@.subrange(0, paths@.len() as int) =~= paths@);
    r
}

fn path_listed_before(paths: &[String], i: usize) -> (b: bool)
    requires
        i < paths@.len(),
    ensures
        b == string_views(paths@.subrange(0, i as int)).contains(paths@[i as int]@),
{
    let mut j: usize = 0;
    while j < i
        invariant
            j <= i < paths@.len(),
            forall|k: int| 0 <= k < j ==> #[trigger] paths@[k]@ != paths@[i as int]@,
        decreases i - j,
    {
        if str_eq(paths[j].as_str(), paths[i].as_str()) {
            assert(string_views(paths@.subrange(0, i as int))[j as int] == paths@[i as int]@);
            return true;
        }
        j = j + 1;
    }
    proof {
        let v = string_views(paths@.subrange(0, i as int));
        if v.contains(paths@[i as int]@) {
            let k = choose|k: int| 0 <= k < v.len() && v[k] == paths@[i as int]@;
            assert(paths@[k]@ != paths@[i as int]@);
        }
    }
    false
}

/// The identifier a bundle is preferably signed under: its own when a
/// profile fits it; otherwise its temporary identifier (announced to the
/// user) for the main app, or one derived from the main app's final
/// identifier for an extension. Only the positions of `cs` matter here.
pub open spec fn preferred_outcome(own_fits: bool, fallback: Result<Seq<char>, Seq<char>>, own: Seq<char>, r: Result<String, TossError>) -> bool {
    if own_fits {
        r matches Ok(id) && id@ == own
    } else {
        match fallback {
            Ok(f) => r matches Ok(id) ==> id@ == f,
            Err(m) => r matches Err(TossError::Signing(e)) && e@ == m,
        }
    }
}

/// The temporary identifier of a bundle under the configured prefix, or the
/// message of the error that prevents it.
pub open spec fn temp_id_outcome(prefix: Option<String>, bundle_path: Seq<char>, original: Seq<char>) -> Result<Seq<char>, Seq<char>> {
    match prefix {
        None => Err(missing_prefix_msg()),
        Some(p) => if valid_bundle_prefix(p@) {
            Ok(temp_bundle_id(p@, bundle_path, original))
        } else {
            Err(invalid_prefix_msg(p@))
        },
    }
}

/// Picks the identifier the main app is preferably signed under: its own
/// when a profile fits it or a profile was given on the command line, else
/// its temporary identifier.
pub fn preferred_main_bundle_id<A: WorkflowAdapter>(
    config: &crate::config::Config,
    available: &[ProvisioningProfile],
    main: &DiscoveredBundle,
    identity: &SigningIdentity,
    device_udid: &str,
    now: u64,
    has_override: bool,
    adapter: &mut A,
) -> (r: Result<String, TossError>)
    ensures
        ({
            let cs = candidate_profiles(available@, main.bundle_id@, *identity, device_udid@, now);
            &&& cs.len() == 1 || (cs.len() == 0 && has_override) ==> (r matches Ok(id) && id@ == main.bundle_id@)
            &&& cs.len() > 1 ==> (r matches Ok(id) ==> id@ == main.bundle_id@)
            &&& cs.len() == 0 && !has_override ==> preferred_outcome(false,
                temp_id_outcome(config.signing.temp_bundle_prefix, main.path@, main.bundle_id@), main.bundle_id@, r)
            &&& cs.len() == 1 || (cs.len() == 0 && has_override) ==> final(adapter).log() == old(adapter).log()
            &&& cs.len() > 1 ==> {
                &&& asks(old(adapter).log(), final(adapter).log(), profile_prompt(), profile_choices(available@, cs))
                &&& match last_answer(final(adapter).log()) {
                    Ok(Some(_)) => r matches Ok(id) && id@ == main.bundle_id@,
                    Ok(None) => r matches Err(TossError::Signing(m)) && m@ == multiple_profiles_msg(),
                    Err(e) => r == Err::<String, TossError>(e),
                }
            }
            &&& cs.len() == 0 && !has_override ==> match temp_id_outcome(config.signing.temp_bundle_prefix, main.path@, main.bundle_id@) {
                Err(_) => final(adapter).log() == old(adapter).log(),
                Ok(f) => {
                    &&& final(adapter).log().len() == old(adapter).log().len() + 1
                    &&& final(adapter).log().drop_last() == old(adapter).log()
                    &&& final(adapter).log().last() matches Exchange::Shown {
                        event: crate::interaction::WorkflowEvent::TemporaryBundleId { original_bundle_id: o, temporary_bundle_id: t },
                        answer } && o == main.bundle_id && t@ == f && match answer {
                            Ok(()) => r matches Ok(id) && id@ == f,
                            Err(e) => r == Err::<String, TossError>(e),
                        }
                },
            }
        }),
{
    let found = match match_compatible_profile(available, main.bundle_id.as_str(), identity, device_udid, now, adapter) {
        Ok(f) => f,
        Err(e) => return Err(e),
    };
    if found.is_some() || has_override {
        return Ok(main.bundle_id.clone());
    }
    let generated = match generate_temp_bundle_id(config, main.path.as_str(), main.bundle_id.as_str()) {
        Ok(g) => g,
        Err(e) => return Err(e),
    };
    let ghost before = adapter.log();
    let w = adapter.emit(crate::interaction::WorkflowEvent::TemporaryBundleId {
        original_bundle_id: main.bundle_id.clone(),
        temporary_bundle_id: generated.clone(),
    });
    assert(adapter.log().drop_last() =~= before);
    match w {
        Ok(()) => Ok(generated),
        Err(e) => Err(e),
    }
}

/// The identifier an app extension would get: derived from the main app's,
/// or a temporary one of its own, or the message of the error.
pub open spec fn extension_id_outcome(prefix: Option<String>, main_original: Seq<char>, main_final: Seq<char>, ext: DiscoveredBundle) -> Result<Seq<char>, Seq<char>> {
    if follows_main(main_original, ext.bundle_id@) {
        Ok(main_final + ext.bundle_id@.subrange(main_original.len() as int, ext.bundle_id@.len() as int))
    } else {
        temp_id_outcome(prefix, ext.path@, ext.bundle_id@)
    }
}

/// Picks the identifier an app extension is preferably signed under: its
/// own when a profile fits it, else one derived from the main app's.
pub fn preferred_extension_bundle_id<A: WorkflowAdapter>(
    config: &crate::config::Config,
    available: &[ProvisioningProfile],
    main_original_bundle_id: &str,
    main_final_bundle_id: &str,
    extension: &DiscoveredBundle,
    identity: &SigningIdentity,
    device_udid: &str,
    now: u64,
    adapter: &mut A,
) -> (r: Result<String, TossError>)
    ensures
        ({
            let cs = candidate_profiles(available@, extension.bundle_id@, *identity, device_udid@, now);
            &&& cs.len() == 1 ==> (r matches Ok(id) && id@ == extension.bundle_id@)
            &&& cs.len() > 1 ==> (r matches Ok(id) ==> id@ == extension.bundle_id@)
            &&& cs.len() <= 1 ==> final(adapter).log() == old(adapter).log()
            &&& cs.len() > 1 ==> asks(old(adapter).log(), final(adapter).log(), profile_prompt(), profile_choices(available@, cs))
            &&& cs.len() == 0 ==> match extension_id_outcome(config.signing.temp_bundle_prefix, main_original_bundle_id@,
                main_final_bundle_id@, *extension) {
                Ok(f) => r matches Ok(id) && id@ == f,
                Err(m) => r matches Err(TossError::Signing(e)) && e@ == m,
            }
        }),
{
    let found = match match_compatible_profile(available, extension.bundle_id.as_str(), identity, device_udid, now, adapter) {
        Ok(f) => f,
        Err(e) => return Err(e),
    };
    if found.is_some() {
        return Ok(extension.bundle_id.clone());
    }
    derive_extension_bundle_id(main_original_bundle_id, main_final_bundle_id, extension.bundle_id.as_str(),
        extension.path.as_str(), config)
}

/// `t` signs `bundle` under `final_id` with a copy of one of `profiles` at
/// the positions `cs`.
pub open spec fn target_from(t: BundleTarget, bundle: DiscoveredBundle, final_id: Seq<char>, profiles: Seq<ProvisioningProfile>, cs: Seq<int>) -> bool {
    &&& t.path == bundle.path
    &&& t.kind == bundle.kind
    &&& t.original_bundle_id == bundle.bundle_id
    &&& t.final_bundle_id@ == final_id
    &&& exists|k: int| 0 <= k < cs.len() && same_profile(t.profile, profiles[#[trigger] cs[k]])
}

fn make_target(bundle: &DiscoveredBundle, final_id: String, profile: &ProvisioningProfile) -> (t: BundleTarget)
    ensures
        t.path == bundle.path,
        t.kind == bundle.kind,
        t.original_bundle_id == bundle.bundle_id,
        t.final_bundle_id == final_id,
        same_profile(t.profile, *profile),
{
    BundleTarget {
        path: bundle.path.clone(),
        kind: bundle.kind,
        original_bundle_id: bundle.bundle_id.clone(),
        final_bundle_id: final_id,
        profile: profile.duplicate(),
    }
}

/// `t` signs `bundle` under `final_id` with a copy of `profile`.
pub open spec fn target_is(t: BundleTarget, bundle: DiscoveredBundle, final_id: Seq<char>, profile: ProvisioningProfile) -> bool {
    &&& t.path == bundle.path
    &&& t.kind == bundle.kind
    &&& t.original_bundle_id == bundle.bundle_id
    &&& t.final_bundle_id@ == final_id
    &&& same_profile(t.profile, profile)
}

/// `r` is what the user's answer `c` to the choice among the profiles at
/// `cs` gives for a bundle signed under `final_id`.
pub open spec fn target_chosen(r: Result<Option<BundleTarget>, TossError>, c: Result<Option<usize>, TossError>, bundle: DiscoveredBundle,
    final_id: Seq<char>, profiles: Seq<ProvisioningProfile>, cs: Seq<int>) -> bool {
    match c {
        Ok(Some(k)) => r matches Ok(Some(t)) && target_is(t, bundle, final_id, profiles[cs[k as int]]),
        Ok(None) => r matches Err(TossError::Signing(m)) && m@ == multiple_profiles_msg(),
        Err(e) => r == Err::<Option<BundleTarget>, TossError>(e),
    }
}

/// Finds a profile for a bundle among those installed: one that fits its
/// own identifier, else one that fits the preferred identifier; none when
/// neither fits (then a profile must be provisioned). Where several fit the
/// identifier looked at, the user is asked to choose among them.
pub fn target_from_installed<A: WorkflowAdapter>(
    available: &[ProvisioningProfile],
    bundle: &DiscoveredBundle,
    preferred: &str,
    identity: &SigningIdentity,
    device_udid: &str,
    now: u64,
    adapter: &mut A,
) -> (r: Result<Option<BundleTarget>, TossError>)
    ensures
        ({
            let own = candidate_profiles(available@, bundle.bundle_id@, *identity, device_udid@, now);
            let pref = candidate_profiles(available@, preferred@, *identity, device_udid@, now);
            &&& own.len() == 1 ==> (r matches Ok(Some(t)) && target_from(t, *bundle, bundle.bundle_id@, available@, own))
            &&& own.len() == 0 && pref.len() == 0 ==> r == Ok::<Option<BundleTarget>, TossError>(None)
            &&& own.len() == 0 && pref.len() == 1 ==> (r matches Ok(Some(t)) && target_from(t, *bundle, preferred@, available@, pref))
            &&& r matches Ok(Some(t)) ==> target_from(t, *bundle, bundle.bundle_id@, available@, own)
                || target_from(t, *bundle, preferred@, available@, pref)
            &&& r == Ok::<Option<BundleTarget>, TossError>(None) ==> own.len() == 0 && pref.len() == 0
            &&& own.len() == 1 || (own.len() == 0 && pref.len() <= 1) ==> final(adapter).log() == old(adapter).log()
            &&& own.len() > 1 ==> {
                &&& asks(old(adapter).log(), final(adapter).log(), profile_prompt(), profile_choices(available@, own))
                &&& answer_in_range(last_answer(final(adapter).log()), own.len())
                &&& target_chosen(r, last_answer(final(adapter).log()), *bundle, bundle.bundle_id@, available@, own)
            }
            &&& own.len() == 0 && pref.len() > 1 ==> {
                &&& asks(old(adapter).log(), final(adapter).log(), profile_prompt(), profile_choices(available@, pref))
                &&& answer_in_range(last_answer(final(adapter).log()), pref.len())
                &&& target_chosen(r, last_answer(final(adapter).log()), *bundle, preferred@, available@, pref)
            }
        }),
{
    let own = match match_compatible_profile(available, bundle.bundle_id.as_str(), identity, device_udid, now, adapter) {
        Ok(f) => f,
        Err(e) => return Err(e),
    };
    if let Some(i) = own {
        let t = make_target(bundle, bundle.bundle_id.clone(), &available[i]);
        return Ok(Some(t));
    }
    let pref = match match_compatible_profile(available, preferred, identity, device_udid, now, adapter) {
        Ok(f) => f,
        Err(e) => return Err(e),
    };
    match pref {
        Some(i) => {
            let t = make_target(bundle, preferred.to_string(), &available[i]);
            Ok(Some(t))
        },
        None => Ok(None),
    }
}

/// Message when automatic provisioning produced no usable profile.
pub open spec fn nothing_provisioned_msg(kind: BundleKind, bundle_id: Seq<char>) -> Seq<char> {
    "auto-provisioning finished but no compatible profile was found for "@ + kind_name(kind) + " '"@ + bundle_id + "'"@
}

/// After automatic provisioning for `final_id`, signs the bundle with a
/// profile that now fits it, and records the profiles the provisioning
/// created (those not among `before_paths`) for deletion.
pub fn provisioned_target<A: WorkflowAdapter>(
    after: &[ProvisioningProfile],
    before_paths: &[String],
    bundle: &DiscoveredBundle,
    final_id: &str,
    identity: &SigningIdentity,
    device_udid: &str,
    now: u64,
    cleanup: &mut Vec<String>,
    adapter: &mut A,
) -> (r: Result<BundleTarget, TossError>)
    ensures
        ({
            let cs = candidate_profiles(after@, final_id@, *identity, device_udid@, now);
            &&& cs.len() == 0 ==> (r matches Err(TossError::Signing(m)) && m@ == nothing_provisioned_msg(bundle.kind, final_id@))
            &&& cs.len() == 1 ==> r is Ok
            &&& r matches Ok(t) ==> target_from(t, *bundle, final_id@, after@, cs)
            &&& r is Ok ==> string_views(final(cleanup)@) == string_views(old(cleanup)@) + created_profiles(before_paths@, after@, final_id@)
            &&& r is Err ==> final(cleanup)@ == old(cleanup)@
        }),
{
    let found = match match_compatible_profile(after, final_id, identity, device_udid, now, adapter) {
        Ok(f) => f,
        Err(e) => return Err(e),
    };
    let i = match found {
        Some(i) => i,
        None => {
            let mut m = "auto-provisioning finished but no compatible profile was found for ".to_string();
            m.append(bundle.kind.display_name());
            m.append(" '");
            m.append(final_id);
            m.append("'");
            return Err(TossError::Signing(m));
        },
    };
    let created = profiles_created_for_bundle_id(before_paths, after, final_id);
    let mut k: usize = 0;
    let ghost start = cleanup@;
    while k < created.len()
        invariant
            k <= created@.len(),
            string_views(cleanup@) == string_views(start) + string_views(created@.subrange(0, k as int)),
        decreases created@.len() - k,
    {
        let ghost before = cleanup@;
        cleanup.push(created[k].clone());
        assert(string_views(cleanup@) =~= string_views(before).push(created@[k as int]@));
        assert(string_views(created@.subrange(0, k + 1)) =~= string_views(created@.subrange(0, k as int)).push(created@[k as int]@));
        k = k + 1;
    }
    assert(created@.subrange(0, created@.len() as int) =~= created@);
    Ok(make_target(bundle, final_id.to_string(), &after[i]))
}

/// What the planner of a signing waits for.
#[derive(Debug)]
pub enum PlannerWait {
    /// Nothing: the next bundle can be planned.
    Nothing,
    /// The profile given on the command line, for the main app.
    Override,
    /// The profiles installed after provisioning one for `final_id`;
    /// `before_paths` are the profile paths seen before.
    Provisioning { final_id: String, before_paths: Vec<String> },
}

/// What the planner hands back to it.
#[derive(Debug)]
pub enum PlannerEvent {
    /// Start planning.
    Begin,
    /// The profile given on the command line, read from disk.
    OverrideLoaded(ProvisioningProfile),
    /// The profiles installed after automatic provisioning.
    Provisioned(Vec<ProvisioningProfile>),
}

/// What the planner asks for.
#[derive(Debug)]
pub enum PlannerAction {
    /// Read the profile at `path`.
    LoadOverride { path: String },
    /// Provision a profile for `bundle_id` by building a probe app for the
    /// device with the team, then list the installed profiles again.
    AutoProvision { kind: BundleKind, bundle_id: String, team_id: String, device_udid: String },
    /// The plan is complete.
    Finished(SigningPlan),
}

/// Plans which profile and bundle identifier each bundle of an app is
/// signed with, main app first, asking for disk reads and provisioning
/// builds as it goes.
pub struct SigningPlanner {
    discovered: Vec<DiscoveredBundle>,
    available: Vec<ProvisioningProfile>,
    cleanup: Vec<String>,
    targets: Vec<BundleTarget>,
    identity: SigningIdentity,
    device_udid: String,
    override_path: Option<String>,
    now: u64,
    wait: PlannerWait,
}

/// The target signs the discovered bundle (same path, kind and original
/// identifier).
pub open spec fn signs_bundle(t: BundleTarget, b: DiscoveredBundle) -> bool {
    t.path == b.path && t.kind == b.kind && t.original_bundle_id == b.bundle_id
}

/// The target's profile can sign it under its final bundle identifier for
/// the device at time `now`: the identifier fits the profile's pattern, the
/// profile has not expired, and it covers the device.
pub open spec fn target_usable(t: BundleTarget, udid: Seq<char>, now: u64) -> bool {
    compatibility_issues(t.profile, t.final_bundle_id@, udid, now).len() == 0
}

proof fn lemma_fitting_profiles_fit(ps: Seq<ProvisioningProfile>, bundle_id: Seq<char>, id: SigningIdentity, udid: Seq<char>, now: u64, exact: bool)
    ensures
        forall|k: int| 0 <= k < fitting_profiles(ps, bundle_id, id, udid, now, exact).len() ==> {
            let i = #[trigger] fitting_profiles(ps, bundle_id, id, udid, now, exact)[k];
            0 <= i < ps.len() && compatibility_issues(ps[i], bundle_id, udid, now).len() == 0
        },
    decreases ps.len(),
{
    if ps.len() > 0 {
        let d = ps.drop_last();
        lemma_fitting_profiles_fit(d, bundle_id, id, udid, now, exact);
        let prev = fitting_profiles(d, bundle_id, id, udid, now, exact);
        let all = fitting_profiles(ps, bundle_id, id, udid, now, exact);
        assert forall|k: int| 0 <= k < all.len() implies {
            let i = #[trigger] all[k];
            0 <= i < ps.len() && compatibility_issues(ps[i], bundle_id, udid, now).len() == 0
        } by {
            if k < prev.len() {
                assert(all[k] == prev[k]);
                assert(d[prev[k]] == ps[prev[k]]);
            } else {
                assert(all[k] == ps.len() - 1);
            }
        }
    }
}

/// A target made from a candidate profile for its final identifier is usable.
proof fn lemma_candidate_target_usable(t: BundleTarget, bundle: DiscoveredBundle, final_id: Seq<char>, ps: Seq<ProvisioningProfile>,
    id: SigningIdentity, udid: Seq<char>, now: u64)
    requires
        target_from(t, bundle, final_id, ps, candidate_profiles(ps, final_id, id, udid, now)),
    ensures
        target_usable(t, udid, now),
{
    let cs = candidate_profiles(ps, final_id, id, udid, now);
    lemma_fitting_profiles_fit(ps, final_id, id, udid, now, true);
    lemma_fitting_profiles_fit(ps, final_id, id, udid, now, false);
    let k = choose|k: int| 0 <= k < cs.len() && same_profile(t.profile, ps[#[trigger] cs[k]]);
    let p = ps[cs[k]];
    assert(compatibility_issues(p, final_id, udid, now).len() == 0);
    assert(lists_device(t.profile, udid) == lists_device(p, udid));
    assert(compatibility_issues(t.profile, final_id, udid, now) =~= compatibility_issues(p, final_id, udid, now));
}

/// No path occurs twice.
pub open spec fn distinct_paths(s: Seq<Seq<char>>) -> bool {
    forall|i: int, j: int| 0 <= i < j < s.len() ==> s[i] != s[j]
}

/// Keeping first occurrences leaves no path twice.
pub proof fn lemma_first_occurrences_distinct(s: Seq<Seq<char>>)
    ensures
        distinct_paths(first_occurrences(s)),
        forall|x: Seq<char>| first_occurrences(s).contains(x) <==> s.contains(x),
    decreases s.len(),
{
    if s.len() > 0 {
        let d = s.drop_last();
        lemma_first_occurrences_distinct(d);
        let prev = first_occurrences(d);
        assert forall|x: Seq<char>| s.contains(x) <==> (d.contains(x) || x == s.last()) by {
            if s.contains(x) {
                let k = choose|k: int| 0 <= k < s.len() && s[k] == x;
                if k < s.len() - 1 {
                    assert(d[k] == x);
                }
            }
            if d.contains(x) {
                let k = choose|k: int| 0 <= k < d.len() && d[k] == x;
                assert(s[k] == x);
            }
            if x == s.last() {
                assert(s[s.len() - 1] == x);
            }
        }
        if !d.contains(s.last()) {
            let f = prev.push(s.last());
            assert forall|x: Seq<char>| f.contains(x) <==> (prev.contains(x) || x == s.last()) by {
                if f.contains(x) {
                    let k = choose|k: int| 0 <= k < f.len() && f[k] == x;
                    if k < prev.len() {
                        assert(prev[k] == x);
                    }
                }
                if prev.contains(x) {
                    let k = choose|k: int| 0 <= k < prev.len() && prev[k] == x;
                    assert(f[k] == x);
                }
                if x == s.last() {
                    assert(f[f.len() - 1] == x);
                }
            }
            assert(!prev.contains(s.last()));
            assert forall|i: int, j: int| 0 <= i < j < f.len() implies f[i] != f[j] by {
                if j == f.len() - 1 {
                    assert(prev[i] == f[i]);
                    if f[i] == f[j] {
                        assert(prev.contains(s.last()));
                    }
                } else {
                    assert(prev[i] == f[i] && prev[j] == f[j]);
                }
            }
        }
    }
}

impl SigningPlanner {
    /// The planner's state is consistent: each planned target signs the
    /// discovered bundle at its position, and a wait is for the bundle being
    /// planned.
    pub closed spec fn wf(&self) -> bool {
        &&& self.discovered@.len() >= 1
        &&& self.targets@.len() <= self.discovered@.len()
        &&& forall|k: int| 0 <= k < self.targets@.len() ==> signs_bundle(#[trigger] self.targets@[k], self.discovered@[k])
        &&& !(self.wait is Nothing) ==> self.targets@.len() < self.discovered@.len()
        &&& self.wait is Override ==> self.targets@.len() == 0 && self.override_path is Some
        &&& forall|k: int| 0 <= k < self.targets@.len() ==> target_usable(#[trigger] self.targets@[k], self.device_udid@, self.now)
    }

    /// The device signed for.
    pub closed spec fn device_udid_spec(&self) -> Seq<char> {
        self.device_udid@
    }

    /// The time expiry is judged by.
    pub closed spec fn now_spec(&self) -> u64 {
        self.now
    }

    /// The bundles planned so far, in order.
    pub closed spec fn planned_spec(&self) -> Seq<BundleTarget> {
        self.targets@
    }

    /// The installed profiles the planner chooses from.
    pub closed spec fn available_spec(&self) -> Seq<ProvisioningProfile> {
        self.available@
    }

    /// The identity the bundles are signed with.
    pub closed spec fn identity_spec(&self) -> SigningIdentity {
        self.identity
    }

    /// The temporary profiles recorded for deletion so far: those each
    /// provisioning created, in order.
    pub closed spec fn cleanup_spec(&self) -> Seq<Seq<char>> {
        string_views(self.cleanup@)
    }

    /// The temporary profiles recorded once `event` is handled: those
    /// recorded so far and, after provisioning, those it created.
    pub open spec fn cleanup_after(&self, event: PlannerEvent) -> Seq<Seq<char>> {
        match event {
            PlannerEvent::Provisioned(after) => match self.provisioning_spec() {
                Some(w) => self.cleanup_spec() + created_profiles(w.1, after@, w.0),
                None => self.cleanup_spec(),
            },
            _ => self.cleanup_spec(),
        }
    }

    /// While the planner waits for provisioning: the identifier provisioned
    /// for and the paths of the profiles installed before.
    pub closed spec fn provisioning_spec(&self) -> Option<(Seq<char>, Seq<String>)> {
        match self.wait {
            PlannerWait::Provisioning { final_id, before_paths } => Some((final_id@, before_paths@)),
            _ => None,
        }
    }

    /// The profile named on the command line, if any.
    pub closed spec fn override_spec(&self) -> Option<Seq<char>> {
        match self.override_path {
            Some(p) => Some(p@),
            None => None,
        }
    }

    /// Each bundle has exactly one installed profile that fits its own
    /// identifier, and no profile is named on the command line.
    pub open spec fn each_bundle_fits_one(&self) -> bool {
        &&& self.override_spec() is None
        &&& forall|k: int| 0 <= k < self.bundles().len() ==> (#[trigger] candidate_profiles(self.available_spec(),
            self.bundles()[k].bundle_id@, self.identity_spec(), self.device_udid_spec(), self.now_spec())).len() == 1
    }

    /// The bundles to plan, main app first.
    pub closed spec fn bundles(&self) -> Seq<DiscoveredBundle> {
        self.discovered@
    }

    /// The planner waits for nothing and has planned nothing yet.
    pub closed spec fn fresh(&self) -> bool {
        self.wait is Nothing && self.targets@.len() == 0
    }

    /// The planner waits for the profile given on the command line.
    pub closed spec fn awaits_override(&self) -> bool {
        self.wait is Override
    }

    /// The planner waits for the profiles installed after provisioning.
    pub closed spec fn awaits_provisioning(&self) -> bool {
        self.wait is Provisioning
    }

    /// A planner for the bundles found in an app (main app first), given the
    /// installed profiles, the identity, the device, the profile named on the
    /// command line (main app only) and the time to judge expiry by.
    pub fn new(
        discovered: Vec<DiscoveredBundle>,
        available: Vec<ProvisioningProfile>,
        identity: SigningIdentity,
        device_udid: String,
        override_path: Option<String>,
        now: u64,
    ) -> (r: Result<Self, TossError>)
        ensures
            discovered@.len() == 0 ==> (r matches Err(TossError::Signing(m)) && m@ == "no app bundle discovered after extraction"@),
            discovered@.len() > 0 ==> (r matches Ok(p) && p.wf() && p.fresh() && p.bundles() == discovered@
                && p.device_udid_spec() == device_udid@ && p.now_spec() == now
                && p.cleanup_spec() == Seq::<Seq<char>>::empty()),
    {
        if discovered.len() == 0 {
            return Err(TossError::Signing("no app bundle discovered after extraction".to_string()));
        }
        Ok(SigningPlanner {
            discovered,
            available,
            cleanup: Vec::new(),
            targets: Vec::new(),
            identity,
            device_udid,
            override_path,
            now,
            wait: PlannerWait::Nothing,
        })
    }

    /// Plans bundles until a disk read or a provisioning build is needed, or
    /// all are planned. `event` answers the planner's last action (`Begin`
    /// at first).
    pub fn advance<A: WorkflowAdapter>(&mut self, config: &crate::config::Config, event: PlannerEvent, adapter: &mut A) -> (r: Result<PlannerAction, TossError>)
        requires
            old(self).wf(),
            event is Begin ==> old(self).fresh(),
            event is OverrideLoaded ==> old(self).awaits_override(),
            event is Provisioned ==> old(self).awaits_provisioning(),
        ensures
            final(self).wf(),
            final(self).bundles() == old(self).bundles(),
            final(self).device_udid_spec() == old(self).device_udid_spec(),
            final(self).now_spec() == old(self).now_spec(),
            r matches Ok(PlannerAction::LoadOverride { .. }) ==> final(self).awaits_override(),
            r matches Ok(PlannerAction::AutoProvision { .. }) ==> final(self).awaits_provisioning(),
            r matches Ok(PlannerAction::Finished(plan)) ==> {
                &&& plan.targets@.len() == old(self).bundles().len()
                &&& forall|k: int| 0 <= k < plan.targets@.len() ==> signs_bundle(#[trigger] plan.targets@[k], old(self).bundles()[k])
                &&& distinct_paths(string_views(plan.cleanup_profiles@))
                &&& string_views(plan.cleanup_profiles@) == first_occurrences(final(self).cleanup_spec())
                &&& forall|k: int| 0 <= k < plan.targets@.len() ==> target_usable(#[trigger] plan.targets@[k],
                    old(self).device_udid_spec(), old(self).now_spec())
            },
            r matches Ok(PlannerAction::AutoProvision { kind, bundle_id, team_id, device_udid }) ==> {
                let k = final(self).planned_spec().len();
                let b = old(self).bundles()[k as int];
                &&& k < old(self).bundles().len()
                &&& kind == b.kind
                &&& device_udid@ == old(self).device_udid_spec()
                &&& (config.signing.team_id matches Some(t) && t@ == team_id@)
                &&& if k == 0 {
                    temp_id_outcome(config.signing.temp_bundle_prefix, b.path@, b.bundle_id@) == Ok::<Seq<char>, Seq<char>>(bundle_id@)
                } else {
                    extension_id_outcome(config.signing.temp_bundle_prefix, old(self).bundles()[0].bundle_id@,
                        final(self).planned_spec()[0].final_bundle_id@, b) == Ok::<Seq<char>, Seq<char>>(bundle_id@)
                }
            },
            event is Begin && old(self).each_bundle_fits_one() ==> (r matches Ok(PlannerAction::Finished(plan))
                && forall|k: int| 0 <= k < plan.targets@.len() ==> (#[trigger] plan.targets@[k]).final_bundle_id@
                    == old(self).bundles()[k].bundle_id@),
            event is Begin && old(self).each_bundle_fits_one() ==> final(adapter).log() == old(adapter).log(),
            r is Ok ==> final(self).cleanup_spec() == old(self).cleanup_after(event),
            r matches Ok(PlannerAction::AutoProvision { bundle_id, .. }) ==> (final(self).provisioning_spec() matches Some(w)
                && w.0 == bundle_id@ && string_views(w.1) == final(self).available_spec().map_values(|p: ProvisioningProfile| p.path@)),
            r matches Ok(PlannerAction::AutoProvision { kind, bundle_id, device_udid, .. }) ==> told_auto_provisioning(
                final(adapter).log(), kind, bundle_id, device_udid),
            event matches PlannerEvent::OverrideLoaded(p) ==> {
                let b = old(self).bundles()[0];
                let issues = compatibility_issues(p, b.bundle_id@, old(self).device_udid_spec(), old(self).now_spec());
                &&& issues.len() > 0 ==> (r matches Err(TossError::Signing(m)) && m@ == incompatible_override_msg(
                    old(self).override_spec()->0, b.kind, b.bundle_id@, joined_issues(issues)))
                &&& issues.len() == 0 ==> (r is Ok ==> (r matches Ok(PlannerAction::Finished(plan))
                    ==> plan.targets@[0].final_bundle_id@ == b.bundle_id@ && same_profile(plan.targets@[0].profile, p)))
            },
    {
        let ghost single = event is Begin && self.each_bundle_fits_one();
        let ghost ev = event;
        let ghost expected = self.cleanup_after(ev);
        match event {
            PlannerEvent::Begin => {},
            PlannerEvent::OverrideLoaded(profile) => {
                let path = match &self.override_path {
                    Some(p) => p.clone(),
                    None => String::new(),
                };
                let t = match override_target(profile, path.as_str(), &self.discovered[0], self.device_udid.as_str(), self.now) {
                    Ok(t) => t,
                    Err(e) => {
                        self.wait = PlannerWait::Nothing;
                        return Err(e);
                    },
                };
                self.targets.push(t);
                self.wait = PlannerWait::Nothing;
            },
            PlannerEvent::Provisioned(after) => {
                let mut wait = PlannerWait::Nothing;
                std::mem::swap(&mut wait, &mut self.wait);
                let (final_id, before_paths) = match wait {
                    PlannerWait::Provisioning { final_id, before_paths } => (final_id, before_paths),
                    _ => (String::new(), Vec::new()),
                };
                self.available = after;
                let idx = self.targets.len();
                let t = match provisioned_target(self.available.as_slice(), before_paths.as_slice(), &self.discovered[idx],
                    final_id.as_str(), &self.identity, self.device_udid.as_str(), self.now, &mut self.cleanup, adapter) {
                    Ok(t) => t,
                    Err(e) => return Err(e),
                };
                proof {
                    lemma_candidate_target_usable(t, self.discovered@[idx as int], final_id@, self.available@, self.identity,
                        self.device_udid@, self.now);
                }
                self.targets.push(t);
            },
        }
        let ghost cleanup0 = self.cleanup@;
        assert(string_views(cleanup0) == expected);
        while self.targets.len() < self.discovered.len()
            invariant
                self.wf(),
                self.wait is Nothing,
                self.discovered@ == old(self).discovered@,
                self.device_udid == old(self).device_udid,
                self.now == old(self).now,
                self.identity == old(self).identity,
                self.override_path == old(self).override_path,
                single ==> self.available@ == old(self).available@ && old(self).each_bundle_fits_one(),
                single ==> adapter.log() == old(adapter).log(),
                self.cleanup@ == cleanup0,
                string_views(cleanup0) == expected,
                expected == old(self).cleanup_after(ev),
                single ==> forall|k: int| 0 <= k < self.targets@.len() ==> (#[trigger] self.targets@[k]).final_bundle_id@
                    == self.discovered@[k].bundle_id@,
                ev is OverrideLoaded ==> self.targets@.len() > 0,
                ev == event,
                single == (ev is Begin && old(self).each_bundle_fits_one()),
                ev matches PlannerEvent::OverrideLoaded(p) ==> compatibility_issues(p, self.discovered@[0].bundle_id@,
                    self.device_udid@, self.now).len() == 0,
                ev matches PlannerEvent::OverrideLoaded(p) ==> (self.targets@.len() > 0 ==> self.targets@[0].final_bundle_id@
                    == self.discovered@[0].bundle_id@ && same_profile(self.targets@[0].profile, p)),
            decreases self.discovered@.len() - self.targets@.len(),
        {
            let idx = self.targets.len();
            proof {
                if single {
                    assert(candidate_profiles(old(self).available_spec(), old(self).bundles()[idx as int].bundle_id@,
                        old(self).identity_spec(), old(self).device_udid_spec(), old(self).now_spec()).len() == 1);
                    assert(candidate_profiles(self.available@, self.discovered@[idx as int].bundle_id@,
                        self.identity, self.device_udid@, self.now).len() == 1);
                    assert(self.override_path is None);
                }
            }
            let preferred = if idx == 0 {
                match preferred_main_bundle_id(config, self.available.as_slice(), &self.discovered[0], &self.identity,
                    self.device_udid.as_str(), self.now, self.override_path.is_some(), adapter) {
                    Ok(p) => p,
                    Err(e) => return Err(e),
                }
            } else {
                match preferred_extension_bundle_id(config, self.available.as_slice(), self.discovered[0].bundle_id.as_str(),
                    self.targets[0].final_bundle_id.as_str(), &self.discovered[idx], &self.identity,
                    self.device_udid.as_str(), self.now, adapter) {
                    Ok(p) => p,
                    Err(e) => return Err(e),
                }
            };
            if idx == 0 {
                if let Some(path) = &self.override_path {
                    let path = path.clone();
                    self.wait = PlannerWait::Override;
                    return Ok(PlannerAction::LoadOverride { path });
                }
            }
            let found = match target_from_installed(self.available.as_slice(), &self.discovered[idx], preferred.as_str(),
                &self.identity, self.device_udid.as_str(), self.now, adapter) {
                Ok(f) => f,
                Err(e) => return Err(e),
            };
            match found {
                Some(t) => {
                    proof {
                        let b = self.discovered@[idx as int];
                        if target_from(t, b, b.bundle_id@, self.available@,
                            candidate_profiles(self.available@, b.bundle_id@, self.identity, self.device_udid@, self.now)) {
                            lemma_candidate_target_usable(t, b, b.bundle_id@, self.available@, self.identity, self.device_udid@, self.now);
                        } else {
                            lemma_candidate_target_usable(t, b, preferred@, self.available@, self.identity, self.device_udid@, self.now);
                        }
                    }
                    self.targets.push(t);
                },
                None => {
                    let team_id = match temp_team_id(config) {
                        Ok(t) => t,
                        Err(e) => return Err(e),
                    };
                    let before_paths = profile_paths(self.available.as_slice());
                    let kind = self.discovered[idx].kind;
                    if let Err(e) = adapter.emit(crate::interaction::WorkflowEvent::AutoProvisioning {
                        kind: kind.display_name().to_string(),
                        bundle_id: preferred.clone(),
                        device_udid: self.device_udid.clone(),
                    }) {
                        return Err(e);
                    }
                    self.wait = PlannerWait::Provisioning { final_id: preferred.clone(), before_paths };
                    return Ok(PlannerAction::AutoProvision {
                        kind,
                        bundle_id: preferred,
                        team_id,
                        device_udid: self.device_udid.clone(),
                    });
                },
            }
        }
        let cleanup = dedup_paths(self.cleanup.as_slice());
        proof {
            lemma_first_occurrences_distinct(string_views(self.cleanup@));
        }
        let mut targets: Vec<BundleTarget> = Vec::new();
        std::mem::swap(&mut targets, &mut self.targets);
        Ok(PlannerAction::Finished(SigningPlan { targets, cleanup_profiles: cleanup }))
    }
}

/// The paths of profiles, in order.
fn profile_paths(profiles: &[ProvisioningProfile]) -> (r: Vec<String>)
    ensures
        string_views(r@) == profiles@.map_values(|p: ProvisioningProfile| p.path@),
{
    let mut r: Vec<String> = Vec::new();
    let mut k: usize = 0;
    while k < profiles.len()
        invariant
            k <= profiles@.len(),
            r@.len() == k,
            forall|j: int| 0 <= j < k ==> #[trigger] r@[j]@ == profiles@[j].path@,
        decreases profiles@.len() - k,
    {
        r.push(profiles[k].path.clone());
        k = k + 1;
    }
    assert(string_views(r@) =~= profiles@.map_values(|p: ProvisioningProfile| p.path@));
    r
}

/// The last exchange of the log shows, and the front end took, that a
/// profile is being provisioned for the `kind` bundle `bundle_id` on the
/// device `device_udid`.
pub open spec fn told_auto_provisioning(log: Seq<Exchange>, kind: BundleKind, bundle_id: String, device_udid: String) -> bool {
    &&& log.len() > 0
    &&& log.last() matches Exchange::Shown {
        event: crate::interaction::WorkflowEvent::AutoProvisioning { kind: k, bundle_id: b, device_udid: u }, answer: Ok(()) }
        && k@ == kind_name(kind) && b == bundle_id && u == device_udid
}

/// The Xcode project of the probe app built to provision a profile; the
/// bundle identifier and team are filled in for `__BUNDLE_ID__` and
/// `__TEAM_ID__`.
pub const PROJECT_PBXPROJ_TEMPLATE: &'static str = r#"// !$*UTF8*$!
{
	archiveVersion = 1;
	classes = {
	};
	objectVersion = 56;
	objects = {

/* Begin PBXBuildFile section */
		AA000001 /* App.swift in Sources */ = {isa = PBXBuildFile; fileRef = AA000002 /* App.swift */; };
/* End PBXBuildFile section */

/* Begin PBXFileReference section */
		AA000002 /* App.swift */ = {isa = PBXFileReference; lastKnownFileType = sourcecode.swift; path = App.swift; sourceTree = "<group>"; };
		AA000016 /* Info.plist */ = {isa = PBXFileReference; lastKnownFileType = text.plist.xml; path = Info.plist; sourceTree = "<group>"; };
		AA000003 /* App.app */ = {isa = PBXFileReference; explicitFileType = wrapper.application; includeInIndex = 0; path = App.app; sourceTree = BUILT_PRODUCTS_DIR; };
/* End PBXFileReference section */

/* Begin PBXFrameworksBuildPhase section */
		AA000004 /* Frameworks */ = {
			isa = PBXFrameworksBuildPhase;
			buildActionMask = 2147483647;
			files = (
			);
			runOnlyForDeploymentPostprocessing = 0;
		};
/* End PBXFrameworksBuildPhase section */

/* Begin PBXGroup section */
		AA000005 = {
			isa = PBXGroup;
			children = (
				AA000002 /* App.swift */,
				AA000016 /* Info.plist */,
				AA000006 /* Products */,
			);
			sourceTree = "<group>";
		};
		AA000006 /* Products */ = {
			isa = PBXGroup;
			children = (
				AA000003 /* App.app */,
			);
			name = Products;
			sourceTree = "<group>";
		};
/* End PBXGroup section */

/* Begin PBXNativeTarget section */
		AA000007 /* App */ = {
			isa = PBXNativeTarget;
			buildConfigurationList = AA000008 /* Build configuration list for PBXNativeTarget "App" */;
			buildPhases = (
				AA000009 /* Sources */,
				AA000004 /* Frameworks */,
			);
			buildRules = (
			);
			dependencies = (
			);
			name = App;
			productName = App;
			productReference = AA000003 /* App.app */;
			productType = "com.apple.product-type.application";
		};
/* End PBXNativeTarget section */

/* Begin PBXProject section */
		AA000010 /* Project object */ = {
			isa = PBXProject;
			attributes = {
				BuildIndependentTargetsInParallel = 1;
				LastUpgradeCheck = 1540;
				LastSwiftUpdateCheck = 1540;
				TargetAttributes = {
					AA000007 = {
						CreatedOnToolsVersion = 15.0;
					};
				};
			};
			buildConfigurationList = AA000011 /* Build configuration list for PBXProject "App" */;
			compatibilityVersion = "Xcode 14.0";
			developmentRegion = en;
			hasScannedForEncodings = 0;
			knownRegions = (
				en,
				Base,
			);
			mainGroup = AA000005;
			productRefGroup = AA000006 /* Products */;
			projectDirPath = "";
			projectRoot = "";
			targets = (
				AA000007 /* App */,
			);
		};
/* End PBXProject section */

/* Begin PBXSourcesBuildPhase section */
		AA000009 /* Sources */ = {
			isa = PBXSourcesBuildPhase;
			buildActionMask = 2147483647;
			files = (
				AA000001 /* main.swift in Sources */,
			);
			runOnlyForDeploymentPostprocessing = 0;
		};
/* End PBXSourcesBuildPhase section */

/* Begin XCBuildConfiguration section */
		AA000012 /* Debug */ = {
			isa = XCBuildConfiguration;
			buildSettings = {
				ALWAYS_SEARCH_USER_PATHS = NO;
				CODE_SIGN_STYLE = Automatic;
				CURRENT_PROJECT_VERSION = 1;
				DEVELOPMENT_TEAM = __TEAM_ID__;
				GENERATE_INFOPLIST_FILE = NO;
				INFOPLIST_FILE = Info.plist;
				IPHONEOS_DEPLOYMENT_TARGET = 16.0;
				LD_RUNPATH_SEARCH_PATHS = "@executable_path/Frameworks";
				MARKETING_VERSION = 1.0;
				PRODUCT_BUNDLE_IDENTIFIER = __BUNDLE_ID__;
				PRODUCT_NAME = "$(TARGET_NAME)";
				SDKROOT = iphoneos;
				SUPPORTED_PLATFORMS = iphoneos;
				SWIFT_VERSION = 5.0;
				TARGETED_DEVICE_FAMILY = "1,2";
			};
			name = Debug;
		};
		AA000013 /* Release */ = {
			isa = XCBuildConfiguration;
			buildSettings = {
				ALWAYS_SEARCH_USER_PATHS = NO;
				CODE_SIGN_STYLE = Automatic;
				CURRENT_PROJECT_VERSION = 1;
				DEVELOPMENT_TEAM = __TEAM_ID__;
				GENERATE_INFOPLIST_FILE = NO;
				INFOPLIST_FILE = Info.plist;
				IPHONEOS_DEPLOYMENT_TARGET = 16.0;
				LD_RUNPATH_SEARCH_PATHS = "@executable_path/Frameworks";
				MARKETING_VERSION = 1.0;
				PRODUCT_BUNDLE_IDENTIFIER = __BUNDLE_ID__;
				PRODUCT_NAME = "$(TARGET_NAME)";
				SDKROOT = iphoneos;
				SUPPORTED_PLATFORMS = iphoneos;
				SWIFT_VERSION = 5.0;
				TARGETED_DEVICE_FAMILY = "1,2";
			};
			name = Release;
		};
		AA000014 /* Debug */ = {
			isa = XCBuildConfiguration;
			buildSettings = {
				IPHONEOS_DEPLOYMENT_TARGET = 16.0;
				SDKROOT = iphoneos;
			};
			name = Debug;
		};
		AA000015 /* Release */ = {
			isa = XCBuildConfiguration;
			buildSettings = {
				IPHONEOS_DEPLOYMENT_TARGET = 16.0;
				SDKROOT = iphoneos;
			};
			name = Release;
		};
/* End XCBuildConfiguration section */

/* Begin XCConfigurationList section */
		AA000008 /* Build configuration list for PBXNativeTarget "App" */ = {
			isa = XCConfigurationList;
			buildConfigurations = (
				AA000012 /* Debug */,
				AA000013 /* Release */,
			);
			defaultConfigurationIsVisible = 0;
			defaultConfigurationName = Release;
		};
		AA000011 /* Build configuration list for PBXProject "App" */ = {
			isa = XCConfigurationList;
			buildConfigurations = (
				AA000014 /* Debug */,
				AA000015 /* Release */,
			);
			defaultConfigurationIsVisible = 0;
			defaultConfigurationName = Release;
		};
/* End XCConfigurationList section */

	};
	rootObject = AA000010 /* Project object */;
}
"#;

/// The probe app's project file for a bundle identifier and team.
pub open spec fn probe_project(bundle_id: Seq<char>, team_id: Seq<char>) -> Seq<char> {
    crate::text::replaced(
        crate::text::replaced(PROJECT_PBXPROJ_TEMPLATE@, "__BUNDLE_ID__"@, bundle_id),
        "__TEAM_ID__"@,
        team_id,
    )
}

/// Fills in the probe app's project file.
pub fn probe_project_file(bundle_id: &str, team_id: &str) -> (r: String)
    ensures
        r@ == probe_project(bundle_id@, team_id@),
{
    proof {
        reveal_strlit("__BUNDLE_ID__");
        reveal_strlit("__TEAM_ID__");
    }
    let with_bundle = crate::text::replace_all(PROJECT_PBXPROJ_TEMPLATE, "__BUNDLE_ID__", bundle_id);
    crate::text::replace_all(with_bundle.as_str(), "__TEAM_ID__", team_id)
}

/// The property list in the output of `codesign -d --entitlements :-`:
/// from the first `<?xml` (else the first `<plist`) to the end of the last
/// `</plist>`, when that comes after it.
pub open spec fn entitlements_in_output(out: Seq<char>) -> Option<Seq<char>> {
    let start = match crate::text::first_at(out, "<?xml"@, 0) {
        Some(a) => Some(a),
        None => crate::text::first_at(out, "<plist"@, 0),
    };
    let end = crate::text::last_at(out, "</plist>"@, out.len() as int);
    if start is Some && end is Some && start->0 < end->0 {
        Some(out.subrange(start->0, end->0 + 8))
    } else {
        None
    }
}

/// Cuts the entitlements property list out of `codesign` output.
pub fn entitlements_from_output(out: &str) -> (r: Option<String>)
    ensures
        match entitlements_in_output(out@) {
            Some(p) => r matches Some(s) && s@ == p,
            None => r is None,
        },
{
    proof {
        reveal_strlit("</plist>");
    }
    let c = chars_of(out);
    let xml = chars_of("<?xml");
    let plist = chars_of("<plist");
    let close = chars_of("</plist>");
    let start = match crate::text::find_chars(c.as_slice(), xml.as_slice()) {
        Some(a) => Some(a),
        None => crate::text::find_chars(c.as_slice(), plist.as_slice()),
    };
    let end = crate::text::rfind_chars(c.as_slice(), close.as_slice());
    match (start, end) {
        (Some(a), Some(b)) => {
            if a < b {
                assert(close@.len() == 8 && c@.len() == c.len());
                Some(substring(c.as_slice(), a, b + 8))
            } else {
                None
            }
        },
        _ => None,
    }
}

/// The final bundle identifier of the main app: that of the target at the
/// app's path.
pub open spec fn main_final_id(targets: Seq<BundleTarget>, app_path: Seq<char>) -> Option<Seq<char>> {
    if exists|i: int| 0 <= i < targets.len() && #[trigger] targets[i].path@ == app_path {
        let i = choose|i: int| 0 <= i < targets.len() && #[trigger] targets[i].path@ == app_path
            && forall|j: int| 0 <= j < i ==> #[trigger] targets[j].path@ != app_path;
        Some(targets[i].final_bundle_id@)
    } else {
        None
    }
}

/// Message when the plan has no target for the main app.
pub open spec fn missing_main_target_msg() -> Seq<char> {
    "main app target missing from signing plan"@
}

/// Finds the final bundle identifier of the main app in a plan: that of
/// the first target at the app's path.
pub fn main_bundle_id(plan: &SigningPlan, app_path: &str) -> (r: Result<String, TossError>)
    ensures
        r matches Ok(id) ==> exists|i: int| 0 <= i < plan.targets@.len() && #[trigger] plan.targets@[i].path@ == app_path@
            && id@ == plan.targets@[i].final_bundle_id@ && forall|j: int| 0 <= j < i ==> #[trigger] plan.targets@[j].path@ != app_path@,
        r is Err ==> (r matches Err(TossError::Signing(m)) && m@ == missing_main_target_msg()
            && forall|i: int| 0 <= i < plan.targets@.len() ==> #[trigger] plan.targets@[i].path@ != app_path@),
{
    let mut i: usize = 0;
    while i < plan.targets.len()
        invariant
            i <= plan.targets@.len(),
            forall|j: int| 0 <= j < i ==> #[trigger] plan.targets@[j].path@ != app_path@,
        decreases plan.targets@.len() - i,
    {
        if str_eq(plan.targets[i].path.as_str(), app_path) {
            return Ok(plan.targets[i].final_bundle_id.clone());
        }
        i = i + 1;
    }
    Err(TossError::Signing("main app target missing from signing plan".to_string()))
}

/// Positions of the app extensions among the targets whose paths have
/// `depth` components, in plan order.
pub open spec fn extensions_at_depth(ts: Seq<BundleTarget>, depth: nat) -> Seq<int>
    decreases ts.len(),
{
    if ts.len() == 0 {
        Seq::empty()
    } else {
        let prev = extensions_at_depth(ts.drop_last(), depth);
        if ts.last().kind == BundleKind::AppExtension && crate::paths::path_depth(ts.last().path@) == depth {
            prev.push(ts.len() - 1)
        } else {
            prev
        }
    }
}

/// Positions of the app extensions whose paths have fewer than `depth`
/// components: shallower ones first, plan order within a depth.
pub open spec fn extensions_by_depth(ts: Seq<BundleTarget>, depth: nat) -> Seq<int>
    decreases depth,
{
    if depth == 0 {
        Seq::empty()
    } else {
        extensions_by_depth(ts, (depth - 1) as nat) + extensions_at_depth(ts, (depth - 1) as nat)
    }
}

/// No path of the targets has `depth` components or more.
pub open spec fn depth_bound(ts: Seq<BundleTarget>, depth: nat) -> bool {
    forall|i: int| 0 <= i < ts.len() ==> crate::paths::path_depth(#[trigger] ts[i].path@) < depth
}

fn extensions_with_depth(targets: &[BundleTarget], depths: &[usize], depth: usize) -> (r: Vec<usize>)
    requires
        depths@.len() == targets@.len(),
        forall|i: int| 0 <= i < depths@.len() ==> #[trigger] depths@[i] == crate::paths::path_depth(targets@[i].path@),
    ensures
        position_views(r@) == extensions_at_depth(targets@, depth as nat),
{
    let mut r: Vec<usize> = Vec::new();
    let mut i: usize = 0;
    while i < targets.len()
        invariant
            i <= targets@.len(),
            depths@.len() == targets@.len(),
            forall|j: int| 0 <= j < depths@.len() ==> #[trigger] depths@[j] == crate::paths::path_depth(targets@[j].path@),
            position_views(r@) == extensions_at_depth(targets@.subrange(0, i as int), depth as nat),
        decreases targets@.len() - i,
    {
        assert(targets@.subrange(0, i + 1).drop_last() =~= targets@.subrange(0, i as int));
        assert(targets@.subrange(0, i + 1).last() == targets@[i as int]);
        let is_ext = match targets[i].kind {
            BundleKind::AppExtension => true,
            BundleKind::App => false,
        };
        if is_ext && depths[i] == depth {
            let ghost before = r@;
            r.push(i);
            assert(position_views(r@) =~= position_views(before).push(i as int));
        }
        i = i + 1;
    }
    assert(targets@.subrange(0, targets@.len() as int) =~= targets@);
    r
}

/// The order app extensions are signed in: shallower paths first, plan
/// order among paths of the same depth (the main app is signed last).
pub fn extension_signing_order(targets: &[BundleTarget]) -> (r: Vec<usize>)
    ensures
        exists|d: nat| depth_bound(targets@, d) && position_views(r@) == #[trigger] extensions_by_depth(targets@, d),
{
    let mut depths: Vec<usize> = Vec::new();
    let mut max: usize = 0;
    let mut i: usize = 0;
    while i < targets.len()
        invariant
            i <= targets@.len(),
            depths@.len() == i,
            forall|j: int| 0 <= j < i ==> #[trigger] depths@[j] == crate::paths::path_depth(targets@[j].path@),
            forall|j: int| 0 <= j < i ==> #[trigger] depths@[j] <= max,
        decreases targets@.len() - i,
    {
        let d = crate::paths::component_count(targets[i].path.as_str());
        depths.push(d);
        if d > max {
            max = d;
        }
        i = i + 1;
    }
    let mut r: Vec<usize> = Vec::new();
    let mut depth: usize = 0;
    while depth <= max
        invariant
            depths@.len() == targets@.len(),
            forall|j: int| 0 <= j < depths@.len() ==> #[trigger] depths@[j] == crate::paths::path_depth(targets@[j].path@),
            forall|j: int| 0 <= j < depths@.len() ==> #[trigger] depths@[j] <= max,
            depth <= max,
            position_views(r@) == extensions_by_depth(targets@, depth as nat),
        decreases max + 1 - depth,
    {
        let layer = extensions_with_depth(targets, depths.as_slice(), depth);
        let mut k: usize = 0;
        let ghost start = r@;
        while k < layer.len()
            invariant
                k <= layer@.len(),
                position_views(r@) == position_views(start) + position_views(layer@.subrange(0, k as int)),
            decreases layer@.len() - k,
        {
            let ghost before = r@;
            r.push(layer[k]);
            assert(position_views(r@) =~= position_views(before).push(layer@[k as int] as int));
            assert(position_views(layer@.subrange(0, k + 1)) =~= position_views(layer@.subrange(0, k as int)).push(layer@[k as int] as int));
            k = k + 1;
        }
        assert(layer@.subrange(0, layer@.len() as int) =~= layer@);
        assert(position_views(r@) =~= extensions_by_depth(targets@, (depth + 1) as nat));
        if depth == max {
            proof {
                assert(depth_bound(targets@, (depth + 1) as nat)) by {
                    assert forall|j: int| 0 <= j < targets@.len() implies crate::paths::path_depth(#[trigger] targets@[j].path@) < depth + 1 by {
                        assert(depths@[j] <= max);
                    }
                }
                assert(depth_bound(targets@, (depth + 1) as nat) && position_views(r@) == extensions_by_depth(targets@, (depth + 1) as nat));
            }
            return r;
        }
        depth = depth + 1;
    }
    r
}

/// One step of signing the bundles of a plan; each names a target by its
/// position in the plan.
#[derive(Debug, Clone, Copy, PartialEq, Eq, Structural)]
pub enum SigningStep {
    /// Give the bundle its final identifier (reported once done).
    RewriteBundleId(usize),
    /// Embed the target's profile in the bundle.
    EmbedProfile(usize),
    /// Sign the bundle (its frameworks first) with the entitlements of its
    /// profile.
    SignBundle(usize),
    /// Check the signature of the signed app.
    Verify,
}

/// The steps that ready the targets, in plan order: the identifier of each
/// whose final identifier differs from its own is rewritten, then its
/// profile is embedded.
pub open spec fn preparation_steps(ts: Seq<BundleTarget>) -> Seq<SigningStep>
    decreases ts.len(),
{
    if ts.len() == 0 {
        Seq::empty()
    } else {
        let k = (ts.len() - 1) as usize;
        let prev = preparation_steps(ts.drop_last());
        if ts.last().final_bundle_id@ != ts.last().original_bundle_id@ {
            prev.push(SigningStep::RewriteBundleId(k)).push(SigningStep::EmbedProfile(k))
        } else {
            prev.push(SigningStep::EmbedProfile(k))
        }
    }
}

/// Signing the targets at the positions `ps`, in that order.
pub open spec fn bundle_signings(ps: Seq<int>) -> Seq<SigningStep> {
    ps.map_values(|i: int| SigningStep::SignBundle(i as usize))
}

/// The position of the first target at `path`.
pub open spec fn first_target_at(ts: Seq<BundleTarget>, path: Seq<char>) -> Option<int> {
    if exists|i: int| 0 <= i < ts.len() && #[trigger] ts[i].path@ == path {
        Some(choose|i: int| 0 <= i < ts.len() && #[trigger] ts[i].path@ == path
            && forall|j: int| 0 <= j < i ==> #[trigger] ts[j].path@ != path)
    } else {
        None
    }
}

/// The order in which the bundles of a plan are signed: every target is
/// readied; the app extensions are signed, shallowest first (plan order
/// within a depth); then the main app, the first target at `app_path`; then
/// the app's signature is checked. Fails when no target is at `app_path`.
pub fn signing_steps(plan: &SigningPlan, app_path: &str) -> (r: Result<Vec<SigningStep>, TossError>)
    ensures
        match first_target_at(plan.targets@, app_path@) {
            None => r matches Err(TossError::Signing(m)) && m@ == missing_main_target_msg(),
            Some(k) => r matches Ok(v) && exists|d: nat| depth_bound(plan.targets@, d) && v@
                == preparation_steps(plan.targets@)
                + bundle_signings(#[trigger] extensions_by_depth(plan.targets@, d))
                + seq![SigningStep::SignBundle(k as usize), SigningStep::Verify],
        },
{
    let ts = &plan.targets;
    let mut main: Option<usize> = None;
    let mut i: usize = 0;
    while i < ts.len()
        invariant
            i <= ts@.len(),
            main is None ==> forall|j: int| 0 <= j < i ==> #[trigger] ts@[j].path@ != app_path@,
            main matches Some(k) ==> k < ts@.len() && ts@[k as int].path@ == app_path@
                && forall|j: int| 0 <= j < k ==> #[trigger] ts@[j].path@ != app_path@,
        decreases ts@.len() - i,
    {
        if main.is_none() && str_eq(ts[i].path.as_str(), app_path) {
            main = Some(i);
        }
        i = i + 1;
    }
    let k = match main {
        Some(k) => k,
        None => {
            return Err(TossError::Signing("main app target missing from signing plan".to_string()));
        },
    };
    proof {
        assert(ts@[k as int].path@ == app_path@);
        assert(first_target_at(ts@, app_path@) == Some(k as int)) by {
            let c = choose|c: int| 0 <= c < ts@.len() && #[trigger] ts@[c].path@ == app_path@
                && forall|j: int| 0 <= j < c ==> #[trigger] ts@[j].path@ != app_path@;
            if c < k {
                assert(ts@[c].path@ != app_path@);
            } else if k < c {
                assert(ts@[k as int].path@ != app_path@);
            }
        }
    }
    let mut steps: Vec<SigningStep> = Vec::new();
    let mut i: usize = 0;
    while i < ts.len()
        invariant
            i <= ts@.len(),
            steps@ == preparation_steps(ts@.subrange(0, i as int)),
        decreases ts@.len() - i,
    {
        assert(ts@.subrange(0, i + 1).drop_last() =~= ts@.subrange(0, i as int));
        assert(ts@.subrange(0, i + 1).last() == ts@[i as int]);
        if !str_eq(ts[i].final_bundle_id.as_str(), ts[i].original_bundle_id.as_str()) {
            steps.push(SigningStep::RewriteBundleId(i));
        }
        steps.push(SigningStep::EmbedProfile(i));
        i = i + 1;
    }
    assert(ts@.subrange(0, ts@.len() as int) =~= ts@);
    let ghost prep = steps@;
    let order = extension_signing_order(ts.as_slice());
    let ghost d = choose|d: nat| depth_bound(ts@, d) && position_views(order@) == #[trigger] extensions_by_depth(ts@, d);
    let ghost signs = bundle_signings(extensions_by_depth(ts@, d));
    let mut j: usize = 0;
    while j < order.len()
        invariant
            j <= order@.len(),
            position_views(order@) == extensions_by_depth(ts@, d),
            signs == bundle_signings(extensions_by_depth(ts@, d)),
            steps@ == prep + signs.subrange(0, j as int),
        decreases order@.len() - j,
    {
        steps.push(SigningStep::SignBundle(order[j]));
        assert(position_views(order@)[j as int] == order@[j as int] as int);
        assert(signs.subrange(0, j + 1) =~= signs.subrange(0, j as int).push(SigningStep::SignBundle(order@[j as int])));
        j = j + 1;
    }
    assert(signs.subrange(0, order@.len() as int) =~= signs);
    steps.push(SigningStep::SignBundle(k));
    steps.push(SigningStep::Verify);
    assert(steps@ =~= prep + signs + seq![SigningStep::SignBundle(k), SigningStep::Verify]);
    Ok(steps)
}

} // verus!
