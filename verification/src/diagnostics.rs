//! What the signing commands report: team identifiers found in identity
//! names, sets of teams, and which project a signing check is about.

use vstd::prelude::*;
use crate::actions::unknown_project_msg;
use crate::config::{Config, ProjectKind};
use crate::error::TossError;
use crate::keyed_map::KeyedMap;
use crate::lexorder::strictly_sorted;
use crate::lines::string_views;
use crate::sign::last_index;
use crate::text::{chars_of, substring};

verus! {

/// An ASCII upper-case letter or digit.
pub open spec fn team_char(c: char) -> bool {
    ('A' <= c <= 'Z') || ('0' <= c <= '9')
}

/// The team identifier at the end of an identity name: ten upper-case
/// letters or digits between the last `(` and the last `)`.
pub open spec fn team_id_of_name(name: Seq<char>) -> Option<Seq<char>> {
    let open = last_index(name, '(', name.len() as int);
    let close = last_index(name, ')', name.len() as int);
    if open is Some && close is Some && close->0 > open->0 + 1 {
        let c = name.subrange(open->0 + 1, close->0);
        if c.len() == 10 && (forall|i: int| 0 <= i < 10 ==> team_char(#[trigger] c[i])) {
            Some(c)
        } else {
            None
        }
    } else {
        None
    }
}

fn rfind(s: &[char], c: char) -> (r: Option<usize>)
    ensures
        r matches Some(i) ==> i < s@.len() && last_index(s@, c, s@.len() as int) == Some(i as int),
        r is None ==> last_index(s@, c, s@.len() as int) is None,
{
    let mut n: usize = s.len();
    while n > 0
        invariant
            n <= s@.len(),
            last_index(s@, c, s@.len() as int) == last_index(s@, c, n as int),
        decreases n,
    {
        if s[n - 1] == c {
            return Some(n - 1);
        }
        n = n - 1;
    }
    None
}

/// Reads the team identifier from a signing identity's name, as in
/// `Apple Development: someone@example.com (VLXZVT5H87)`.
#[verifier::loop_isolation(false)]
pub fn extract_team_id_from_identity_name(name: &str) -> (r: Option<String>)
    ensures
        match team_id_of_name(name@) {
            Some(t) => r matches Some(s) && s@ == t,
            None => r is None,
        },
{
    let c = chars_of(name);
    let open = match rfind(c.as_slice(), '(') {
        Some(i) => i,
        None => return None,
    };
    let close = match rfind(c.as_slice(), ')') {
        Some(i) => i,
        None => return None,
    };
    assert(c@.len() == c.len());
    if close <= open + 1 {
        return None;
    }
    if close - (open + 1) != 10 {
        return None;
    }
    let mut k: usize = open + 1;
    while k < close
        invariant
            open + 1 <= k <= close < c@.len(),
            forall|j: int| open + 1 <= j < k ==> team_char(#[trigger] c@[j]),
        decreases close - k,
    {
        let ch = c[k];
        if !(('A' <= ch && ch <= 'Z') || ('0' <= ch && ch <= '9')) {
            assert(c@.subrange(open + 1, close as int)[k - open - 1] == ch);
            assert(!team_char(c@.subrange(open + 1, close as int)[k - open - 1]));
            return None;
        }
        k = k + 1;
    }
    proof {
        let t = c@.subrange(open + 1, close as int);
        assert forall|i: int| 0 <= i < 10 implies team_char(#[trigger] t[i]) by {
            assert(t[i] == c@[open + 1 + i]);
        }
    }
    Some(substring(c.as_slice(), open + 1, close))
}

/// The distinct values, sorted.
pub fn sorted_set(values: &[String]) -> (r: Vec<String>)
    ensures
        strictly_sorted(string_views(r@)),
        forall|x: Seq<char>| string_views(r@).contains(x) <==> string_views(values@).contains(x),
{
    let mut m: KeyedMap<bool> = KeyedMap::new();
    let mut i: usize = 0;
    while i < values.len()
        invariant
            i <= values@.len(),
            forall|x: Seq<char>| #[trigger] m@.dom().contains(x) <==> string_views(values@.subrange(0, i as int)).contains(x),
        decreases values@.len() - i,
    {
        let ghost before = m@;
        m.insert(values[i].clone(), true);
        proof {
            let pre = string_views(values@.subrange(0, i as int));
            let post = string_views(values@.subrange(0, i + 1));
            assert(post =~= pre.push(values@[i as int]@));
            assert forall|x: Seq<char>| #[trigger] m@.dom().contains(x) <==> post.contains(x) by {
                if post.contains(x) && x != values@[i as int]@ {
                    let k = choose|k: int| 0 <= k < post.len() && post[k] == x;
                    assert(pre[k] == x);
                }
                if pre.contains(x) {
                    let k = choose|k: int| 0 <= k < pre.len() && pre[k] == x;
                    assert(post[k] == x);
                }
                if x == values@[i as int]@ {
                    assert(post[i as int] == x);
                }
            }
        }
        i = i + 1;
    }
    assert(values@.subrange(0, values@.len() as int) =~= values@);
    let r = m.keys();
    proof {
        assert(string_views(r@) =~= m.key_seq());
        assert forall|x: Seq<char>| string_views(r@).contains(x) <==> string_views(values@).contains(x) by {
            if string_views(r@).contains(x) {
                let k = choose|k: int| 0 <= k < string_views(r@).len() && string_views(r@)[k] == x;
                assert(r@[k]@ == x);
            }
            if m@.dom().contains(x) {
                let k = choose|k: int| 0 <= k < r@.len() && #[trigger] r@[k]@ == x;
                assert(string_views(r@)[k] == x);
            }
        }
    }
    r
}

/// The items joined by `sep`.
pub open spec fn joined(items: Seq<Seq<char>>, sep: Seq<char>) -> Seq<char>
    decreases items.len(),
{
    if items.len() == 0 {
        Seq::empty()
    } else if items.len() == 1 {
        items[0]
    } else {
        joined(items.drop_last(), sep) + sep + items.last()
    }
}

/// Joins strings with a separator (`[String]::join`).
pub fn join(items: &[String], sep: &str) -> (r: String)
    ensures
        r@ == joined(string_views(items@), sep@),
{
    let mut r = String::new();
    let mut i: usize = 0;
    while i < items.len()
        invariant
            i <= items@.len(),
            r@ == joined(string_views(items@.subrange(0, i as int)), sep@),
        decreases items@.len() - i,
    {
        assert(string_views(items@.subrange(0, i + 1)).drop_last() =~= string_views(items@.subrange(0, i as int)));
        if i > 0 {
            r.append(sep);
        } else {
            assert(r@ =~= Seq::<char>::empty());
        }
        r.append(items[i].as_str());
        i = i + 1;
    }
    assert(items@.subrange(0, items@.len() as int) =~= items@);
    r
}

/// A set of values as shown: joined by `, `, or `<none>`.
pub open spec fn set_text(values: Seq<Seq<char>>) -> Seq<char> {
    if values.len() == 0 { "<none>"@ } else { joined(values, ", "@) }
}

/// Shows a sorted set of values.
pub fn join_or_none(values: &[String]) -> (r: String)
    ensures
        r@ == set_text(string_views(values@)),
{
    if values.len() == 0 {
        return "<none>".to_string();
    }
    join(values, ", ")
}

/// Shows a list of paths, joined by `, `.
pub fn display_paths(paths: &[String]) -> (r: String)
    ensures
        r@ == joined(string_views(paths@), ", "@),
{
    join(paths, ", ")
}

/// The IPA project a signing check is about: the one named (which must be
/// registered; an app project gives none), else the default project when it
/// is an IPA project.
pub fn resolve_ipa_project_name(config: &Config, project_name: Option<&str>) -> (r: Result<Option<String>, TossError>)
    ensures
        match project_name {
            Some(n) => if !config.projects@.dom().contains(n@) {
                r matches Err(TossError::Project(m)) && m@ == unknown_project_msg(n@)
            } else if config.projects@[n@].kind != ProjectKind::Ipa {
                r == Ok::<Option<String>, TossError>(None)
            } else {
                r matches Ok(Some(s)) && s@ == n@
            },
            None => match config.defaults.project {
                Some(d) if config.projects@.dom().contains(d@) && config.projects@[d@].kind == ProjectKind::Ipa =>
                    r matches Ok(Some(s)) && s@ == d@,
                _ => r == Ok::<Option<String>, TossError>(None),
            },
        },
{
    if let Some(name) = project_name {
        let project = match config.projects.get(name) {
            Some(p) => p,
            None => {
                let mut m = "unknown project '".to_string();
                m.append(name);
                m.append("' — register it with `toss projects add`");
                return Err(TossError::Project(m));
            },
        };
        if !project.is_ipa() {
            return Ok(None);
        }
        return Ok(Some(name.to_string()));
    }
    if let Some(d) = &config.defaults.project {
        if let Some(p) = config.projects.get(d.as_str()) {
            if p.is_ipa() {
                return Ok(Some(d.clone()));
            }
        }
    }
    Ok(None)
}

} // verus!
