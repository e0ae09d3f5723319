//! Inventory of local files the tool and its toolchain leave behind, and
//! which categories of them may be deleted.

use vstd::prelude::*;
use crate::decimal::{decimal, digit_char, u64_to_decimal};
use crate::error::TossError;
use crate::keyed_map::KeyedMap;
use crate::lexorder::strictly_sorted;
use crate::lines::string_views;
use crate::paths::{extension_is, has_extension, joined, path_join};
use crate::text::{push_char, str_eq};

verus! {

/// A category of local files.
#[derive(Debug, Clone, Copy, PartialEq, Eq, Structural, PartialOrd, Ord)]
pub enum CleanCategory {
    Config,
    TempProfiles,
    ProvisioningProfiles,
    DerivedData,
    CargoTarget,
}

/// Position of a category in the order categories are listed and sorted.
pub open spec fn rank(c: CleanCategory) -> nat {
    match c {
        CleanCategory::Config => 0,
        CleanCategory::TempProfiles => 1,
        CleanCategory::ProvisioningProfiles => 2,
        CleanCategory::DerivedData => 3,
        CleanCategory::CargoTarget => 4,
    }
}

/// The category at a position of the listing order.
pub open spec fn category_at(r: nat) -> CleanCategory {
    if r == 0 {
        CleanCategory::Config
    } else if r == 1 {
        CleanCategory::TempProfiles
    } else if r == 2 {
        CleanCategory::ProvisioningProfiles
    } else if r == 3 {
        CleanCategory::DerivedData
    } else {
        CleanCategory::CargoTarget
    }
}

/// The command-line key of a category.
pub open spec fn key_text(c: CleanCategory) -> Seq<char> {
    match c {
        CleanCategory::Config => "config"@,
        CleanCategory::TempProfiles => "temp-profiles"@,
        CleanCategory::ProvisioningProfiles => "provisioning-profiles"@,
        CleanCategory::DerivedData => "derived-data"@,
        CleanCategory::CargoTarget => "cargo-target"@,
    }
}

/// The category a command-line key names.
pub open spec fn parse_category(v: Seq<char>) -> Option<CleanCategory> {
    if v == "config"@ {
        Some(CleanCategory::Config)
    } else if v == "temp-profiles"@ {
        Some(CleanCategory::TempProfiles)
    } else if v == "provisioning-profiles"@ {
        Some(CleanCategory::ProvisioningProfiles)
    } else if v == "derived-data"@ {
        Some(CleanCategory::DerivedData)
    } else if v == "cargo-target"@ {
        Some(CleanCategory::CargoTarget)
    } else {
        None
    }
}

/// Only the configuration file cannot be deleted by the tool.
pub open spec fn deletable_category(c: CleanCategory) -> bool {
    c != CleanCategory::Config
}

/// Only temporary profiles are deleted by `--all-safe`.
pub open spec fn safe_default_category(c: CleanCategory) -> bool {
    c == CleanCategory::TempProfiles
}

/// The name shown in reports.
pub open spec fn display_text(c: CleanCategory) -> Seq<char> {
    match c {
        CleanCategory::Config => "Config"@,
        CleanCategory::TempProfiles => "Temporary profiles"@,
        CleanCategory::ProvisioningProfiles => "Provisioning profiles"@,
        CleanCategory::DerivedData => "DerivedData"@,
        CleanCategory::CargoTarget => "Cargo target"@,
    }
}

/// Which tool owns the files of a category.
pub open spec fn owner_text(c: CleanCategory) -> Seq<char> {
    match c {
        CleanCategory::Config | CleanCategory::TempProfiles => "toss"@,
        CleanCategory::ProvisioningProfiles | CleanCategory::DerivedData => "xcode"@,
        CleanCategory::CargoTarget => "rust"@,
    }
}

/// How safe deleting the files of a category is.
pub open spec fn safety_text(c: CleanCategory) -> Seq<char> {
    match c {
        CleanCategory::Config => "caution"@,
        CleanCategory::TempProfiles => "safe"@,
        _ => "external"@,
    }
}

/// What the files of a category are for.
pub open spec fn purpose_text(c: CleanCategory) -> Seq<char> {
    match c {
        CleanCategory::Config => "Stored defaults, aliases, projects, and signing settings."@,
        CleanCategory::TempProfiles => "Temporary provisioning profiles created for toss signing fallback."@,
        CleanCategory::ProvisioningProfiles => "All provisioning profiles shared with Xcode signing."@,
        CleanCategory::DerivedData => "Xcode build intermediates and build cache."@,
        CleanCategory::CargoTarget => "Rust build artifacts for this repo."@,
    }
}

impl CleanCategory {
    /// The command-line key.
    pub fn key(self) -> (r: &'static str)
        ensures
            r@ == key_text(self),
    {
        match self {
            CleanCategory::Config => "config",
            CleanCategory::TempProfiles => "temp-profiles",
            CleanCategory::ProvisioningProfiles => "provisioning-profiles",
            CleanCategory::DerivedData => "derived-data",
            CleanCategory::CargoTarget => "cargo-target",
        }
    }

    /// The name shown in reports.
    pub fn display_name(self) -> (r: &'static str)
        ensures
            r@ == display_text(self),
    {
        match self {
            CleanCategory::Config => "Config",
            CleanCategory::TempProfiles => "Temporary profiles",
            CleanCategory::ProvisioningProfiles => "Provisioning profiles",
            CleanCategory::DerivedData => "DerivedData",
            CleanCategory::CargoTarget => "Cargo target",
        }
    }

    /// Which tool owns the files.
    pub fn owner(self) -> (r: &'static str)
        ensures
            r@ == owner_text(self),
    {
        match self {
            CleanCategory::Config | CleanCategory::TempProfiles => "toss",
            CleanCategory::ProvisioningProfiles | CleanCategory::DerivedData => "xcode",
            CleanCategory::CargoTarget => "rust",
        }
    }

    /// How safe deleting the files is.
    pub fn safety(self) -> (r: &'static str)
        ensures
            r@ == safety_text(self),
    {
        match self {
            CleanCategory::Config => "caution",
            CleanCategory::TempProfiles => "safe",
            CleanCategory::ProvisioningProfiles | CleanCategory::DerivedData | CleanCategory::CargoTarget => "external",
        }
    }

    /// What the files are for.
    pub fn purpose(self) -> (r: &'static str)
        ensures
            r@ == purpose_text(self),
    {
        match self {
            CleanCategory::Config => "Stored defaults, aliases, projects, and signing settings.",
            CleanCategory::TempProfiles => "Temporary provisioning profiles created for toss signing fallback.",
            CleanCategory::ProvisioningProfiles => "All provisioning profiles shared with Xcode signing.",
            CleanCategory::DerivedData => "Xcode build intermediates and build cache.",
            CleanCategory::CargoTarget => "Rust build artifacts for this repo.",
        }
    }

    /// Whether the tool may delete the files.
    pub fn supports_delete(self) -> (b: bool)
        ensures
            b == deletable_category(self),
    {
        match self {
            CleanCategory::Config => false,
            _ => true,
        }
    }

    /// Whether the files are deleted by `--all-safe`.
    pub fn is_safe_default(self) -> (b: bool)
        ensures
            b == safe_default_category(self),
    {
        match self {
            CleanCategory::TempProfiles => true,
            _ => false,
        }
    }

    /// The category named by a command-line key.
    pub fn parse(value: &str) -> (r: Option<CleanCategory>)
        ensures
            r == parse_category(value@),
    {
        if str_eq(value, "config") {
            Some(CleanCategory::Config)
        } else if str_eq(value, "temp-profiles") {
            Some(CleanCategory::TempProfiles)
        } else if str_eq(value, "provisioning-profiles") {
            Some(CleanCategory::ProvisioningProfiles)
        } else if str_eq(value, "derived-data") {
            Some(CleanCategory::DerivedData)
        } else if str_eq(value, "cargo-target") {
            Some(CleanCategory::CargoTarget)
        } else {
            None
        }
    }

    /// Every category, in listing order.
    pub fn all() -> (r: Vec<CleanCategory>)
        ensures
            r@.len() == 5,
            forall|i: int| 0 <= i < 5 ==> #[trigger] r@[i] == category_at(i as nat),
    {
        let mut r = Vec::new();
        r.push(CleanCategory::Config);
        r.push(CleanCategory::TempProfiles);
        r.push(CleanCategory::ProvisioningProfiles);
        r.push(CleanCategory::DerivedData);
        r.push(CleanCategory::CargoTarget);
        r
    }

    /// Position in listing order.
    pub fn rank(self) -> (r: usize)
        ensures
            r as nat == rank(self),
    {
        match self {
            CleanCategory::Config => 0,
            CleanCategory::TempProfiles => 1,
            CleanCategory::ProvisioningProfiles => 2,
            CleanCategory::DerivedData => 3,
            CleanCategory::CargoTarget => 4,
        }
    }
}

/// Reading a category's key gives the category back.
pub proof fn lemma_parse_key(c: CleanCategory)
    ensures
        parse_category(key_text(c)) == Some(c),
{
    reveal_strlit("config");
    reveal_strlit("temp-profiles");
    reveal_strlit("provisioning-profiles");
    reveal_strlit("derived-data");
    reveal_strlit("cargo-target");
    assert("config"@.len() == 6);
    assert("temp-profiles"@.len() == 13);
    assert("provisioning-profiles"@.len() == 21);
    assert("derived-data"@.len() == 12);
    assert("cargo-target"@.len() == 12);
    assert("derived-data"@[0] != "cargo-target"@[0]);
}

/// A key that names a category is that category's key.
pub proof fn lemma_key_of_parse(v: Seq<char>)
    ensures
        parse_category(v) matches Some(c) ==> key_text(c) == v,
{
}


/// Message for a value that names no category; it lists the valid keys.
pub open spec fn unknown_category_msg(v: Seq<char>) -> Seq<char> {
    "unknown clean category '"@ + v
        + "' — valid values: config, temp-profiles, provisioning-profiles, derived-data, cargo-target"@
}

/// `i` is the first value that names no category.
pub open spec fn is_first_unknown(values: Seq<Seq<char>>, i: int) -> bool {
    0 <= i < values.len() && parse_category(values[i]) is None && forall|j: int|
        0 <= j < i ==> #[trigger] parse_category(values[j]) is Some
}

/// The category is requested: named by a value, or a safe default when
/// `all_safe` is set.
pub open spec fn requested(values: Seq<Seq<char>>, all_safe: bool, c: CleanCategory) -> bool {
    (exists|i: int| 0 <= i < values.len() && #[trigger] parse_category(values[i]) == Some(c)) || (all_safe
        && safe_default_category(c))
}

/// The views of a list of strings.
pub open spec fn views(v: Seq<String>) -> Seq<Seq<char>> {
    Seq::new(v.len(), |i: int| v[i]@)
}

/// Reads the categories to delete: each value must name a category; the
/// result holds each requested category once, in listing order.
pub fn parse_delete_categories(values: &[String], all_safe: bool) -> (r: Result<Vec<CleanCategory>, TossError>)
    ensures
        r is Err <==> exists|i: int| is_first_unknown(views(values@), i),
        r matches Err(e) ==> exists|i: int| #[trigger] is_first_unknown(views(values@), i)
            && (e matches TossError::Config(m) && m@ == unknown_category_msg(views(values@)[i])),
        r matches Ok(v) ==> (forall|c: CleanCategory| v@.contains(c) <==> requested(views(values@), all_safe, c))
            && (forall|a: int, b: int| 0 <= a < b < v@.len() ==> rank(#[trigger] v@[a]) < rank(#[trigger] v@[b])),
{
    let ghost vs = views(values@);
    let mut flags: Vec<bool> = Vec::new();
    flags.push(false);
    flags.push(false);
    flags.push(false);
    flags.push(false);
    flags.push(false);
    let mut i: usize = 0;
    while i < values.len()
        invariant
            vs == views(values@),
            i <= values@.len(),
            flags@.len() == 5,
            forall|j: int| 0 <= j < i ==> #[trigger] parse_category(vs[j]) is Some,
            forall|r: int| 0 <= r < 5 ==> (#[trigger] flags@[r] <==> exists|j: int| 0 <= j < i
                && #[trigger] parse_category(vs[j]) == Some(category_at(r as nat))),
        decreases values@.len() - i,
    {
        assert(vs[i as int] == values@[i as int]@);
        match CleanCategory::parse(values[i].as_str()) {
            None => {
                assert(is_first_unknown(vs, i as int));
                let mut m = "unknown clean category '".to_string();
                m.append(values[i].as_str());
                m.append("' — valid values: config, temp-profiles, provisioning-profiles, derived-data, cargo-target");
                return Err(TossError::Config(m));
            },
            Some(c) => {
                let k = c.rank();
                flags.set(k, true);
                proof {
                    assert forall|r: int| 0 <= r < 5 implies (#[trigger] flags@[r] <==> exists|j: int| 0 <= j < i + 1
                        && #[trigger] parse_category(vs[j]) == Some(category_at(r as nat))) by {
                        if r == k {
                            assert(category_at(r as nat) == c);
                            assert(parse_category(vs[i as int]) == Some(category_at(r as nat)));
                        } else {
                            if exists|j: int| 0 <= j < i + 1 && #[trigger] parse_category(vs[j]) == Some(category_at(r as nat)) {
                                let j = choose|j: int| 0 <= j < i + 1 && #[trigger] parse_category(vs[j]) == Some(category_at(r as nat));
                                if j == i {
                                    assert(rank(c) == r);
                                }
                            }
                        }
                    }
                }
            },
        }
        i = i + 1;
    }
    if all_safe {
        flags.set(1, true);
    }
    let mut out: Vec<CleanCategory> = Vec::new();
    let mut r: usize = 0;
    while r < 5
        invariant
            r <= 5,
            flags@.len() == 5,
            forall|k: int| 0 <= k < out@.len() ==> rank(#[trigger] out@[k]) < r,
            forall|a: int, b: int| 0 <= a < b < out@.len() ==> rank(#[trigger] out@[a]) < rank(#[trigger] out@[b]),
            forall|c: CleanCategory| rank(c) < r ==> (out@.contains(c) <==> flags@[rank(c) as int]),
            forall|c: CleanCategory| rank(c) >= r ==> !out@.contains(c),
        decreases 5 - r,
    {
        if flags[r] {
            let c = if r == 0 {
                CleanCategory::Config
            } else if r == 1 {
                CleanCategory::TempProfiles
            } else if r == 2 {
                CleanCategory::ProvisioningProfiles
            } else if r == 3 {
                CleanCategory::DerivedData
            } else {
                CleanCategory::CargoTarget
            };
            let ghost old_out = out@;
            out.push(c);
            proof {
                assert forall|d: CleanCategory| rank(d) < r + 1 implies (out@.contains(d) <==> flags@[rank(d) as int]) by {
                    if d == c {
                        assert(out@[out@.len() - 1] == d);
                    } else if out@.contains(d) {
                        let k = choose|k: int| 0 <= k < out@.len() && out@[k] == d;
                        assert(old_out.contains(d)) by {
                            assert(old_out[k] == d);
                        }
                    } else if rank(d) < r {
                        if old_out.contains(d) {
                            let k = choose|k: int| 0 <= k < old_out.len() && old_out[k] == d;
                            assert(out@[k] == d);
                        }
                    }
                }
                assert forall|d: CleanCategory| rank(d) >= r + 1 implies !out@.contains(d) by {
                    if out@.contains(d) {
                        let k = choose|k: int| 0 <= k < out@.len() && out@[k] == d;
                        if k < old_out.len() {
                            assert(old_out[k] == d);
                            assert(old_out.contains(d));
                        }
                    }
                }
            }
        } else {
            proof {
                assert forall|d: CleanCategory| rank(d) < r + 1 implies (out@.contains(d) <==> flags@[rank(d) as int]) by {
                }
            }
        }
        r = r + 1;
    }
    proof {
        assert forall|c: CleanCategory| out@.contains(c) <==> requested(vs, all_safe, c) by {
            assert(category_at(rank(c)) == c);
            if all_safe && safe_default_category(c) {
                assert(flags@[rank(c) as int]);
            }
        }
    }
    Ok(out)
}

} // verus!

verus! {

/// Files of one category found on disk.
#[derive(Debug, Clone)]
pub struct CleanItem {
    pub category: CleanCategory,
    pub paths: Vec<String>,
    pub size_bytes: u64,
    pub path_count: usize,
    pub deletable: bool,
}

/// What was found on disk, category by category, with general notes.
#[derive(Debug)]
pub struct CleanReport {
    pub items: Vec<CleanItem>,
    pub notes: Vec<String>,
}

/// Totals of a deletion.
#[derive(Debug, Clone, Copy)]
pub struct DeleteSummary {
    pub deleted_paths: usize,
    pub reclaimed_bytes: u64,
}

impl Default for DeleteSummary {
    fn default() -> (r: Self)
        ensures
            r.deleted_paths == 0,
            r.reclaimed_bytes == 0,
    {
        DeleteSummary { deleted_paths: 0, reclaimed_bytes: 0 }
    }
}

impl DeleteSummary {
    /// Counts the paths deleted and the bytes reclaimed for one category.
    pub fn add(&mut self, deleted_paths: usize, reclaimed_bytes: u64)
        requires
            old(self).deleted_paths + deleted_paths <= usize::MAX,
            old(self).reclaimed_bytes + reclaimed_bytes <= u64::MAX,
        ensures
            final(self).deleted_paths == old(self).deleted_paths + deleted_paths,
            final(self).reclaimed_bytes == old(self).reclaimed_bytes + reclaimed_bytes,
    {
        self.deleted_paths = self.deleted_paths + deleted_paths;
        self.reclaimed_bytes = self.reclaimed_bytes + reclaimed_bytes;
    }
}

/// The items that were found, in the order given.
pub open spec fn present(s: Seq<Option<CleanItem>>) -> Seq<CleanItem>
    decreases s.len(),
{
    if s.len() == 0 {
        Seq::empty()
    } else {
        let p = present(s.drop_last());
        match s.last() {
            Some(x) => p.push(x),
            None => p,
        }
    }
}

/// First note of every report.
pub open spec fn temp_files_note() -> Seq<char> {
    "Runtime temp files from IPA extraction, devicectl JSON output, and entitlement conversion use tempfile-managed locations and normally disappear automatically."@
}

/// Second note of every report.
pub open spec fn ownership_note() -> Seq<char> {
    "Items owned by Xcode or Rust are included for visibility, but toss does not own them exclusively."@
}

/// What is found for category `c`, if anything: an item of that category,
/// deletable as the category is, with at least one path.
pub open spec fn slot_fits(found: Option<CleanItem>, c: CleanCategory) -> bool {
    found matches Some(i) ==> i.category == c && i.deletable == deletable_category(c) && i.paths@.len() > 0
}

/// The items are in category order, each deletable as its category is and
/// with at least one path; all categories rank below `bound`.
pub open spec fn items_in_order(items: Seq<CleanItem>, bound: nat) -> bool {
    &&& forall|k: int| 0 <= k < items.len() ==> (#[trigger] items[k]).deletable == deletable_category(items[k].category)
        && items[k].paths@.len() > 0 && rank(items[k].category) < bound
    &&& forall|a: int, b: int| 0 <= a < b < items.len() ==> rank((#[trigger] items[a]).category) < rank((#[trigger] items[b]).category)
}

fn push_found(items: &mut Vec<CleanItem>, found: Option<CleanItem>, Ghost(seen): Ghost<Seq<Option<CleanItem>>>,
    Ghost(c): Ghost<CleanCategory>)
    requires
        old(items)@ == present(seen),
        items_in_order(old(items)@, rank(c)),
        slot_fits(found, c),
    ensures
        final(items)@ == present(seen.push(found)),
        items_in_order(final(items)@, rank(c) + 1),
{
    assert(seen.push(found).drop_last() =~= seen);
    if let Some(item) = found {
        items.push(item);
    }
}

/// Assembles the report from what was found for each category: the
/// configuration file, temporary profiles, all provisioning profiles,
/// DerivedData and the Cargo target directory, in that order.
pub fn collect_report(
    config: Option<CleanItem>,
    temp_profiles: Option<CleanItem>,
    provisioning_profiles: Option<CleanItem>,
    derived_data: Option<CleanItem>,
    cargo_target: Option<CleanItem>,
) -> (r: CleanReport)
    requires
        slot_fits(config, CleanCategory::Config),
        slot_fits(temp_profiles, CleanCategory::TempProfiles),
        slot_fits(provisioning_profiles, CleanCategory::ProvisioningProfiles),
        slot_fits(derived_data, CleanCategory::DerivedData),
        slot_fits(cargo_target, CleanCategory::CargoTarget),
    ensures
        r.items@ == present(seq![config, temp_profiles, provisioning_profiles, derived_data, cargo_target]),
        items_in_order(r.items@, 5),
        r.notes@.len() == 2,
        r.notes@[0]@ == temp_files_note(),
        r.notes@[1]@ == ownership_note(),
{
    let ghost all = seq![config, temp_profiles, provisioning_profiles, derived_data, cargo_target];
    let mut items: Vec<CleanItem> = Vec::new();
    assert(present(Seq::<Option<CleanItem>>::empty()) =~= Seq::<CleanItem>::empty());
    push_found(&mut items, config, Ghost(Seq::empty()), Ghost(CleanCategory::Config));
    assert(Seq::<Option<CleanItem>>::empty().push(config) =~= all.subrange(0, 1));
    push_found(&mut items, temp_profiles, Ghost(all.subrange(0, 1)), Ghost(CleanCategory::TempProfiles));
    assert(all.subrange(0, 1).push(temp_profiles) =~= all.subrange(0, 2));
    push_found(&mut items, provisioning_profiles, Ghost(all.subrange(0, 2)), Ghost(CleanCategory::ProvisioningProfiles));
    assert(all.subrange(0, 2).push(provisioning_profiles) =~= all.subrange(0, 3));
    push_found(&mut items, derived_data, Ghost(all.subrange(0, 3)), Ghost(CleanCategory::DerivedData));
    assert(all.subrange(0, 3).push(derived_data) =~= all.subrange(0, 4));
    push_found(&mut items, cargo_target, Ghost(all.subrange(0, 4)), Ghost(CleanCategory::CargoTarget));
    assert(all.subrange(0, 4).push(cargo_target) =~= all);
    let mut notes: Vec<String> = Vec::new();
    notes.push("Runtime temp files from IPA extraction, devicectl JSON output, and entitlement conversion use tempfile-managed locations and normally disappear automatically.".to_string());
    notes.push("Items owned by Xcode or Rust are included for visibility, but toss does not own them exclusively.".to_string());
    CleanReport { items, notes }
}

/// The configuration file, when it exists: one path that is never deleted.
pub fn config_item(path: String, exists: bool, size_bytes: u64) -> (r: Option<CleanItem>)
    ensures
        !exists ==> r is None,
        exists ==> (r matches Some(item) && item.category == CleanCategory::Config && item.paths@.len() == 1
            && item.paths@[0] == path && item.size_bytes == size_bytes && item.path_count == 1 && !item.deletable),
{
    if !exists {
        return None;
    }
    let mut paths = Vec::new();
    paths.push(path);
    Some(CleanItem { category: CleanCategory::Config, paths, size_bytes, path_count: 1, deletable: false })
}

/// A directory tree of a category, when it exists: one path, its total size
/// and its number of nodes.
pub fn build_root_item(category: CleanCategory, path: String, exists: bool, size_bytes: u64, node_count: usize) -> (r: Option<CleanItem>)
    ensures
        !exists ==> r is None,
        exists ==> (r matches Some(item) && item.category == category && item.paths@.len() == 1
            && item.paths@[0] == path && item.size_bytes == size_bytes && item.path_count == node_count
            && item.deletable == deletable_category(category)),
{
    if !exists {
        return None;
    }
    let mut paths = Vec::new();
    paths.push(path);
    Some(CleanItem { category, paths, size_bytes, path_count: node_count, deletable: category.supports_delete() })
}

/// The sum of a list of sizes.
pub open spec fn total(s: Seq<u64>) -> nat
    decreases s.len(),
{
    if s.len() == 0 {
        0
    } else {
        total(s.drop_last()) + s.last() as nat
    }
}

/// Files of a category, when there are any: their paths, the sum of their
/// sizes (`sizes[i]` is the size of `paths[i]`) and their number.
pub fn build_file_item(category: CleanCategory, paths: Vec<String>, sizes: &[u64]) -> (r: Option<CleanItem>)
    requires
        sizes@.len() == paths@.len(),
        total(sizes@) <= u64::MAX,
    ensures
        paths@.len() == 0 ==> r is None,
        paths@.len() > 0 ==> (r matches Some(item) && item.category == category && item.paths@ == paths@
            && item.size_bytes == total(sizes@) && item.path_count == paths@.len()
            && item.deletable == deletable_category(category)),
{
    if paths.len() == 0 {
        return None;
    }
    let mut size_bytes: u64 = 0;
    let mut i: usize = 0;
    while i < sizes.len()
        invariant
            i <= sizes@.len(),
            size_bytes == total(sizes@.subrange(0, i as int)),
            total(sizes@) <= u64::MAX,
        decreases sizes@.len() - i,
    {
        proof {
            assert(sizes@.subrange(0, i + 1).drop_last() =~= sizes@.subrange(0, i as int));
            lemma_total_prefix(sizes@, i + 1);
        }
        size_bytes = size_bytes + sizes[i];
        i = i + 1;
    }
    assert(sizes@.subrange(0, sizes@.len() as int) =~= sizes@);
    let path_count = paths.len();
    Some(CleanItem { category, paths, size_bytes, path_count, deletable: category.supports_delete() })
}

/// The sum of a prefix is at most the sum of the whole list.
proof fn lemma_total_prefix(s: Seq<u64>, k: int)
    requires
        0 <= k <= s.len(),
    ensures
        total(s.subrange(0, k)) <= total(s),
    decreases s.len(),
{
    if k == s.len() {
        assert(s.subrange(0, k) =~= s);
    } else {
        assert(s.drop_last().subrange(0, k) =~= s.subrange(0, k));
        lemma_total_prefix(s.drop_last(), k);
    }
}

/// Position of the first item of a category.
#[verifier::opaque]
pub open spec fn item_position(items: Seq<CleanItem>, c: CleanCategory) -> Option<int> {
    if exists|i: int| 0 <= i < items.len() && items[i].category == c && forall|k: int| 0 <= k < i ==> #[trigger] items[k].category != c {
        Some(choose|i: int| 0 <= i < items.len() && items[i].category == c && forall|k: int| 0 <= k < i ==> #[trigger] items[k].category != c)
    } else {
        None
    }
}

/// The `j`-th requested category was found but may not be deleted.
pub open spec fn refused_at(items: Seq<CleanItem>, cats: Seq<CleanCategory>, j: int) -> bool {
    item_position(items, cats[j]) matches Some(i) && !items[i].deletable
}

/// The items processed for the first `n` requested categories: the one found
/// for each, skipping those with nothing found.
pub open spec fn planned(items: Seq<CleanItem>, cats: Seq<CleanCategory>, n: nat) -> Seq<usize>
    decreases n,
{
    if n == 0 {
        Seq::empty()
    } else {
        let prev = planned(items, cats, (n - 1) as nat);
        match item_position(items, cats[n - 1]) {
            Some(i) => prev.push(i as usize),
            None => prev,
        }
    }
}

/// Message for a requested category that may not be deleted.
pub open spec fn not_deletable_msg(c: CleanCategory) -> Seq<char> {
    "category '"@ + key_text(c) + "' cannot be deleted automatically"@
}

/// What a deletion does: the items whose paths are deleted, in order (as
/// positions in the report), and the error that stops it, if any.
#[derive(Debug)]
pub struct DeletePlan {
    pub batches: Vec<usize>,
    pub refusal: Option<TossError>,
}

/// The bytes of the planned items, added up.
pub open spec fn planned_bytes(items: Seq<CleanItem>, batches: Seq<usize>) -> int
    decreases batches.len(),
{
    if batches.len() == 0 {
        0
    } else {
        planned_bytes(items, batches.drop_last()) + items[batches.last() as int].size_bytes
    }
}

/// The counts added up.
pub open spec fn count_sum(counts: Seq<usize>) -> int
    decreases counts.len(),
{
    if counts.len() == 0 {
        0
    } else {
        count_sum(counts.drop_last()) + counts.last()
    }
}

/// The totals of carrying out a deletion plan, given for each planned item
/// how many of its paths were deleted: the paths deleted and the bytes of
/// the planned items. `None` when a total does not fit its type.
pub fn tally_deletion(report: &CleanReport, batches: &[usize], deleted: &[usize]) -> (r: Option<DeleteSummary>)
    requires
        deleted@.len() == batches@.len(),
        forall|k: int| 0 <= k < batches@.len() ==> #[trigger] batches@[k] < report.items@.len(),
    ensures
        match r {
            Some(t) => t.deleted_paths == count_sum(deleted@) && t.reclaimed_bytes == planned_bytes(report.items@, batches@),
            None => count_sum(deleted@) > usize::MAX || planned_bytes(report.items@, batches@) > u64::MAX,
        },
{
    let mut paths: usize = 0;
    let mut bytes: u64 = 0;
    let mut k: usize = 0;
    while k < batches.len()
        invariant
            k <= batches@.len(),
            deleted@.len() == batches@.len(),
            forall|j: int| 0 <= j < batches@.len() ==> #[trigger] batches@[j] < report.items@.len(),
            paths == count_sum(deleted@.subrange(0, k as int)),
            bytes == planned_bytes(report.items@, batches@.subrange(0, k as int)),
        decreases batches@.len() - k,
    {
        assert(deleted@.subrange(0, k + 1).drop_last() =~= deleted@.subrange(0, k as int));
        assert(batches@.subrange(0, k + 1).drop_last() =~= batches@.subrange(0, k as int));
        let ghost next_paths = count_sum(deleted@.subrange(0, k + 1));
        let ghost next_bytes = planned_bytes(report.items@, batches@.subrange(0, k + 1));
        match (paths.checked_add(deleted[k]), bytes.checked_add(report.items[batches[k]].size_bytes)) {
            (Some(p), Some(b)) => {
                paths = p;
                bytes = b;
            },
            _ => {
                proof {
                    lemma_sums_grow(report.items@, batches@, deleted@, k + 1);
                }
                return None;
            },
        }
        k = k + 1;
    }
    assert(deleted@.subrange(0, batches@.len() as int) =~= deleted@);
    assert(batches@.subrange(0, batches@.len() as int) =~= batches@);
    Some(DeleteSummary { deleted_paths: paths, reclaimed_bytes: bytes })
}

proof fn lemma_sums_grow(items: Seq<CleanItem>, batches: Seq<usize>, deleted: Seq<usize>, n: int)
    requires
        0 <= n <= batches.len(),
        deleted.len() == batches.len(),
    ensures
        count_sum(deleted.subrange(0, n)) <= count_sum(deleted),
        planned_bytes(items, batches.subrange(0, n)) <= planned_bytes(items, batches),
    decreases batches.len() - n,
{
    if n < batches.len() {
        lemma_sums_grow(items, batches, deleted, n + 1);
        assert(deleted.subrange(0, n + 1).drop_last() =~= deleted.subrange(0, n));
        assert(batches.subrange(0, n + 1).drop_last() =~= batches.subrange(0, n));
    } else {
        assert(deleted.subrange(0, n) =~= deleted);
        assert(batches.subrange(0, n) =~= batches);
    }
}

/// The position of the first item of the category, if any.
pub fn find_item(items: &[CleanItem], c: CleanCategory) -> (r: Option<usize>)
    ensures
        match r {
            Some(i) => i < items@.len() && item_position(items@, c) == Some(i as int),
            None => item_position(items@, c) is None,
        },
{
    let mut i: usize = 0;
    while i < items.len()
        invariant
            i <= items@.len(),
            forall|k: int| 0 <= k < i ==> #[trigger] items@[k].category != c,
        decreases items@.len() - i,
    {
        if items[i].category == c {
            proof {
                reveal(item_position);
                assert(0 <= i < items@.len() && items@[i as int].category == c && forall|k: int| 0 <= k < i ==> #[trigger] items@[k].category != c);
                let w = choose|w: int| 0 <= w < items@.len() && items@[w].category == c && forall|k: int| 0 <= k < w ==> #[trigger] items@[k].category != c;
                if w < i {
                    assert(items@[w].category != c);
                } else if w > i {
                    assert(items@[i as int].category != c);
                }
            }
            return Some(i);
        }
        i = i + 1;
    }
    proof {
        reveal(item_position);
    }
    None
}

/// Plans the deletion of the requested categories, in the order requested:
/// for each, the first item of that category in the report is deleted (a
/// category with nothing found is skipped); the first one that may not be
/// deleted stops the deletion with an error, after the ones before it.
pub fn delete_categories(report: &CleanReport, categories: &[CleanCategory]) -> (r: DeletePlan)
    ensures
        forall|k: int| 0 <= k < r.batches@.len() ==> #[trigger] r.batches@[k] < report.items@.len(),
        forall|k: int| 0 <= k < r.batches@.len() ==> report.items@[#[trigger] r.batches@[k] as int].deletable,
        match r.refusal {
            Some(e) => exists|j: int| 0 <= j < categories@.len() && #[trigger] refused_at(report.items@, categories@, j)
                && (forall|k: int| 0 <= k < j ==> !#[trigger] refused_at(report.items@, categories@, k))
                && r.batches@ == planned(report.items@, categories@, j as nat)
                && (e matches TossError::Config(m) && m@ == not_deletable_msg(categories@[j])),
            None => (forall|k: int| 0 <= k < categories@.len() ==> !#[trigger] refused_at(report.items@, categories@, k))
                && r.batches@ == planned(report.items@, categories@, categories@.len()),
        },
{
    let mut batches: Vec<usize> = Vec::new();
    let mut j: usize = 0;
    while j < categories.len()
        invariant
            j <= categories@.len(),
            forall|k: int| 0 <= k < j ==> !#[trigger] refused_at(report.items@, categories@, k),
            batches@ == planned(report.items@, categories@, j as nat),
            forall|k: int| 0 <= k < batches@.len() ==> #[trigger] batches@[k] < report.items@.len(),
            forall|k: int| 0 <= k < batches@.len() ==> report.items@[#[trigger] batches@[k] as int].deletable,
        decreases categories@.len() - j,
    {
        let c = categories[j];
        match find_item(report.items.as_slice(), c) {
            None => {},
            Some(i) => {
                if !report.items[i].deletable {
                    assert(refused_at(report.items@, categories@, j as int));
                    let mut m = "category '".to_string();
                    m.append(c.key());
                    m.append("' cannot be deleted automatically");
                    return DeletePlan { batches, refusal: Some(TossError::Config(m)) };
                }
                batches.push(i);
            },
        }
        j = j + 1;
    }
    DeletePlan { batches, refusal: None }
}

} // verus!

verus! {

/// `n / d` rounded to the nearest integer, ties to the even one.
pub open spec fn round_half_even(n: nat, d: nat) -> nat {
    let q = n / d;
    let r = n % d;
    if 2 * r < d {
        q
    } else if 2 * r > d {
        q + 1
    } else if q % 2 == 0 {
        q
    } else {
        q + 1
    }
}

/// The distance between neighbouring `f64` values near `b`: 1 below 2^53,
/// doubling with each power of two above.
pub open spec fn f64_spacing(b: nat) -> nat {
    if b < 0x0020_0000_0000_0000 {
        1
    } else if b < 0x0040_0000_0000_0000 {
        2
    } else if b < 0x0080_0000_0000_0000 {
        4
    } else if b < 0x0100_0000_0000_0000 {
        8
    } else if b < 0x0200_0000_0000_0000 {
        16
    } else if b < 0x0400_0000_0000_0000 {
        32
    } else if b < 0x0800_0000_0000_0000 {
        64
    } else if b < 0x1000_0000_0000_0000 {
        128
    } else if b < 0x2000_0000_0000_0000 {
        256
    } else if b < 0x4000_0000_0000_0000 {
        512
    } else if b < 0x8000_0000_0000_0000 {
        1024
    } else {
        2048
    }
}

/// The value of `b as f64` for a `u64`: `b` rounded to the nearest multiple
/// of the spacing, ties to even.
pub open spec fn as_f64(b: nat) -> nat {
    round_half_even(b, f64_spacing(b)) * f64_spacing(b)
}

/// The unit a byte count is shown in (1 = KB up to 4 = TB): the largest power
/// of 1024 not above it, at most TB.
pub open spec fn byte_unit(v: nat) -> nat {
    if v >= 0x100_0000_0000 {
        4
    } else if v >= 0x4000_0000 {
        3
    } else if v >= 0x10_0000 {
        2
    } else {
        1
    }
}

/// 1024 to the power of a unit.
pub open spec fn unit_size(u: nat) -> nat {
    if u == 1 {
        0x400
    } else if u == 2 {
        0x10_0000
    } else if u == 3 {
        0x4000_0000
    } else {
        0x100_0000_0000
    }
}

/// The name of a unit.
pub open spec fn unit_name(u: nat) -> Seq<char> {
    if u == 1 {
        "KB"@
    } else if u == 2 {
        "MB"@
    } else if u == 3 {
        "GB"@
    } else {
        "TB"@
    }
}

/// A byte count as shown to users: below 1024 the exact count and `B`;
/// otherwise the count as an `f64`, divided by its unit and written with one
/// decimal (rounded to nearest, ties to even), then the unit.
pub open spec fn format_bytes_text(b: nat) -> Seq<char> {
    if b < 1024 {
        decimal(b) + " B"@
    } else {
        let v = as_f64(b);
        let u = byte_unit(v);
        let t = round_half_even(v * 10, unit_size(u));
        decimal(t / 10) + seq!['.', digit_char(t % 10)] + " "@ + unit_name(u)
    }
}

/// `n / d` rounded to nearest, ties to even.
fn round_div(n: u128, d: u128) -> (r: u128)
    requires
        2 <= d <= 0x1_0000_0000_0000_0000,
        n <= 0x100_0000_0000_0000_0000,
    ensures
        r == round_half_even(n as nat, d as nat),
        r <= n / 2 + 1,
{
    let q = n / d;
    let rem = n % d;
    proof {
        vstd::arithmetic::div_mod::lemma_div_is_ordered_by_denominator(n as int, 2, d as int);
    }
    if 2 * rem < d {
        q
    } else if 2 * rem > d {
        q + 1
    } else if q % 2 == 0 {
        q
    } else {
        q + 1
    }
}

/// `b as f64`, as an exact integer.
fn f64_value(b: u64) -> (v: u128)
    ensures
        v == as_f64(b as nat),
        v <= 0x1_0000_0000_0000_0800,
{
    let s: u128 = if b < 0x0020_0000_0000_0000 {
        1
    } else if b < 0x0040_0000_0000_0000 {
        2
    } else if b < 0x0080_0000_0000_0000 {
        4
    } else if b < 0x0100_0000_0000_0000 {
        8
    } else if b < 0x0200_0000_0000_0000 {
        16
    } else if b < 0x0400_0000_0000_0000 {
        32
    } else if b < 0x0800_0000_0000_0000 {
        64
    } else if b < 0x1000_0000_0000_0000 {
        128
    } else if b < 0x2000_0000_0000_0000 {
        256
    } else if b < 0x4000_0000_0000_0000 {
        512
    } else if b < 0x8000_0000_0000_0000 {
        1024
    } else {
        2048
    };
    assert(s == f64_spacing(b as nat));
    if s == 1 {
        assert(round_half_even(b as nat, 1) == b) by {
            assert((b as nat) / 1 == b);
            assert((b as nat) % 1 == 0);
        }
        return b as u128;
    }
    let q = round_div(b as u128, s);
    proof {
        let bb = b as int;
        let si = s as int;
        vstd::arithmetic::div_mod::lemma_fundamental_div_mod(bb, si);
        let k = bb / si;
        assert(q <= k + 1);
        assert(q * s <= bb + s) by (nonlinear_arith)
            requires
                q <= k + 1,
                bb == si * k + bb % si,
                0 <= bb % si,
                si == s,
                si >= 2,
                0 <= q;
        assert(b + s <= 0x1_0000_0000_0000_0800);
    }
    q * s
}

/// Writes a byte count for people: `999 B`, `2.0 KB`, `1.5 GB`; the largest
/// unit is TB.
pub fn format_bytes(bytes: u64) -> (r: String)
    ensures
        r@ == format_bytes_text(bytes as nat),
{
    if bytes < 1024 {
        let mut s = u64_to_decimal(bytes);
        s.append(" B");
        return s;
    }
    let v = f64_value(bytes);
    let (d, unit): (u128, &str) = if v >= 0x100_0000_0000 {
        (0x100_0000_0000, "TB")
    } else if v >= 0x4000_0000 {
        (0x4000_0000, "GB")
    } else if v >= 0x10_0000 {
        (0x10_0000, "MB")
    } else {
        (0x400, "KB")
    };
    assert(d == unit_size(byte_unit(v as nat)));
    assert(unit@ == unit_name(byte_unit(v as nat)));
    let t = round_div(v * 10, d);
    let whole = t / 10;
    let tenth = t % 10;
    let mut s = u64_to_decimal(whole as u64);
    push_char(&mut s, '.');
    push_char(&mut s, digit_char_of(tenth as u64));
    s.append(" ");
    s.append(unit);
    assert(s@ =~= format_bytes_text(bytes as nat));
    s
}

fn digit_char_of(d: u64) -> (c: char)
    requires
        d < 10,
    ensures
        c == digit_char(d as nat),
{
    crate::decimal::digit_to_char(d)
}

} // verus!

verus! {

/// Paths of the inspected profiles made under the temporary bundle prefix,
/// in order.
pub open spec fn temp_profile_paths_in(inspections: Seq<crate::sign::ProvisioningProfileInspection>, prefix: Seq<char>) -> Seq<Seq<char>>
    decreases inspections.len(),
{
    if inspections.len() == 0 {
        Seq::empty()
    } else {
        let prev = temp_profile_paths_in(inspections.drop_last(), prefix);
        match inspections.last().profile {
            Some(p) if crate::text::starts_with(p.bundle_id_pattern@, prefix) => prev.push(p.path@),
            _ => prev,
        }
    }
}

/// The temporary profiles among the inspected ones: those whose bundle
/// identifier pattern starts with the configured temporary prefix; nothing
/// when no prefix is configured.
pub fn temp_profile_paths(config: &crate::config::Config, inspections: &[crate::sign::ProvisioningProfileInspection]) -> (r: Option<Vec<String>>)
    ensures
        match config.signing.temp_bundle_prefix {
            None => r is None,
            Some(p) => r matches Some(v) && crate::lines::string_views(v@) == temp_profile_paths_in(inspections@, p@),
        },
{
    let prefix = match &config.signing.temp_bundle_prefix {
        Some(p) => p,
        None => return None,
    };
    let mut r: Vec<String> = Vec::new();
    let mut i: usize = 0;
    while i < inspections.len()
        invariant
            i <= inspections@.len(),
            crate::lines::string_views(r@) == temp_profile_paths_in(inspections@.subrange(0, i as int), prefix@),
        decreases inspections@.len() - i,
    {
        assert(inspections@.subrange(0, i + 1).drop_last() =~= inspections@.subrange(0, i as int));
        assert(inspections@.subrange(0, i + 1).last() == inspections@[i as int]);
        if let Some(p) = &inspections[i].profile {
            if crate::text::str_starts_with(p.bundle_id_pattern.as_str(), prefix.as_str()) {
                let ghost before = r@;
                r.push(p.path.clone());
                assert(crate::lines::string_views(r@) =~= crate::lines::string_views(before).push(p.path@));
            }
        }
        i = i + 1;
    }
    assert(inspections@.subrange(0, inspections@.len() as int) =~= inspections@);
    Some(r)
}

/// The temporary-profiles item of the inventory: none when no temporary
/// prefix is configured; otherwise the inspected profiles whose bundle
/// identifier pattern starts with the prefix, when there are any (`sizes[i]`
/// is the size of the i-th of them).
pub fn temp_profiles_item(config: &crate::config::Config, inspections: &[crate::sign::ProvisioningProfileInspection], sizes: &[u64]) -> (r: Option<CleanItem>)
    requires
        config.signing.temp_bundle_prefix matches Some(p) ==> sizes@.len() == temp_profile_paths_in(inspections@, p@).len(),
        total(sizes@) <= u64::MAX,
    ensures
        match config.signing.temp_bundle_prefix {
            None => r is None,
            Some(p) => {
                let paths = temp_profile_paths_in(inspections@, p@);
                &&& paths.len() == 0 ==> r is None
                &&& paths.len() > 0 ==> (r matches Some(item) && item.category == CleanCategory::TempProfiles
                    && crate::lines::string_views(item.paths@) == paths && item.size_bytes == total(sizes@)
                    && item.path_count == paths.len() && item.deletable)
            },
        },
{
    match temp_profile_paths(config, inspections) {
        None => None,
        Some(paths) => build_file_item(CleanCategory::TempProfiles, paths, sizes),
    }
}

/// The path of entry `j` of profile directory `i`, when it is a profile
/// file: `dirs[i]` is a directory with its entries (`None` where it does not
/// exist), and a profile file is named with the `mobileprovision` extension.
pub open spec fn profile_file_at(dirs: Seq<(String, Option<Vec<String>>)>, i: int, j: int) -> Option<Seq<char>> {
    match dirs[i].1 {
        Some(v) => if 0 <= j < v@.len() && has_extension(v@[j]@, "mobileprovision"@) {
            Some(joined(dirs[i].0@, v@[j]@))
        } else {
            None
        },
        None => None,
    }
}

/// The provisioning profile files of the profile directories, each once, in
/// sorted order.
pub fn profile_files(dirs: &[(String, Option<Vec<String>>)]) -> (r: Vec<String>)
    ensures
        strictly_sorted(string_views(r@)),
        forall|p: Seq<char>| #[trigger] string_views(r@).contains(p) <==> exists|i: int, j: int|
            0 <= i < dirs@.len() && #[trigger] profile_file_at(dirs@, i, j) == Some(p),
{
    let mut m: KeyedMap<bool> = KeyedMap::new();
    let mut i: usize = 0;
    while i < dirs.len()
        invariant
            i <= dirs@.len(),
            forall|p: Seq<char>| #[trigger] m@.dom().contains(p) <==> exists|a: int, b: int|
                0 <= a < i && #[trigger] profile_file_at(dirs@, a, b) == Some(p),
        decreases dirs@.len() - i,
    {
        if let Some(entries) = &dirs[i].1 {
            let mut j: usize = 0;
            while j < entries.len()
                invariant
                    i < dirs@.len(),
                    j <= entries@.len(),
                    dirs@[i as int].1 == Some(*entries),
                    forall|p: Seq<char>| #[trigger] m@.dom().contains(p) <==> (exists|a: int, b: int|
                        0 <= a < i && #[trigger] profile_file_at(dirs@, a, b) == Some(p))
                        || exists|b: int| 0 <= b < j && #[trigger] profile_file_at(dirs@, i as int, b) == Some(p),
                decreases entries@.len() - j,
            {
                let ghost before = m@;
                if extension_is(entries[j].as_str(), "mobileprovision") {
                    m.insert(path_join(dirs[i].0.as_str(), entries[j].as_str()), true);
                }
                proof {
                    assert forall|p: Seq<char>| #[trigger] m@.dom().contains(p) <==> (exists|a: int, b: int|
                        0 <= a < i && #[trigger] profile_file_at(dirs@, a, b) == Some(p))
                        || exists|b: int| 0 <= b < j + 1 && #[trigger] profile_file_at(dirs@, i as int, b) == Some(p) by {
                        if exists|b: int| 0 <= b < j + 1 && #[trigger] profile_file_at(dirs@, i as int, b) == Some(p) {
                            let b = choose|b: int| 0 <= b < j + 1 && #[trigger] profile_file_at(dirs@, i as int, b) == Some(p);
                            if b < j {
                                assert(before.dom().contains(p));
                            }
                        }
                        if m@.dom().contains(p) && !before.dom().contains(p) {
                            assert(profile_file_at(dirs@, i as int, j as int) == Some(p));
                        }
                    }
                }
                j = j + 1;
            }
            proof {
                assert forall|p: Seq<char>| #[trigger] m@.dom().contains(p) <==> exists|a: int, b: int|
                    0 <= a < i + 1 && #[trigger] profile_file_at(dirs@, a, b) == Some(p) by {
                    if exists|a: int, b: int| 0 <= a < i + 1 && #[trigger] profile_file_at(dirs@, a, b) == Some(p) {
                        let (a, b) = choose|a: int, b: int| 0 <= a < i + 1 && #[trigger] profile_file_at(dirs@, a, b) == Some(p);
                        if a == i {
                            assert(0 <= b < j);
                        }
                    }
                }
            }
        } else {
            proof {
                assert forall|p: Seq<char>| #[trigger] m@.dom().contains(p) <==> exists|a: int, b: int|
                    0 <= a < i + 1 && #[trigger] profile_file_at(dirs@, a, b) == Some(p) by {
                    if exists|a: int, b: int| 0 <= a < i + 1 && #[trigger] profile_file_at(dirs@, a, b) == Some(p) {
                        let (a, b) = choose|a: int, b: int| 0 <= a < i + 1 && #[trigger] profile_file_at(dirs@, a, b) == Some(p);
                        assert(a != i);
                    }
                }
            }
        }
        i = i + 1;
    }
    let r = m.keys();
    proof {
        assert(string_views(r@) =~= m.key_seq());
        assert forall|p: Seq<char>| #[trigger] string_views(r@).contains(p) <==> m@.dom().contains(p) by {
            if string_views(r@).contains(p) {
                let q = choose|q: int| 0 <= q < string_views(r@).len() && string_views(r@)[q] == p;
                assert(r@[q]@ == p);
            }
            if m@.dom().contains(p) {
                let q = choose|q: int| 0 <= q < r@.len() && #[trigger] r@[q]@ == p;
                assert(string_views(r@)[q] == p);
            }
        }
    }
    r
}

} // verus!
