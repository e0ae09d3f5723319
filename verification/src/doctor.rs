//! The environment check: which facts about the configuration, Xcode,
//! signing identities, profiles and devices are reported, with what status,
//! and how many failures and warnings there are.

use vstd::prelude::*;
use crate::config::Config;
use crate::decimal::{decimal, u64_to_decimal};
use crate::device::{Device, DeviceState};
use crate::lines::{trim, trimmed};
use crate::sign::{ProvisioningProfileInspection, SigningIdentity};
use crate::text::{concat, has_substring, starts_with, str_contains, str_starts_with};

verus! {

/// One reported fact: a status (`PASS`, `WARN`, `FAIL` or `INFO`), a label
/// and a detail.
#[derive(Debug, Clone)]
pub struct DoctorLine {
    pub status: &'static str,
    pub label: String,
    pub detail: String,
}

/// The facts of one topic.
#[derive(Debug, Clone)]
pub struct DoctorSection {
    pub title: &'static str,
    pub lines: Vec<DoctorLine>,
}

/// The whole check, with the numbers of failures and warnings.
#[derive(Debug, Clone)]
pub struct DoctorReport {
    pub sections: Vec<DoctorSection>,
    pub failures: usize,
    pub warnings: usize,
}

/// A fact as text: status, label and detail.
pub type LineView = (Seq<char>, Seq<char>, Seq<char>);

/// A topic as text: title and facts.
pub type SectionView = (Seq<char>, Seq<LineView>);

/// The text of a fact.
pub open spec fn line_view(l: DoctorLine) -> LineView {
    (l.status@, l.label@, l.detail@)
}

/// The text of the facts of a topic.
pub open spec fn lines_view(ls: Seq<DoctorLine>) -> Seq<LineView> {
    Seq::new(ls.len(), |i: int| line_view(ls[i]))
}

/// The text of the topics.
pub open spec fn sections_view(ss: Seq<DoctorSection>) -> Seq<SectionView> {
    Seq::new(ss.len(), |i: int| (ss[i].title@, lines_view(ss[i].lines@)))
}

/// Position of the first topic with the title.
pub open spec fn section_index(ss: Seq<SectionView>, title: Seq<char>, i: int) -> Option<int>
    decreases ss.len() - i,
{
    if i < 0 || i >= ss.len() {
        None
    } else if ss[i].0 == title {
        Some(i)
    } else {
        section_index(ss, title, i + 1)
    }
}

/// The topics after reporting a fact under a title: added to the first
/// topic with that title, or as a new last topic.
pub open spec fn add_line(ss: Seq<SectionView>, title: Seq<char>, l: LineView) -> Seq<SectionView> {
    match section_index(ss, title, 0) {
        Some(k) => ss.update(k, (title, ss[k].1.push(l))),
        None => ss.push((title, seq![l])),
    }
}

/// The topics that reporting the facts in order gives.
pub open spec fn grouped(facts: Seq<(Seq<char>, LineView)>) -> Seq<SectionView>
    decreases facts.len(),
{
    if facts.len() == 0 {
        Seq::empty()
    } else {
        add_line(grouped(facts.drop_last()), facts.last().0, facts.last().1)
    }
}

/// Number of facts with the status among the lines.
pub open spec fn count_in_lines(ls: Seq<LineView>, status: Seq<char>) -> nat
    decreases ls.len(),
{
    if ls.len() == 0 {
        0
    } else {
        count_in_lines(ls.drop_last(), status) + if ls.last().0 == status { 1nat } else { 0nat }
    }
}

/// Number of facts with the status in all topics.
pub open spec fn count_status(ss: Seq<SectionView>, status: Seq<char>) -> nat
    decreases ss.len(),
{
    if ss.len() == 0 {
        0
    } else {
        count_status(ss.drop_last(), status) + count_in_lines(ss.last().1, status)
    }
}

proof fn lemma_count_update(ss: Seq<SectionView>, k: int, x: SectionView, status: Seq<char>)
    requires
        0 <= k < ss.len(),
    ensures
        count_status(ss.update(k, x), status) == count_status(ss, status) - count_in_lines(ss[k].1, status)
            + count_in_lines(x.1, status),
    decreases ss.len(),
{
    if k < ss.len() - 1 {
        assert(ss.update(k, x).drop_last() =~= ss.drop_last().update(k, x));
        lemma_count_update(ss.drop_last(), k, x, status);
    } else {
        assert(ss.update(k, x).drop_last() =~= ss.drop_last());
    }
}

proof fn lemma_section_index(ss: Seq<SectionView>, title: Seq<char>, i: int)
    ensures
        section_index(ss, title, i) matches Some(k) ==> i <= k < ss.len() && ss[k].0 == title,
    decreases ss.len() - i,
{
    if 0 <= i < ss.len() && ss[i].0 != title {
        lemma_section_index(ss, title, i + 1);
    }
}

/// Reporting a fact adds one to the count of its status and nothing to the
/// others.
pub proof fn lemma_add_line_counts(ss: Seq<SectionView>, title: Seq<char>, l: LineView, status: Seq<char>)
    ensures
        count_status(add_line(ss, title, l), status) == count_status(ss, status) + if l.0 == status { 1nat } else { 0nat },
{
    lemma_section_index(ss, title, 0);
    let inc: nat = if l.0 == status { 1nat } else { 0nat };
    match section_index(ss, title, 0) {
        Some(k) => {
            let x = (title, ss[k].1.push(l));
            lemma_count_update(ss, k, x, status);
            assert(ss[k].1.push(l).drop_last() =~= ss[k].1);
            assert(ss[k].1.push(l).last() == l);
            assert(count_in_lines(x.1, status) == count_in_lines(ss[k].1, status) + inc);
            assert(add_line(ss, title, l) == ss.update(k, x));
        },
        None => {
            let y = ss.push((title, seq![l]));
            assert(y.drop_last() =~= ss);
            assert(seq![l].drop_last() =~= Seq::<LineView>::empty());
            assert(count_in_lines(Seq::<LineView>::empty(), status) == 0);
            assert(count_in_lines(seq![l], status) == inc);
            assert(y.last() == (title, seq![l]));
            assert(count_status(y, status) == count_status(ss, status) + count_in_lines(seq![l], status));
        },
    }
}

/// No title names two topics.
pub open spec fn distinct_titles(ss: Seq<SectionView>) -> bool {
    forall|i: int, j: int| 0 <= i < j < ss.len() ==> #[trigger] ss[i].0 != #[trigger] ss[j].0
}

/// Reporting a fact keeps the titles distinct and in order of first use: a
/// fact under a new title opens a last topic holding it alone; otherwise the
/// topic with that title gets it as its last fact and every other topic
/// stays as it was.
pub proof fn lemma_add_line_shape(ss: Seq<SectionView>, title: Seq<char>, l: LineView)
    requires
        distinct_titles(ss),
    ensures
        distinct_titles(add_line(ss, title, l)),
        (forall|i: int| 0 <= i < ss.len() ==> #[trigger] ss[i].0 != title) ==> add_line(ss, title, l) == ss.push((title, seq![l])),
        forall|k: int| 0 <= k < ss.len() && #[trigger] ss[k].0 == title ==> {
            &&& add_line(ss, title, l).len() == ss.len()
            &&& add_line(ss, title, l)[k] == (title, ss[k].1.push(l))
            &&& forall|j: int| 0 <= j < ss.len() && j != k ==> #[trigger] add_line(ss, title, l)[j] == ss[j]
        },
{
    lemma_section_index(ss, title, 0);
    lemma_section_index_first(ss, title, 0);
    let r = add_line(ss, title, l);
    match section_index(ss, title, 0) {
        Some(k) => {
            assert forall|i: int, j: int| 0 <= i < j < r.len() implies #[trigger] r[i].0 != #[trigger] r[j].0 by {
                assert(r[i].0 == ss[i].0);
                assert(r[j].0 == ss[j].0);
            }
        },
        None => {
            assert forall|i: int, j: int| 0 <= i < j < r.len() implies #[trigger] r[i].0 != #[trigger] r[j].0 by {
                if j == ss.len() {
                    assert(r[i] == ss[i]);
                } else {
                    assert(r[i] == ss[i] && r[j] == ss[j]);
                }
            }
        },
    }
}

proof fn lemma_section_index_first(ss: Seq<SectionView>, title: Seq<char>, i: int)
    requires
        0 <= i,
    ensures
        section_index(ss, title, i) is None ==> forall|j: int| i <= j < ss.len() ==> #[trigger] ss[j].0 != title,
        section_index(ss, title, i) matches Some(k) ==> forall|j: int| i <= j < k ==> #[trigger] ss[j].0 != title,
    decreases ss.len() - i,
{
    if i < ss.len() && ss[i].0 != title {
        lemma_section_index_first(ss, title, i + 1);
    }
}

/// Collects facts into topics, counting failures and warnings.
pub struct DoctorAccumulator {
    sections: Vec<DoctorSection>,
    failures: usize,
    warnings: usize,
}

impl DoctorAccumulator {
    /// The topics so far, as text.
    pub closed spec fn sections_spec(&self) -> Seq<SectionView> {
        sections_view(self.sections@)
    }

    /// The counts are those of the facts reported so far.
    pub closed spec fn wf(&self) -> bool {
        &&& distinct_titles(sections_view(self.sections@))
        &&& self.failures == count_status(sections_view(self.sections@), "FAIL"@)
        &&& self.warnings == count_status(sections_view(self.sections@), "WARN"@)
    }

    /// The number of failures reported so far.
    pub closed spec fn failures_spec(&self) -> nat {
        self.failures as nat
    }

    /// The number of warnings reported so far.
    pub closed spec fn warnings_spec(&self) -> nat {
        self.warnings as nat
    }

    /// The number of failures and warnings reported so far.
    pub closed spec fn reported(&self) -> nat {
        (self.failures + self.warnings) as nat
    }

    /// No fact yet.
    pub fn new() -> (r: Self)
        ensures
            r.wf(),
            r.sections_spec() == Seq::<SectionView>::empty(),
            r.reported() == 0,
            r.failures_spec() == 0,
            r.warnings_spec() == 0,
    {
        let r = DoctorAccumulator { sections: Vec::new(), failures: 0, warnings: 0 };
        assert(sections_view(r.sections@) =~= Seq::<SectionView>::empty());
        r
    }

    /// Reports a fact under a title.
    pub fn line(&mut self, title: &'static str, status: &'static str, label: &str, detail: String)
        requires
            old(self).wf(),
            old(self).reported() + 1 <= usize::MAX,
        ensures
            final(self).wf(),
            final(self).sections_spec() == add_line(old(self).sections_spec(), title@, (status@, label@, detail@)),
            distinct_titles(final(self).sections_spec()),
            final(self).reported() == old(self).reported() + if status@ == "FAIL"@ || status@ == "WARN"@ { 1nat } else { 0nat },
            final(self).failures_spec() == old(self).failures_spec() + if status@ == "FAIL"@ { 1nat } else { 0nat },
            final(self).warnings_spec() == old(self).warnings_spec() + if status@ == "WARN"@ { 1nat } else { 0nat },
    {
        proof {
            lemma_add_line_shape(sections_view(self.sections@), title@, (status@, label@, detail@));
            lemma_add_line_counts(sections_view(self.sections@), title@, (status@, label@, detail@), "FAIL"@);
            lemma_add_line_counts(sections_view(self.sections@), title@, (status@, label@, detail@), "WARN"@);
            reveal_strlit("FAIL");
            reveal_strlit("WARN");
            assert("FAIL"@[0] != "WARN"@[0]);
            assert("FAIL"@ != "WARN"@);
        }
        let is_fail = crate::text::str_eq(status, "FAIL");
        let is_warn = crate::text::str_eq(status, "WARN");
        let ghost ss = sections_view(self.sections@);
        let mut pos: Option<usize> = None;
        let mut i: usize = 0;
        while i < self.sections.len()
            invariant_except_break
                pos is None,
                section_index(ss, title@, 0) == section_index(ss, title@, i as int),
            invariant
                i <= self.sections@.len(),
                ss == sections_view(self.sections@),
            ensures
                pos matches Some(k) ==> k < self.sections@.len() && section_index(ss, title@, 0) == Some(k as int),
                pos is None ==> section_index(ss, title@, 0) is None,
            decreases self.sections@.len() - i,
        {
            if crate::text::str_eq(self.sections[i].title, title) {
                pos = Some(i);
                break;
            }
            i = i + 1;
        }
        let new_line = DoctorLine { status, label: label.to_string(), detail };
        match pos {
            Some(k) => {
                let ghost before = self.sections@;
                proof {
                    lemma_section_index(ss, title@, 0);
                }
                let mut sec = self.sections.remove(k);
                assert(sec == before[k as int]);
                let ghost old_lines = sec.lines@;
                sec.lines.push(new_line);
                proof {
                    assert(lines_view(sec.lines@) =~= lines_view(old_lines).push((status@, label@, detail@)));
                }
                let ghost new_sec = sec;
                self.sections.insert(k, sec);
                proof {
                    assert(self.sections@ =~= before.update(k as int, new_sec));
                    assert(ss[k as int].1 == lines_view(old_lines));
                    assert(sections_view(self.sections@) =~= ss.update(k as int, (title@, ss[k as int].1.push((status@, label@, detail@)))));
                }
            },
            None => {
                let mut lines = Vec::new();
                lines.push(new_line);
                self.sections.push(DoctorSection { title, lines });
                proof {
                    assert(lines_view(lines@) =~= seq![(status@, label@, detail@)]);
                    assert(sections_view(self.sections@) =~= ss.push((title@, seq![(status@, label@, detail@)])));
                }
            },
        }
        if is_fail {
            self.failures = self.failures + 1;
        } else if is_warn {
            self.warnings = self.warnings + 1;
        }
    }

    /// The report of the facts collected.
    pub fn finish(self) -> (r: DoctorReport)
        requires
            self.wf(),
        ensures
            sections_view(r.sections@) == self.sections_spec(),
            r.failures == count_status(self.sections_spec(), "FAIL"@),
            r.warnings == count_status(self.sections_spec(), "WARN"@),
            r.failures == self.failures_spec(),
            r.warnings == self.warnings_spec(),
    {
        DoctorReport { sections: self.sections, failures: self.failures, warnings: self.warnings }
    }
}

/// A fact under a title.
pub type Fact = (Seq<char>, LineView);

/// A fact under a title, from its parts.
pub open spec fn fact(title: Seq<char>, status: Seq<char>, label: Seq<char>, detail: Seq<char>) -> Fact {
    (title, (status, label, detail))
}

/// What the check found on the machine, gathered by its caller.
#[derive(Debug)]
pub struct DoctorFacts {
    /// Where the configuration file is, and whether it exists.
    pub config_path: String,
    pub config_exists: bool,
    /// The output of `xcode-select -p`, or why it failed.
    pub xcode_select: Result<String, String>,
    /// The output of `xcodebuild -version`, or why it failed.
    pub xcodebuild: Result<String, String>,
    /// The signing identities, or why they could not be listed.
    pub identities: Result<Vec<SigningIdentity>, String>,
    /// The profile directories that exist, with their numbers of profiles.
    pub profile_dirs: Vec<(String, usize)>,
    /// The inspected profiles, or why they could not be read.
    pub inspections: Result<Vec<ProvisioningProfileInspection>, String>,
    /// The devices, or why they could not be listed.
    pub devices: Result<Vec<Device>, String>,
}

/// An optional text, or `<unset>`.
pub open spec fn or_unset(o: Option<String>) -> Seq<char> {
    match o {
        Some(v) => v@,
        None => "<unset>"@,
    }
}

/// The facts about the configuration.
pub open spec fn config_facts(f: DoctorFacts, config: Config) -> Seq<Fact> {
    seq![
        fact("Config"@, if f.config_exists { "PASS"@ } else { "WARN"@ }, "config file"@,
            f.config_path@ + if f.config_exists { Seq::empty() } else { " (not created yet)"@ }),
        fact("Config"@, "INFO"@, "stored here"@, "defaults, device aliases, projects, temp_bundle_prefix, team_id"@),
        fact("Config"@, if config.signing.team_id is Some { "PASS"@ } else { "FAIL"@ }, "team_id"@, or_unset(config.signing.team_id)),
        fact("Config"@, if config.signing.temp_bundle_prefix is Some { "PASS"@ } else { "WARN"@ }, "temp_bundle_prefix"@,
            or_unset(config.signing.temp_bundle_prefix)),
        fact("Config"@, "INFO"@, "default_device"@, or_unset(config.defaults.device)),
        fact("Config"@, "INFO"@, "default_project"@, or_unset(config.defaults.project)),
    ]
}

/// The fact about one Xcode tool.
pub open spec fn tool_fact(label: Seq<char>, out: Result<String, String>) -> Fact {
    match out {
        Ok(o) => fact("Xcode"@, "PASS"@, label, trimmed(o@)),
        Err(e) => fact("Xcode"@, "FAIL"@, label, e@),
    }
}

/// Number of identities whose name mentions the team in parentheses.
pub open spec fn team_identities(ids: Seq<SigningIdentity>, team: Seq<char>) -> nat
    decreases ids.len(),
{
    if ids.len() == 0 {
        0
    } else {
        team_identities(ids.drop_last(), team) + if has_substring(ids.last().name@, "("@ + team + ")"@) { 1nat } else { 0nat }
    }
}

/// The facts about signing identities.
pub open spec fn identity_facts(f: DoctorFacts, config: Config) -> Seq<Fact> {
    match f.identities {
        Ok(ids) => seq![fact("Signing Identities"@, "PASS"@, "codesigning identities"@, decimal(ids@.len()) + " found"@)]
            + match config.signing.team_id {
                Some(t) => {
                    let m = team_identities(ids@, t@);
                    if m == 0 {
                        seq![fact("Signing Identities"@, "FAIL"@, "team match"@,
                            "no signing identity matches team_id '"@ + t@ + "'"@)]
                    } else {
                        seq![fact("Signing Identities"@, "PASS"@, "team match"@,
                            decimal(m) + " identity(ies) match '"@ + t@ + "'"@)]
                    }
                },
                None => Seq::empty(),
            },
        Err(e) => seq![fact("Signing Identities"@, "FAIL"@, "codesigning identities"@, e@)],
    }
}

/// The facts about the profile directories.
pub open spec fn dir_facts(f: DoctorFacts) -> Seq<Fact> {
    let ds = f.profile_dirs@;
    if ds.len() == 0 {
        seq![fact("Provisioning Cache"@, "WARN"@, "profile dirs"@, "<none>"@)]
    } else {
        Seq::new(ds.len(), |i: int| fact("Provisioning Cache"@, "INFO"@, "profile dir"@,
            ds[i].0@ + " ("@ + decimal(ds[i].1 as nat) + " files)"@))
            + seq![fact("Provisioning Cache"@, "INFO"@, "stored here"@, "downloaded Xcode provisioning profiles"@)]
    }
}

/// Number of inspections that gave a profile.
pub open spec fn parsed_count(ins: Seq<ProvisioningProfileInspection>) -> nat
    decreases ins.len(),
{
    if ins.len() == 0 { 0 } else { parsed_count(ins.drop_last()) + if ins.last().profile is Some { 1nat } else { 0nat } }
}

/// Number of inspections that gave a temporary profile (made under the
/// prefix).
pub open spec fn temp_count(ins: Seq<ProvisioningProfileInspection>, prefix: Seq<char>) -> nat
    decreases ins.len(),
{
    if ins.len() == 0 {
        0
    } else {
        temp_count(ins.drop_last(), prefix) + match ins.last().profile {
            Some(p) => if starts_with(p.bundle_id_pattern@, prefix) { 1nat } else { 0nat },
            None => 0nat,
        }
    }
}

/// The inspection gave a profile whose bundle identifier pattern is
/// `prefix` followed by anything.
pub open spec fn made_under(prefix: Seq<char>) -> spec_fn(ProvisioningProfileInspection) -> bool {
    |x: ProvisioningProfileInspection| match x.profile {
        Some(p) => exists|rest: Seq<char>| p.bundle_id_pattern@ == prefix + rest,
        None => false,
    }
}

/// The number of temporary profiles reported is the number of inspections
/// that gave a profile made under the prefix: one profile under the prefix
/// counts one, and profiles elsewhere count nothing.
pub proof fn lemma_temp_count_meaning(ins: Seq<ProvisioningProfileInspection>, prefix: Seq<char>)
    ensures
        temp_count(ins, prefix) == ins.filter(made_under(prefix)).len(),
    decreases ins.len(),
{
    if ins.len() == 0 {
        reveal(Seq::filter);
    } else {
        let init = ins.drop_last();
        lemma_temp_count_meaning(init, prefix);
        assert(ins =~= init.push(ins.last()));
        init.lemma_filter_push(ins.last(), made_under(prefix));
        if let Some(p) = ins.last().profile {
            crate::text::lemma_starts_with_split(p.bundle_id_pattern@, prefix);
        }
    }
}

/// The facts about the profiles that could not be read.
pub open spec fn failed_facts(ins: Seq<ProvisioningProfileInspection>) -> Seq<Fact>
    decreases ins.len(),
{
    if ins.len() == 0 {
        Seq::empty()
    } else {
        failed_facts(ins.drop_last()) + if ins.last().profile is None {
            seq![fact("Provisioning Cache"@, "WARN"@, "parse failed"@,
                ins.last().path@ + " -> "@ + match ins.last().error { Some(e) => e@, None => "unknown error"@ })]
        } else {
            Seq::empty()
        }
    }
}

/// The facts about the profiles.
pub open spec fn inspection_facts(f: DoctorFacts, config: Config) -> Seq<Fact> {
    match f.inspections {
        Ok(ins) => {
            let p = parsed_count(ins@);
            let failed = (ins@.len() - p) as nat;
            seq![fact("Provisioning Cache"@, if p == 0 { "WARN"@ } else { "PASS"@ }, "parsed profiles"@,
                decimal(p) + " parsed, "@ + decimal(failed) + " failed"@)]
                + failed_facts(ins@)
                + match config.signing.temp_bundle_prefix {
                    Some(x) => {
                        let t = temp_count(ins@, x@);
                        seq![fact("Provisioning Cache"@, if t > 0 { "PASS"@ } else { "WARN"@ }, "temp profiles"@,
                            decimal(t) + " matching prefix '"@ + x@ + "'"@)]
                    },
                    None => Seq::empty(),
                }
        },
        Err(e) => seq![fact("Provisioning Cache"@, "WARN"@, "parsed profiles"@, e@)],
    }
}

/// Number of connected devices.
pub open spec fn connected_count(ds: Seq<Device>) -> nat
    decreases ds.len(),
{
    if ds.len() == 0 { 0 } else { connected_count(ds.drop_last()) + if ds.last().state is Connected { 1nat } else { 0nat } }
}

/// The facts about devices.
pub open spec fn device_facts(f: DoctorFacts) -> Seq<Fact> {
    match f.devices {
        Ok(ds) => seq![fact("Devices"@, "PASS"@, "connected devices"@,
            decimal(connected_count(ds@)) + " of "@ + decimal(ds@.len()) + " detected"@)],
        Err(e) => seq![fact("Devices"@, "WARN"@, "connected devices"@, e@)],
    }
}

/// Every fact the check reports, in order.
pub open spec fn doctor_facts(f: DoctorFacts, config: Config) -> Seq<Fact> {
    config_facts(f, config) + seq![tool_fact("xcode-select"@, f.xcode_select), tool_fact("xcodebuild"@, f.xcodebuild)]
        + identity_facts(f, config) + dir_facts(f) + inspection_facts(f, config) + device_facts(f)
}

/// The accumulator holds the topics of the facts `log`.
pub open spec fn holds(acc: DoctorAccumulator, log: Seq<Fact>) -> bool {
    &&& acc.wf()
    &&& acc.sections_spec() == grouped(log)
    &&& acc.reported() <= log.len()
}

fn report(acc: &mut DoctorAccumulator, Ghost(log): Ghost<Seq<Fact>>, title: &'static str, status: &'static str, label: &str, detail: String)
    requires
        holds(*old(acc), log),
        log.len() + 1 <= usize::MAX,
    ensures
        holds(*final(acc), log.push(fact(title@, status@, label@, detail@))),
{
    let ghost d = detail@;
    acc.line(title, status, label, detail);
    assert(log.push(fact(title@, status@, label@, d)).drop_last() =~= log);
}

fn or_unset_text(o: &Option<String>) -> (r: String)
    ensures
        r@ == or_unset(*o),
{
    match o {
        Some(v) => v.clone(),
        None => "<unset>".to_string(),
    }
}

fn report_config(acc: &mut DoctorAccumulator, Ghost(log): Ghost<Seq<Fact>>, f: &DoctorFacts, config: &Config)
    requires
        holds(*old(acc), log),
        log.len() + 6 <= usize::MAX,
    ensures
        holds(*final(acc), log + config_facts(*f, *config)),
{
    let mut detail = f.config_path.clone();
    if !f.config_exists {
        detail.append(" (not created yet)");
    }
    assert(detail@ =~= f.config_path@ + if f.config_exists { Seq::empty() } else { " (not created yet)"@ });
    let ghost l0 = log;
    report(acc, Ghost(l0), "Config", if f.config_exists { "PASS" } else { "WARN" }, "config file", detail);
    let ghost l1 = l0.push(config_facts(*f, *config)[0]);
    report(acc, Ghost(l1), "Config", "INFO", "stored here", "defaults, device aliases, projects, temp_bundle_prefix, team_id".to_string());
    let ghost l2 = l1.push(config_facts(*f, *config)[1]);
    report(acc, Ghost(l2), "Config", if config.signing.team_id.is_some() { "PASS" } else { "FAIL" }, "team_id",
        or_unset_text(&config.signing.team_id));
    let ghost l3 = l2.push(config_facts(*f, *config)[2]);
    report(acc, Ghost(l3), "Config", if config.signing.temp_bundle_prefix.is_some() { "PASS" } else { "WARN" },
        "temp_bundle_prefix", or_unset_text(&config.signing.temp_bundle_prefix));
    let ghost l4 = l3.push(config_facts(*f, *config)[3]);
    report(acc, Ghost(l4), "Config", "INFO", "default_device", or_unset_text(&config.defaults.device));
    let ghost l5 = l4.push(config_facts(*f, *config)[4]);
    report(acc, Ghost(l5), "Config", "INFO", "default_project", or_unset_text(&config.defaults.project));
    assert(l5.push(config_facts(*f, *config)[5]) =~= log + config_facts(*f, *config));
}

fn report_tool(acc: &mut DoctorAccumulator, Ghost(log): Ghost<Seq<Fact>>, label: &str, out: &Result<String, String>)
    requires
        holds(*old(acc), log),
        log.len() + 1 <= usize::MAX,
    ensures
        holds(*final(acc), log.push(tool_fact(label@, *out))),
{
    match out {
        Ok(o) => report(acc, Ghost(log), "Xcode", "PASS", label, trim(o.as_str())),
        Err(e) => report(acc, Ghost(log), "Xcode", "FAIL", label, e.clone()),
    }
}

fn count_team_identities(ids: &[SigningIdentity], team: &str) -> (n: u64)
    ensures
        n == team_identities(ids@, team@),
{
    let mut pat = "(".to_string();
    pat.append(team);
    pat.append(")");
    let mut n: u64 = 0;
    let mut i: usize = 0;
    while i < ids.len()
        invariant
            i <= ids@.len(),
            ids@.len() == ids.len(),
            pat@ == "("@ + team@ + ")"@,
            n == team_identities(ids@.subrange(0, i as int), team@),
            n <= i,
        decreases ids@.len() - i,
    {
        assert(ids@.subrange(0, i + 1).drop_last() =~= ids@.subrange(0, i as int));
        assert(ids@.subrange(0, i + 1).last() == ids@[i as int]);
        if str_contains(ids[i].name.as_str(), pat.as_str()) {
            n = n + 1;
        }
        i = i + 1;
    }
    assert(ids@.subrange(0, ids@.len() as int) =~= ids@);
    n
}

fn report_identities(acc: &mut DoctorAccumulator, Ghost(log): Ghost<Seq<Fact>>, f: &DoctorFacts, config: &Config)
    requires
        holds(*old(acc), log),
        log.len() + 2 <= usize::MAX,
    ensures
        holds(*final(acc), log + identity_facts(*f, *config)),
{
    match &f.identities {
        Ok(ids) => {
            let mut d = u64_to_decimal(ids.len() as u64);
            d.append(" found");
            report(acc, Ghost(log), "Signing Identities", "PASS", "codesigning identities", d);
            let ghost l1 = log.push(identity_facts(*f, *config)[0]);
            match &config.signing.team_id {
                Some(t) => {
                    let m = count_team_identities(ids.as_slice(), t.as_str());
                    if m == 0 {
                        let mut d = "no signing identity matches team_id '".to_string();
                        d.append(t.as_str());
                        d.append("'");
                        report(acc, Ghost(l1), "Signing Identities", "FAIL", "team match", d);
                    } else {
                        let mut d = u64_to_decimal(m);
                        d.append(" identity(ies) match '");
                        d.append(t.as_str());
                        d.append("'");
                        report(acc, Ghost(l1), "Signing Identities", "PASS", "team match", d);
                    }
                    assert(l1.push(identity_facts(*f, *config)[1]) =~= log + identity_facts(*f, *config));
                },
                None => {
                    assert(l1 =~= log + identity_facts(*f, *config));
                },
            }
        },
        Err(e) => {
            report(acc, Ghost(log), "Signing Identities", "FAIL", "codesigning identities", e.clone());
            assert(log.push(identity_facts(*f, *config)[0]) =~= log + identity_facts(*f, *config));
        },
    }
}

fn report_dirs(acc: &mut DoctorAccumulator, Ghost(log): Ghost<Seq<Fact>>, f: &DoctorFacts)
    requires
        holds(*old(acc), log),
        log.len() + dir_facts(*f).len() <= usize::MAX,
    ensures
        holds(*final(acc), log + dir_facts(*f)),
{
    let ds = &f.profile_dirs;
    if ds.len() == 0 {
        report(acc, Ghost(log), "Provisioning Cache", "WARN", "profile dirs", "<none>".to_string());
        assert(log.push(dir_facts(*f)[0]) =~= log + dir_facts(*f));
        return;
    }
    let ghost all = dir_facts(*f);
    let mut i: usize = 0;
    while i < ds.len()
        invariant
            i <= ds@.len(),
            ds@.len() > 0,
            all == dir_facts(*f),
            *ds == f.profile_dirs,
            all.len() == ds@.len() + 1,
            log.len() + all.len() <= usize::MAX,
            holds(*acc, log + all.subrange(0, i as int)),
        decreases ds@.len() - i,
    {
        let (path, count) = &ds[i];
        let mut d = path.clone();
        d.append(" (");
        d.append(u64_to_decimal(*count as u64).as_str());
        d.append(" files)");
        report(acc, Ghost(log + all.subrange(0, i as int)), "Provisioning Cache", "INFO", "profile dir", d);
        assert((log + all.subrange(0, i as int)).push(all[i as int]) =~= log + all.subrange(0, i + 1));
        i = i + 1;
    }
    report(acc, Ghost(log + all.subrange(0, i as int)), "Provisioning Cache", "INFO", "stored here",
        "downloaded Xcode provisioning profiles".to_string());
    assert((log + all.subrange(0, i as int)).push(all[i as int]) =~= log + all);
}

pub(crate) fn count_parsed(ins: &[ProvisioningProfileInspection], prefix: Option<&str>) -> (r: (u64, u64))
    ensures
        r.0 == parsed_count(ins@),
        prefix matches Some(x) ==> r.1 == temp_count(ins@, x@),
        r.0 <= ins@.len(),
{
    let mut parsed: u64 = 0;
    let mut temp: u64 = 0;
    let mut i: usize = 0;
    while i < ins.len()
        invariant
            i <= ins@.len(),
            ins@.len() == ins.len(),
            parsed == parsed_count(ins@.subrange(0, i as int)),
            prefix matches Some(x) ==> temp == temp_count(ins@.subrange(0, i as int), x@),
            parsed <= i,
            temp <= i,
        decreases ins@.len() - i,
    {
        assert(ins@.subrange(0, i + 1).drop_last() =~= ins@.subrange(0, i as int));
        assert(ins@.subrange(0, i + 1).last() == ins@[i as int]);
        if let Some(p) = &ins[i].profile {
            parsed = parsed + 1;
            if let Some(x) = prefix {
                if str_starts_with(p.bundle_id_pattern.as_str(), x) {
                    temp = temp + 1;
                }
            }
        }
        i = i + 1;
    }
    assert(ins@.subrange(0, ins@.len() as int) =~= ins@);
    (parsed, temp)
}

proof fn lemma_failed_prefix(ins: Seq<ProvisioningProfileInspection>, k: int)
    requires
        0 <= k <= ins.len(),
    ensures
        failed_facts(ins.subrange(0, k)).len() <= failed_facts(ins).len(),
    decreases ins.len(),
{
    if k == ins.len() {
        assert(ins.subrange(0, k) =~= ins);
    } else {
        assert(ins.drop_last().subrange(0, k) =~= ins.subrange(0, k));
        lemma_failed_prefix(ins.drop_last(), k);
    }
}

proof fn lemma_failed_facts_len(ins: Seq<ProvisioningProfileInspection>)
    ensures
        failed_facts(ins).len() == ins.len() - parsed_count(ins),
        parsed_count(ins) <= ins.len(),
    decreases ins.len(),
{
    if ins.len() > 0 {
        lemma_failed_facts_len(ins.drop_last());
    }
}

fn report_inspections(acc: &mut DoctorAccumulator, Ghost(log): Ghost<Seq<Fact>>, f: &DoctorFacts, config: &Config)
    requires
        holds(*old(acc), log),
        log.len() + inspection_facts(*f, *config).len() <= usize::MAX,
    ensures
        holds(*final(acc), log + inspection_facts(*f, *config)),
{
    match &f.inspections {
        Ok(ins) => {
            let prefix = match &config.signing.temp_bundle_prefix {
                Some(x) => Some(x.as_str()),
                None => None,
            };
            let (parsed, temp) = count_parsed(ins.as_slice(), prefix);
            let failed = ins.len() as u64 - parsed;
            let mut d = u64_to_decimal(parsed);
            d.append(" parsed, ");
            d.append(u64_to_decimal(failed).as_str());
            d.append(" failed");
            let ghost all = inspection_facts(*f, *config);
            proof {
                lemma_failed_facts_len(ins@);
            }
            report(acc, Ghost(log), "Provisioning Cache", if parsed == 0 { "WARN" } else { "PASS" }, "parsed profiles", d);
            let ghost l1 = log.push(all[0]);
            assert(all.len() >= 1 + failed_facts(ins@).len());
            assert(ins@.subrange(0, 0) =~= Seq::<ProvisioningProfileInspection>::empty());
            assert(l1 + failed_facts(ins@.subrange(0, 0)) =~= l1);
            let mut i: usize = 0;
            while i < ins.len()
                invariant
                    i <= ins@.len(),
                    f.inspections matches Ok(v) && v@ == ins@,
                    all == inspection_facts(*f, *config),
                    l1 == log.push(all[0]),
                    log.len() + all.len() <= usize::MAX,
                    holds(*acc, l1 + failed_facts(ins@.subrange(0, i as int))),
                    all.len() >= 1 + failed_facts(ins@).len(),
                decreases ins@.len() - i,
            {
                proof {
                    lemma_failed_prefix(ins@, i + 1);
                }
                assert(ins@.subrange(0, i + 1).drop_last() =~= ins@.subrange(0, i as int));
                assert(ins@.subrange(0, i + 1).last() == ins@[i as int]);
                let item = &ins[i];
                if item.profile.is_none() {
                    let mut d = item.path.clone();
                    d.append(" -> ");
                    match &item.error {
                        Some(e) => d.append(e.as_str()),
                        None => d.append("unknown error"),
                    }
                    report(acc, Ghost(l1 + failed_facts(ins@.subrange(0, i as int))), "Provisioning Cache", "WARN", "parse failed", d);
                    assert((l1 + failed_facts(ins@.subrange(0, i as int))).push(failed_facts(ins@.subrange(0, i + 1)).last())
                        =~= l1 + failed_facts(ins@.subrange(0, i + 1)));
                } else {
                    assert(failed_facts(ins@.subrange(0, i + 1)) =~= failed_facts(ins@.subrange(0, i as int)));
                }
                i = i + 1;
            }
            assert(ins@.subrange(0, ins@.len() as int) =~= ins@);
            let ghost l2 = l1 + failed_facts(ins@);
            let ghost tail: Seq<Fact> = match &config.signing.temp_bundle_prefix {
                Some(x) => {
                    let t = temp_count(ins@, x@);
                    seq![fact("Provisioning Cache"@, if t > 0 { "PASS"@ } else { "WARN"@ }, "temp profiles"@,
                        decimal(t) + " matching prefix '"@ + x@ + "'"@)]
                },
                None => Seq::empty(),
            };
            assert(all =~= seq![all[0]] + failed_facts(ins@) + tail);
            match prefix {
                Some(x) => {
                    let mut d = u64_to_decimal(temp);
                    d.append(" matching prefix '");
                    d.append(x);
                    d.append("'");
                    report(acc, Ghost(l2), "Provisioning Cache", if temp > 0 { "PASS" } else { "WARN" }, "temp profiles", d);
                    assert(l2.push(tail[0]) =~= log + all);
                },
                None => {
                    assert(l2 =~= log + all);
                },
            }
        },
        Err(e) => {
            report(acc, Ghost(log), "Provisioning Cache", "WARN", "parsed profiles", e.clone());
            assert(log.push(inspection_facts(*f, *config)[0]) =~= log + inspection_facts(*f, *config));
        },
    }
}

fn report_devices(acc: &mut DoctorAccumulator, Ghost(log): Ghost<Seq<Fact>>, f: &DoctorFacts)
    requires
        holds(*old(acc), log),
        log.len() + 1 <= usize::MAX,
    ensures
        holds(*final(acc), log + device_facts(*f)),
{
    match &f.devices {
        Ok(ds) => {
            let mut connected: u64 = 0;
            let mut i: usize = 0;
            while i < ds.len()
                invariant
                    i <= ds@.len(),
                    ds@.len() == ds.len(),
                    connected == connected_count(ds@.subrange(0, i as int)),
                    connected <= i,
                decreases ds@.len() - i,
            {
                assert(ds@.subrange(0, i + 1).drop_last() =~= ds@.subrange(0, i as int));
                assert(ds@.subrange(0, i + 1).last() == ds@[i as int]);
                if let DeviceState::Connected = ds[i].state {
                    connected = connected + 1;
                }
                i = i + 1;
            }
            assert(ds@.subrange(0, ds@.len() as int) =~= ds@);
            let mut d = u64_to_decimal(connected);
            d.append(" of ");
            d.append(u64_to_decimal(ds.len() as u64).as_str());
            d.append(" detected");
            report(acc, Ghost(log), "Devices", "PASS", "connected devices", d);
        },
        Err(e) => report(acc, Ghost(log), "Devices", "WARN", "connected devices", e.clone()),
    }
    assert(log.push(device_facts(*f)[0]) =~= log + device_facts(*f));
}

/// Builds the environment check's report from what was found: the facts in
/// order, grouped by topic, with the numbers of failures and warnings.
pub fn doctor_report(facts: &DoctorFacts, config: &Config) -> (r: DoctorReport)
    requires
        doctor_facts(*facts, *config).len() <= usize::MAX,
    ensures
        sections_view(r.sections@) == grouped(doctor_facts(*facts, *config)),
        r.failures == count_status(sections_view(r.sections@), "FAIL"@),
        r.warnings == count_status(sections_view(r.sections@), "WARN"@),
{
    let mut acc = DoctorAccumulator::new();
    let ghost all = doctor_facts(*facts, *config);
    let ghost a = config_facts(*facts, *config);
    let ghost b = seq![tool_fact("xcode-select"@, facts.xcode_select), tool_fact("xcodebuild"@, facts.xcodebuild)];
    let ghost c = identity_facts(*facts, *config);
    let ghost d = dir_facts(*facts);
    let ghost e = inspection_facts(*facts, *config);
    let ghost g = device_facts(*facts);
    assert(all =~= a + b + c + d + e + g);
    assert(grouped(Seq::<Fact>::empty()) =~= Seq::<SectionView>::empty());
    report_config(&mut acc, Ghost(Seq::empty()), facts, config);
    assert(Seq::<Fact>::empty() + a =~= a);
    report_tool(&mut acc, Ghost(a), "xcode-select", &facts.xcode_select);
    report_tool(&mut acc, Ghost(a.push(b[0])), "xcodebuild", &facts.xcodebuild);
    assert(a.push(b[0]).push(b[1]) =~= a + b);
    report_identities(&mut acc, Ghost(a + b), facts, config);
    report_dirs(&mut acc, Ghost(a + b + c), facts);
    report_inspections(&mut acc, Ghost(a + b + c + d), facts, config);
    report_devices(&mut acc, Ghost(a + b + c + d + e), facts);
    acc.finish()
}

} // verus!
