//! Reports as the lines shown to the user: the doctor report, the clean
//! inventory, the device list and progress events.

use vstd::prelude::*;
use crate::clean::{CleanCategory, CleanItem, CleanReport, DeleteSummary, category_at, deletable_category, display_text, format_bytes, format_bytes_text, key_text, owner_text,
    purpose_text, safety_text};
use crate::decimal::{decimal, u64_to_decimal};
use crate::doctor::{DoctorLine, DoctorReport, LineView, SectionView, sections_view, lines_view};
use crate::config::Config;
use crate::device::{Device, state_label};
use crate::error::TossError;
use crate::interaction::WorkflowEvent;
use crate::lines::string_views;
use crate::text::{concat, push_char};

verus! {

/// `n` spaces.
pub open spec fn spaces(n: nat) -> Seq<char> {
    Seq::new(n, |i: int| ' ')
}

/// `s` padded on the right with spaces to at least `width` characters.
pub open spec fn padded(s: Seq<char>, width: nat) -> Seq<char> {
    if s.len() >= width {
        s
    } else {
        s + spaces((width - s.len()) as nat)
    }
}

/// Pads `s` on the right with spaces to at least `width` characters.
pub fn pad_right(s: &str, width: usize) -> (r: String)
    ensures
        r@ == padded(s@, width as nat),
{
    let mut r = s.to_string();
    let n = s.unicode_len();
    if n >= width {
        return r;
    }
    let mut k: usize = n;
    while k < width
        invariant
            n <= k <= width,
            n == s@.len(),
            r@ == s@ + spaces((k - n) as nat),
        decreases width - k,
    {
        let ghost before = r@;
        push_char(&mut r, ' ');
        assert(spaces((k + 1 - n) as nat) =~= spaces((k - n) as nat).push(' '));
        assert(r@ =~= s@ + spaces((k + 1 - n) as nat));
        k = k + 1;
    }
    r
}

fn push_text(lines: &mut Vec<String>, a: &str)
    ensures
        string_views(final(lines)@) == string_views(old(lines)@).push(a@),
{
    let ghost before = lines@;
    lines.push(a.to_string());
    assert(string_views(lines@) =~= string_views(before).push(a@));
}

fn push_blank(lines: &mut Vec<String>)
    ensures
        string_views(final(lines)@) == string_views(old(lines)@).push(Seq::<char>::empty()),
{
    let ghost before = lines@;
    lines.push(String::new());
    assert(string_views(lines@) =~= string_views(before).push(Seq::<char>::empty()));
}

fn push_owned(lines: &mut Vec<String>, a: String)
    ensures
        string_views(final(lines)@) == string_views(old(lines)@).push(a@),
{
    let ghost before = lines@;
    let ghost t = a@;
    lines.push(a);
    assert(string_views(lines@) =~= string_views(before).push(t));
}

/// A fact of the doctor report as a line: status padded to four
/// characters in brackets, label padded to twenty, then the detail.
pub open spec fn doctor_line_text(l: LineView) -> Seq<char> {
    "  ["@ + padded(l.0, 4) + "] "@ + padded(l.1, 20) + " "@ + l.2
}

/// A topic of the doctor report: its title, its facts and a blank line.
pub open spec fn doctor_section_text(s: SectionView) -> Seq<Seq<char>> {
    seq![s.0] + Seq::new(s.1.len(), |j: int| doctor_line_text(s.1[j])) + seq![Seq::<char>::empty()]
}

/// The topics of the doctor report, one after the other.
pub open spec fn doctor_sections_text(ss: Seq<SectionView>) -> Seq<Seq<char>>
    decreases ss.len(),
{
    if ss.len() == 0 {
        Seq::empty()
    } else {
        doctor_sections_text(ss.drop_last()) + doctor_section_text(ss.last())
    }
}

/// The closing line of the doctor report.
pub open spec fn doctor_summary_text(failures: nat, warnings: nat) -> Seq<char> {
    "summary: "@ + decimal(failures) + " failure(s), "@ + decimal(warnings) + " warning(s)"@
}

/// The doctor report as shown in the terminal interface.
pub open spec fn doctor_detail_lines(r: DoctorReport) -> Seq<Seq<char>> {
    seq!["toss doctor"@, Seq::<char>::empty()] + doctor_sections_text(sections_view(r.sections@))
        + seq![doctor_summary_text(r.failures as nat, r.warnings as nat)]
}

/// One fact of the doctor report as a line.
pub fn doctor_line(line: &DoctorLine) -> (r: String)
    ensures
        r@ == doctor_line_text((line.status@, line.label@, line.detail@)),
{
    let mut r = "  [".to_string();
    r.append(pad_right(line.status, 4).as_str());
    r.append("] ");
    r.append(pad_right(line.label.as_str(), 20).as_str());
    r.append(" ");
    r.append(line.detail.as_str());
    r
}

/// The lines of the doctor report as shown in the terminal interface: a
/// heading, each topic with its facts, and the numbers of failures and
/// warnings.
pub fn build_doctor_details(report: &DoctorReport) -> (r: Vec<String>)
    ensures
        string_views(r@) == doctor_detail_lines(*report),
{
    let mut lines: Vec<String> = Vec::new();
    push_text(&mut lines, "toss doctor");
    push_blank(&mut lines);
    let ghost start = string_views(lines@);
    let ghost ss = sections_view(report.sections@);
    let mut i: usize = 0;
    while i < report.sections.len()
        invariant
            i <= report.sections@.len(),
            ss == sections_view(report.sections@),
            string_views(lines@) == start + doctor_sections_text(ss.subrange(0, i as int)),
        decreases report.sections@.len() - i,
    {
        let section = &report.sections[i];
        let ghost sv = ss[i as int];
        assert(sv == (section.title@, lines_view(section.lines@)));
        let ghost before = string_views(lines@);
        push_text(&mut lines, section.title);
        let mut j: usize = 0;
        while j < section.lines.len()
            invariant
                j <= section.lines@.len(),
                sv == (section.title@, lines_view(section.lines@)),
                string_views(lines@) == before + seq![sv.0] + Seq::new(j as nat, |k: int| doctor_line_text(sv.1[k])),
            decreases section.lines@.len() - j,
        {
            let l = doctor_line(&section.lines[j]);
            let ghost mid = string_views(lines@);
            push_owned(&mut lines, l);
            assert(Seq::new((j + 1) as nat, |k: int| doctor_line_text(sv.1[k]))
                =~= Seq::new(j as nat, |k: int| doctor_line_text(sv.1[k])).push(doctor_line_text(sv.1[j as int])));
            assert(string_views(lines@) =~= before + seq![sv.0] + Seq::new((j + 1) as nat, |k: int| doctor_line_text(sv.1[k])));
            j = j + 1;
        }
        push_blank(&mut lines);
        assert(ss.subrange(0, i + 1).drop_last() =~= ss.subrange(0, i as int));
        assert(ss.subrange(0, i + 1).last() == sv);
        assert(doctor_sections_text(ss.subrange(0, i + 1)) == doctor_sections_text(ss.subrange(0, i as int))
            + doctor_section_text(sv));
        assert(Seq::new(sv.1.len(), |k: int| doctor_line_text(sv.1[k])) =~= Seq::new(j as nat, |k: int| doctor_line_text(sv.1[k])));
        assert(string_views(lines@) =~= start + doctor_sections_text(ss.subrange(0, i + 1)));
        i = i + 1;
    }
    assert(ss.subrange(0, ss.len() as int) =~= ss);
    let mut summary = "summary: ".to_string();
    summary.append(u64_to_decimal(report.failures as u64).as_str());
    summary.append(" failure(s), ");
    summary.append(u64_to_decimal(report.warnings as u64).as_str());
    summary.append(" warning(s)");
    push_owned(&mut lines, summary);
    assert(string_views(lines@) =~= doctor_detail_lines(*report));
    lines
}

/// The message of a doctor run that found failures.
pub open spec fn doctor_failed_msg(failures: nat, warnings: nat) -> Seq<char> {
    "doctor found "@ + decimal(failures) + " failure(s) and "@ + decimal(warnings) + " warning(s)"@
}

/// The verdict of a doctor run: an error when any check failed.
pub fn doctor_outcome(report: &DoctorReport) -> (r: Result<(), TossError>)
    ensures
        report.failures == 0 ==> r is Ok,
        report.failures > 0 ==> (r matches Err(TossError::Config(m))
            && m@ == doctor_failed_msg(report.failures as nat, report.warnings as nat)),
{
    if report.failures == 0 {
        return Ok(());
    }
    let mut m = "doctor found ".to_string();
    m.append(u64_to_decimal(report.failures as u64).as_str());
    m.append(" failure(s) and ");
    m.append(u64_to_decimal(report.warnings as u64).as_str());
    m.append(" warning(s)");
    Err(TossError::Config(m))
}

/// How many paths of an item are listed: up to three in the terminal
/// interface; on the command line all of them up to five, else three.
pub open spec fn shown_count(n: nat, cli: bool) -> nat {
    if n <= 3 || (cli && n <= 5) {
        n
    } else {
        3
    }
}

/// What the report says about deleting an item's files.
pub open spec fn delete_text(item: CleanItem, cli: bool) -> Seq<char> {
    if !item.deletable {
        "report only"@
    } else if cli {
        "supported via `--delete "@ + key_text(item.category) + "`"@
    } else {
        "supported via "@ + key_text(item.category)
    }
}

/// The lines of one item of the clean inventory.
pub open spec fn clean_item_lines(item: CleanItem, cli: bool) -> Seq<Seq<char>> {
    let c = item.category;
    let n = item.paths@.len();
    let shown = shown_count(n, cli);
    seq![
        Seq::<char>::empty(),
        display_text(c) + " ("@ + key_text(c) + ")"@,
        "  owner: "@ + owner_text(c),
        "  safety: "@ + safety_text(c),
        "  size: "@ + format_bytes_text(item.size_bytes as nat),
        "  path count: "@ + decimal(item.path_count as nat),
        "  purpose: "@ + purpose_text(c),
        "  delete: "@ + delete_text(item, cli),
    ] + Seq::new(shown, |k: int| "  path: "@ + item.paths@[k]@)
        + if n > shown { seq!["  path: ... and "@ + decimal((n - shown) as nat) + " more"@] } else { Seq::empty() }
}

/// The lines of the items of the clean inventory, in order.
pub open spec fn clean_items_lines(items: Seq<CleanItem>, cli: bool) -> Seq<Seq<char>>
    decreases items.len(),
{
    if items.len() == 0 {
        Seq::empty()
    } else {
        clean_items_lines(items.drop_last(), cli) + clean_item_lines(items.last(), cli)
    }
}

/// The heading of the clean inventory, with a placeholder when nothing was
/// found.
pub open spec fn clean_heading(report: CleanReport) -> Seq<Seq<char>> {
    seq!["Local clean inventory"@] + if report.items@.len() == 0 { seq!["  <nothing found>"@] } else { Seq::empty() }
}

/// The clean inventory as shown in the terminal interface: notes come last,
/// each as `note: ...`.
pub open spec fn clean_detail_lines(report: CleanReport) -> Seq<Seq<char>> {
    clean_heading(report) + clean_items_lines(report.items@, false)
        + Seq::new(report.notes@.len(), |k: int| "note: "@ + report.notes@[k]@)
}

/// The clean inventory as printed on the command line: notes come last,
/// under a `Notes` heading.
pub open spec fn clean_report_text(report: CleanReport) -> Seq<Seq<char>> {
    clean_heading(report) + clean_items_lines(report.items@, true)
        + if report.notes@.len() > 0 {
            seq![Seq::<char>::empty(), "Notes"@] + Seq::new(report.notes@.len(), |k: int| "  - "@ + report.notes@[k]@)
        } else {
            Seq::empty()
        }
}

/// The paths of an item listed on the command line: all of them up to
/// five, else the first three.
pub fn display_paths(item: &CleanItem) -> (r: Vec<String>)
    ensures
        string_views(r@) == Seq::new(shown_count(item.paths@.len(), true), |k: int| item.paths@[k]@),
{
    let n = if item.paths.len() <= 5 { item.paths.len() } else { 3 };
    let mut r: Vec<String> = Vec::new();
    let mut k: usize = 0;
    while k < n
        invariant
            k <= n,
            n == shown_count(item.paths@.len(), true),
            n <= item.paths@.len(),
            string_views(r@) == Seq::new(k as nat, |i: int| item.paths@[i]@),
        decreases n - k,
    {
        let ghost before = r@;
        let p = item.paths[k].clone();
        assert(p@ == item.paths@[k as int]@);
        r.push(p);
        assert(string_views(r@) =~= string_views(before).push(item.paths@[k as int]@));
        assert(string_views(r@) =~= Seq::new((k + 1) as nat, |i: int| item.paths@[i]@));
        k = k + 1;
    }
    r
}

fn push_item_lines(lines: &mut Vec<String>, item: &CleanItem, cli: bool)
    ensures
        string_views(final(lines)@) == string_views(old(lines)@) + clean_item_lines(*item, cli),
{
    let ghost start = string_views(lines@);
    let c = item.category;
    push_blank(lines);
    let mut head = concat(c.display_name(), " (");
    head.append(c.key());
    head.append(")");
    push_owned(lines, head);
    push_owned(lines, concat("  owner: ", c.owner()));
    push_owned(lines, concat("  safety: ", c.safety()));
    push_owned(lines, concat("  size: ", format_bytes(item.size_bytes).as_str()));
    push_owned(lines, concat("  path count: ", u64_to_decimal(item.path_count as u64).as_str()));
    push_owned(lines, concat("  purpose: ", c.purpose()));
    let delete = if !item.deletable {
        "report only".to_string()
    } else if cli {
        let mut d = concat("supported via `--delete ", c.key());
        d.append("`");
        d
    } else {
        concat("supported via ", c.key())
    };
    push_owned(lines, concat("  delete: ", delete.as_str()));
    let ghost head_lines = string_views(lines@);
    let n = item.paths.len();
    let shown = if n <= 3 || (cli && n <= 5) { n } else { 3 };
    let mut k: usize = 0;
    while k < shown
        invariant
            k <= shown,
            shown == shown_count(n as nat, cli),
            n == item.paths@.len(),
            shown <= n,
            string_views(lines@) == head_lines + Seq::new(k as nat, |i: int| "  path: "@ + item.paths@[i]@),
        decreases shown - k,
    {
        push_owned(lines, concat("  path: ", item.paths[k].as_str()));
        assert(Seq::new((k + 1) as nat, |i: int| "  path: "@ + item.paths@[i]@)
            =~= Seq::new(k as nat, |i: int| "  path: "@ + item.paths@[i]@).push("  path: "@ + item.paths@[k as int]@));
        k = k + 1;
    }
    if n > shown {
        let mut more = "  path: ... and ".to_string();
        more.append(u64_to_decimal((n - shown) as u64).as_str());
        more.append(" more");
        push_owned(lines, more);
    }
    assert(string_views(lines@) =~= start + clean_item_lines(*item, cli));
}

fn push_items_lines(lines: &mut Vec<String>, items: &[CleanItem], cli: bool)
    ensures
        string_views(final(lines)@) == string_views(old(lines)@) + clean_items_lines(items@, cli),
{
    let ghost start = string_views(lines@);
    let mut i: usize = 0;
    while i < items.len()
        invariant
            i <= items@.len(),
            string_views(lines@) == start + clean_items_lines(items@.subrange(0, i as int), cli),
        decreases items@.len() - i,
    {
        let ghost before = string_views(lines@);
        push_item_lines(lines, &items[i], cli);
        assert(items@.subrange(0, i + 1).drop_last() =~= items@.subrange(0, i as int));
        assert(items@.subrange(0, i + 1).last() == items@[i as int]);
        assert(clean_items_lines(items@.subrange(0, i + 1), cli) == clean_items_lines(items@.subrange(0, i as int), cli)
            + clean_item_lines(items@[i as int], cli));
        assert(string_views(lines@) =~= start + clean_items_lines(items@.subrange(0, i + 1), cli));
        i = i + 1;
    }
    assert(items@.subrange(0, items@.len() as int) =~= items@);
}

fn push_heading(lines: &mut Vec<String>, report: &CleanReport)
    ensures
        string_views(final(lines)@) == string_views(old(lines)@) + clean_heading(*report),
{
    let ghost start = string_views(lines@);
    push_text(lines, "Local clean inventory");
    if report.items.len() == 0 {
        push_text(lines, "  <nothing found>");
    }
    assert(string_views(lines@) =~= start + clean_heading(*report));
}

fn push_prefixed(lines: &mut Vec<String>, prefix: &str, texts: &[String])
    ensures
        string_views(final(lines)@) == string_views(old(lines)@) + Seq::new(texts@.len(), |k: int| prefix@ + texts@[k]@),
{
    let ghost start = string_views(lines@);
    let mut k: usize = 0;
    while k < texts.len()
        invariant
            k <= texts@.len(),
            string_views(lines@) == start + Seq::new(k as nat, |i: int| prefix@ + texts@[i]@),
        decreases texts@.len() - k,
    {
        push_owned(lines, concat(prefix, texts[k].as_str()));
        assert(Seq::new((k + 1) as nat, |i: int| prefix@ + texts@[i]@)
            =~= Seq::new(k as nat, |i: int| prefix@ + texts@[i]@).push(prefix@ + texts@[k as int]@));
        k = k + 1;
    }
    assert(Seq::new(k as nat, |i: int| prefix@ + texts@[i]@) =~= Seq::new(texts@.len(), |i: int| prefix@ + texts@[i]@));
}

/// The lines of the clean inventory as shown in the terminal interface:
/// for each category found its owner, safety, size, path count, purpose,
/// whether it can be deleted and its first three paths; then the notes.
pub fn build_clean_details(report: &CleanReport) -> (r: Vec<String>)
    ensures
        string_views(r@) == clean_detail_lines(*report),
{
    let mut lines: Vec<String> = Vec::new();
    push_heading(&mut lines, report);
    push_items_lines(&mut lines, report.items.as_slice(), false);
    push_prefixed(&mut lines, "note: ", report.notes.as_slice());
    assert(string_views(lines@) =~= clean_detail_lines(*report));
    lines
}

/// The lines of the clean inventory as printed on the command line: for
/// each category found its owner, safety, size, path count, purpose, the
/// option that deletes it and its paths (the first three of more than
/// five); then the notes.
pub fn clean_report_lines(report: &CleanReport) -> (r: Vec<String>)
    ensures
        string_views(r@) == clean_report_text(*report),
{
    let mut lines: Vec<String> = Vec::new();
    push_heading(&mut lines, report);
    push_items_lines(&mut lines, report.items.as_slice(), true);
    if report.notes.len() > 0 {
        push_blank(&mut lines);
        push_text(&mut lines, "Notes");
        push_prefixed(&mut lines, "  - ", report.notes.as_slice());
    }
    assert(string_views(lines@) =~= clean_report_text(*report));
    lines
}

/// The alias, among the first `n` entries of the alias table, that is
/// listed last for the device address `id`.
pub open spec fn last_alias(keys: Seq<Seq<char>>, vals: Seq<String>, id: Seq<char>, n: nat) -> Option<Seq<char>>
    decreases n,
{
    if n == 0 {
        None
    } else if vals[n - 1]@ == id {
        Some(keys[n - 1])
    } else {
        last_alias(keys, vals, id, (n - 1) as nat)
    }
}

/// The alias shown for the device address `id`: of several aliases of the
/// same device, the last in alphabetical order.
pub open spec fn alias_of(config: Config, id: Seq<char>) -> Option<Seq<char>> {
    last_alias(config.devices.aliases.key_seq(), config.devices.aliases.val_seq(), id,
        config.devices.aliases.key_seq().len())
}

/// The alias shown for the device address `id`, if any.
pub fn device_alias(config: &Config, id: &str) -> (r: Option<String>)
    ensures
        match r {
            Some(a) => alias_of(*config, id@) == Some(a@),
            None => alias_of(*config, id@) is None,
        },
{
    let aliases = &config.devices.aliases;
    let ghost keys = aliases.key_seq();
    let ghost vals = aliases.val_seq();
    let mut i: usize = aliases.len();
    while i > 0
        invariant
            i <= keys.len(),
            keys == aliases.key_seq(),
            vals == aliases.val_seq(),
            alias_of(*config, id@) == last_alias(keys, vals, id@, i as nat),
        decreases i,
    {
        i = i - 1;
        let v = aliases.value_at(i);
        if crate::text::str_eq(v.as_str(), id) {
            return Some(aliases.key_at(i).clone());
        }
    }
    None
}

/// ` alias=` and the alias, or nothing.
pub open spec fn alias_suffix(o: Option<Seq<char>>) -> Seq<char> {
    match o {
        Some(a) => " alias="@ + a,
        None => Seq::empty(),
    }
}

/// The log line of the device at position `i`.
pub open spec fn device_log_line(config: Config, d: Device, i: nat) -> Seq<char> {
    "  "@ + decimal(i + 1) + ". "@ + d.name@ + " "@ + d.model@ + " "@ + d.os_version@ + " "@ + state_label(d.state)
        + alias_suffix(alias_of(config, d.udid@))
}

/// The log lines listing the devices.
pub open spec fn device_log_lines(config: Config, devs: Seq<Device>) -> Seq<Seq<char>> {
    if devs.len() == 0 {
        seq!["no devices found"@]
    } else {
        seq!["devices:"@] + Seq::new(devs.len(), |i: int| device_log_line(config, devs[i], i as nat))
    }
}

/// The log lines listing the devices: position, name, model, OS version,
/// state and alias (looked up by UDID) of each.
pub fn log_devices(devices: &[Device], config: &Config) -> (r: Vec<String>)
    ensures
        string_views(r@) == device_log_lines(*config, devices@),
{
    let mut lines: Vec<String> = Vec::new();
    if devices.len() == 0 {
        push_text(&mut lines, "no devices found");
        return lines;
    }
    push_text(&mut lines, "devices:");
    let ghost start = string_views(lines@);
    let mut i: usize = 0;
    while i < devices.len()
        invariant
            i <= devices@.len(),
            string_views(lines@) == start + Seq::new(i as nat, |k: int| device_log_line(*config, devices@[k], k as nat)),
        decreases devices@.len() - i,
    {
        let d = &devices[i];
        let mut l = "  ".to_string();
        l.append(u64_to_decimal((i as u64) + 1).as_str());
        l.append(". ");
        l.append(d.name.as_str());
        l.append(" ");
        l.append(d.model.as_str());
        l.append(" ");
        l.append(d.os_version.as_str());
        l.append(" ");
        l.append(d.state.label().as_str());
        match device_alias(config, d.udid.as_str()) {
            Some(a) => {
                l.append(" alias=");
                l.append(a.as_str());
            },
            None => {},
        }
        assert(l@ =~= device_log_line(*config, devices@[i as int], i as nat));
        push_owned(&mut lines, l);
        assert(Seq::new((i + 1) as nat, |k: int| device_log_line(*config, devices@[k], k as nat))
            =~= Seq::new(i as nat, |k: int| device_log_line(*config, devices@[k], k as nat))
                .push(device_log_line(*config, devices@[i as int], i as nat)));
        i = i + 1;
    }
    assert(string_views(lines@) =~= device_log_lines(*config, devices@));
    lines
}

/// A row of the command-line device table: position, name (with the alias
/// looked up by identifier in brackets), model, OS version and state.
pub open spec fn device_row(config: Config, d: Device, i: nat) -> (Seq<char>, Seq<char>, Seq<char>, Seq<char>, Seq<char>) {
    (
        decimal(i + 1),
        d.name@ + match alias_of(config, d.identifier@) { Some(a) => " ("@ + a + ")"@, None => Seq::empty() },
        d.model@,
        d.os_version@,
        state_label(d.state),
    )
}

/// The rows of the command-line device table, one per device in order.
pub fn device_rows(devices: &[Device], config: &Config) -> (r: Vec<(String, String, String, String, String)>)
    ensures
        r@.len() == devices@.len(),
        forall|i: int| 0 <= i < r@.len() ==> (#[trigger] r@[i].0@, r@[i].1@, r@[i].2@, r@[i].3@, r@[i].4@)
            == device_row(*config, devices@[i], i as nat),
{
    let mut rows: Vec<(String, String, String, String, String)> = Vec::new();
    let mut i: usize = 0;
    while i < devices.len()
        invariant
            i <= devices@.len(),
            rows@.len() == i,
            forall|k: int| 0 <= k < i ==> (#[trigger] rows@[k].0@, rows@[k].1@, rows@[k].2@, rows@[k].3@, rows@[k].4@)
                == device_row(*config, devices@[k], k as nat),
        decreases devices@.len() - i,
    {
        let d = &devices[i];
        let idx = u64_to_decimal((i as u64) + 1);
        let mut name = d.name.clone();
        match device_alias(config, d.identifier.as_str()) {
            Some(a) => {
                name.append(" (");
                name.append(a.as_str());
                name.append(")");
            },
            None => {
                assert(name@ =~= d.name@ + Seq::<char>::empty());
            },
        }
        rows.push((idx, name, d.model.clone(), d.os_version.clone(), d.state.label()));
        i = i + 1;
    }
    rows
}

/// The text of a progress event. The terminal interface reports installs
/// and launches as done (`Installed`, `Launched`), the command line as
/// under way. A warning is its message alone; the front end marks it.
pub open spec fn event_text(e: WorkflowEvent, interactive: bool) -> Seq<char> {
    match e {
        WorkflowEvent::Warning { message } => message@,
        WorkflowEvent::Building { project, scheme, device_udid } =>
            "Building "@ + project@ + " ("@ + scheme@ + ") for "@ + device_udid@ + "..."@,
        WorkflowEvent::BuildSucceeded => "BUILD SUCCEEDED"@,
        WorkflowEvent::Installing { app_path, device_name } => if interactive {
            "Installed "@ + app_path@ + " on "@ + device_name@ + "."@
        } else {
            "Installing "@ + app_path@ + " on "@ + device_name@ + "..."@
        },
        WorkflowEvent::Launching { bundle_id, device_name } => if interactive {
            "Launched "@ + bundle_id@ + " on "@ + device_name@ + "."@
        } else {
            "Launching "@ + bundle_id@ + " on "@ + device_name@ + "..."@
        },
        WorkflowEvent::Signing { ipa_name, device_name } => "Signing "@ + ipa_name@ + " -> "@ + device_name@ + "..."@,
        WorkflowEvent::ExtractedBundle { bundle_id, app_name } => "Extracted "@ + bundle_id@ + " ("@ + app_name@ + ")."@,
        WorkflowEvent::UsingIdentity { identity_name } => "Identity: "@ + identity_name@,
        WorkflowEvent::SigningPlanStep { kind, original_bundle_id, final_bundle_id, profile_name } =>
            "Plan: "@ + kind@ + " "@ + original_bundle_id@ + " -> "@ + final_bundle_id@ + " using "@ + profile_name@,
        WorkflowEvent::TemporaryBundleId { original_bundle_id, temporary_bundle_id } =>
            "No usable profile for '"@ + original_bundle_id@ + "' found, switching to temporary bundle ID '"@
                + temporary_bundle_id@ + "'."@,
        WorkflowEvent::AutoProvisioning { kind, bundle_id, device_udid } =>
            "Auto-provisioning "@ + kind@ + " '"@ + bundle_id@ + "' for device "@ + device_udid@ + "..."@,
        WorkflowEvent::BundleIdRewritten { from, to } => "Bundle ID: "@ + from@ + " -> "@ + to@,
        WorkflowEvent::CleanedTemporaryProfiles { count } =>
            "Cleaned "@ + decimal(count as nat) + " temporary provisioning profile(s)."@,
    }
}

/// The text of a progress event, for the terminal interface when
/// `interactive` holds and for the command line otherwise.
pub fn render_event(event: &WorkflowEvent, interactive: bool) -> (r: String)
    ensures
        r@ == event_text(*event, interactive),
{
    match event {
        WorkflowEvent::Warning { message } => message.clone(),
        WorkflowEvent::Building { project, scheme, device_udid } => {
            let mut r = String::new();
            r.append("Building ");
            r.append(project.as_str());
            r.append(" (");
            r.append(scheme.as_str());
            r.append(") for ");
            r.append(device_udid.as_str());
            r.append("...");
            r
        },
        WorkflowEvent::BuildSucceeded => "BUILD SUCCEEDED".to_string(),
        WorkflowEvent::Installing { app_path, device_name } => if interactive {
            let mut r = String::new();
            r.append("Installed ");
            r.append(app_path.as_str());
            r.append(" on ");
            r.append(device_name.as_str());
            r.append(".");
            r
        } else {
            let mut r = String::new();
            r.append("Installing ");
            r.append(app_path.as_str());
            r.append(" on ");
            r.append(device_name.as_str());
            r.append("...");
            r
        },
        WorkflowEvent::Launching { bundle_id, device_name } => if interactive {
            let mut r = String::new();
            r.append("Launched ");
            r.append(bundle_id.as_str());
            r.append(" on ");
            r.append(device_name.as_str());
            r.append(".");
            r
        } else {
            let mut r = String::new();
            r.append("Launching ");
            r.append(bundle_id.as_str());
            r.append(" on ");
            r.append(device_name.as_str());
            r.append("...");
            r
        },
        WorkflowEvent::Signing { ipa_name, device_name } => {
            let mut r = String::new();
            r.append("Signing ");
            r.append(ipa_name.as_str());
            r.append(" -> ");
            r.append(device_name.as_str());
            r.append("...");
            r
        },
        WorkflowEvent::ExtractedBundle { bundle_id, app_name } => {
            let mut r = String::new();
            r.append("Extracted ");
            r.append(bundle_id.as_str());
            r.append(" (");
            r.append(app_name.as_str());
            r.append(").");
            r
        },
        WorkflowEvent::UsingIdentity { identity_name } => concat("Identity: ", identity_name.as_str()),
        WorkflowEvent::SigningPlanStep { kind, original_bundle_id, final_bundle_id, profile_name } => {
            let mut r = String::new();
            r.append("Plan: ");
            r.append(kind.as_str());
            r.append(" ");
            r.append(original_bundle_id.as_str());
            r.append(" -> ");
            r.append(final_bundle_id.as_str());
            r.append(" using ");
            r.append(profile_name.as_str());
            r
        },
        WorkflowEvent::TemporaryBundleId { original_bundle_id, temporary_bundle_id } => {
            let mut r = String::new();
            r.append("No usable profile for '");
            r.append(original_bundle_id.as_str());
            r.append("' found, switching to temporary bundle ID '");
            r.append(temporary_bundle_id.as_str());
            r.append("'.");
            r
        },
        WorkflowEvent::AutoProvisioning { kind, bundle_id, device_udid } => {
            let mut r = String::new();
            r.append("Auto-provisioning ");
            r.append(kind.as_str());
            r.append(" '");
            r.append(bundle_id.as_str());
            r.append("' for device ");
            r.append(device_udid.as_str());
            r.append("...");
            r
        },
        WorkflowEvent::BundleIdRewritten { from, to } => {
            let mut r = String::new();
            r.append("Bundle ID: ");
            r.append(from.as_str());
            r.append(" -> ");
            r.append(to.as_str());
            r
        },
        WorkflowEvent::CleanedTemporaryProfiles { count } => {
            let mut r = "Cleaned ".to_string();
            r.append(u64_to_decimal(*count as u64).as_str());
            r.append(" temporary provisioning profile(s).");
            r
        },
    }
}

/// The totals of a deletion: `deleted N path(s), reclaimed SIZE`, or as a
/// sentence, capitalised and closed by a full stop.
pub open spec fn deletion_text(s: DeleteSummary, sentence: bool) -> Seq<char> {
    (if sentence { "Deleted "@ } else { "deleted "@ }) + decimal(s.deleted_paths as nat) + " path(s), reclaimed "@
        + format_bytes_text(s.reclaimed_bytes as nat) + (if sentence { "."@ } else { Seq::empty() })
}

/// The totals of a deletion as text.
pub fn deletion_summary(summary: &DeleteSummary, sentence: bool) -> (r: String)
    ensures
        r@ == deletion_text(*summary, sentence),
{
    let mut r = if sentence { "Deleted ".to_string() } else { "deleted ".to_string() };
    r.append(u64_to_decimal(summary.deleted_paths as u64).as_str());
    r.append(" path(s), reclaimed ");
    r.append(format_bytes(summary.reclaimed_bytes).as_str());
    if sentence {
        r.append(".");
    } else {
        assert(r@ =~= r@ + Seq::<char>::empty());
    }
    r
}

/// The keys of the categories among the first `n` in listing order that
/// may be deleted.
pub open spec fn deletable_keys(n: nat) -> Seq<Seq<char>>
    decreases n,
{
    if n == 0 {
        Seq::empty()
    } else if deletable_category(category_at((n - 1) as nat)) {
        deletable_keys((n - 1) as nat).push(key_text(category_at((n - 1) as nat)))
    } else {
        deletable_keys((n - 1) as nat)
    }
}

/// The keys of the categories that may be deleted, in listing order,
/// separated by commas, as suggested when no deletion was requested.
pub fn deletable_keys_text() -> (r: String)
    ensures
        r@ == crate::diagnostics::joined(deletable_keys(5), ","@),
{
    let all = CleanCategory::all();
    let mut keys: Vec<String> = Vec::new();
    let mut i: usize = 0;
    while i < all.len()
        invariant
            i <= 5,
            all@.len() == 5,
            forall|k: int| 0 <= k < 5 ==> #[trigger] all@[k] == category_at(k as nat),
            string_views(keys@) == deletable_keys(i as nat),
        decreases 5 - i,
    {
        let c = all[i];
        assert(c == category_at(i as nat));
        if c.supports_delete() {
            push_text(&mut keys, c.key());
        }
        i = i + 1;
    }
    crate::diagnostics::join(keys.as_slice(), ",")
}

/// The lines describing one project in the printed state, at time `now`.
pub open spec fn show_entry_lines(name: Seq<char>, p: crate::config::ProjectConfig, now: (i64, u32)) -> Seq<Seq<char>> {
    seq!["  "@ + name, "    build_dir: "@ + p.build_dir@]
        + crate::tui::opt_line("    source: "@, p.path)
        + crate::tui::opt_line("    bundle_id: "@, p.bundle_id)
        + crate::tui::opt_line("    app_name: "@, p.app_name)
        + seq!["    last_tossed_at: "@ + crate::time::last_tossed_text(
            match p.last_tossed_at { Some(t) => Some(t@), None => None }, crate::tui::instant(now))]
}

/// The lines describing the projects in the printed state, in order.
pub open spec fn show_projects_lines(ps: Seq<(String, crate::config::ProjectConfig)>, now: (i64, u32)) -> Seq<Seq<char>>
    decreases ps.len(),
{
    if ps.len() == 0 {
        Seq::empty()
    } else {
        show_projects_lines(ps.drop_last(), now) + show_entry_lines(ps.last().0@, ps.last().1, now)
    }
}

/// The head of the printed state: settings and device aliases.
pub open spec fn show_head_text(snap: crate::state::StateSnapshot) -> Seq<Seq<char>> {
    seq![
        "Local state"@,
        "  config file: "@ + snap.config_path@,
        "  stored here: defaults, device aliases, projects, temp_bundle_prefix, team_id"@,
        "  temp_bundle_prefix: "@ + crate::tui::unset_text(snap.temp_bundle_prefix),
        "  team_id: "@ + crate::tui::unset_text(snap.team_id),
        "  default_device: "@ + crate::tui::unset_text(snap.default_device),
        "  default_project: "@ + crate::tui::unset_text(snap.default_project),
        Seq::<char>::empty(),
        "Device aliases ("@ + decimal(snap.device_aliases@.len()) + ")"@,
    ] + crate::tui::alias_lines(snap.device_aliases@)
}

/// The projects part of the printed state, at time `now`.
pub open spec fn show_projects_text(snap: crate::state::StateSnapshot, now: (i64, u32)) -> Seq<Seq<char>> {
    seq![Seq::<char>::empty(), "Projects ("@ + decimal(snap.projects@.len()) + ")"@]
        + (if snap.projects@.len() == 0 { seq!["  <none>"@] } else { show_projects_lines(snap.projects@, now) })
}

/// The profiles part of the printed state: profile directories and
/// inspected profiles.
pub open spec fn show_profiles_text(snap: crate::state::StateSnapshot) -> Seq<Seq<char>> {
    seq![Seq::<char>::empty(), "Provisioning profile dirs ("@ + decimal(snap.profile_dirs@.len()) + ")"@]
        + crate::tui::dir_lines(snap.profile_dirs@)
        + (if snap.profile_dirs@.len() > 0 { seq!["  stored here: downloaded Xcode provisioning profiles"@] } else { Seq::empty() })
        + seq![Seq::<char>::empty(), "Provisioning profiles"@]
        + crate::tui::profiles_section(snap.profile_inspections, snap.temp_bundle_prefix)
}

/// The state as printed on the command line, at time `now`.
pub open spec fn state_show_text(snap: crate::state::StateSnapshot, now: (i64, u32)) -> Seq<Seq<char>> {
    show_head_text(snap) + show_projects_text(snap, now) + show_profiles_text(snap)
}

fn push_show_entry(lines: &mut Vec<String>, name: &String, project: &crate::config::ProjectConfig, now: (i64, u32))
    requires
        now.1 < 1_000_000_000,
    ensures
        string_views(final(lines)@) == string_views(old(lines)@) + show_entry_lines(name@, *project, now),
{
    let ghost before = string_views(lines@);
    crate::tui::push_line(lines, "  ", name.as_str());
    crate::tui::push_line(lines, "    build_dir: ", project.build_dir.as_str());
    crate::tui::push_opt(lines, "    source: ", &project.path);
    crate::tui::push_opt(lines, "    bundle_id: ", &project.bundle_id);
    crate::tui::push_opt(lines, "    app_name: ", &project.app_name);
    let tossed = crate::time::format_last_tossed_at(crate::tui::opt_str(&project.last_tossed_at), now.0, now.1);
    crate::tui::push_line(lines, "    last_tossed_at: ", tossed.as_str());
    assert(string_views(lines@) =~= before + show_entry_lines(name@, *project, now));
}

fn push_show_projects(lines: &mut Vec<String>, ps: &[(String, crate::config::ProjectConfig)], now: (i64, u32))
    requires
        now.1 < 1_000_000_000,
    ensures
        string_views(final(lines)@) == string_views(old(lines)@) + show_projects_lines(ps@, now),
{
    let ghost start = string_views(lines@);
    let mut i: usize = 0;
    while i < ps.len()
        invariant
            i <= ps@.len(),
            now.1 < 1_000_000_000,
            string_views(lines@) == start + show_projects_lines(ps@.subrange(0, i as int), now),
        decreases ps@.len() - i,
    {
        let ghost before = string_views(lines@);
        push_show_entry(lines, &ps[i].0, &ps[i].1, now);
        assert(ps@.subrange(0, i + 1).drop_last() =~= ps@.subrange(0, i as int));
        assert(ps@.subrange(0, i + 1).last() == ps@[i as int]);
        assert(show_projects_lines(ps@.subrange(0, i + 1), now) == show_projects_lines(ps@.subrange(0, i as int), now)
            + show_entry_lines(ps@[i as int].0@, ps@[i as int].1, now));
        assert(string_views(lines@) =~= start + show_projects_lines(ps@.subrange(0, i + 1), now));
        i = i + 1;
    }
    assert(ps@.subrange(0, ps@.len() as int) =~= ps@);
}

fn push_show_head(lines: &mut Vec<String>, snapshot: &crate::state::StateSnapshot)
    ensures
        string_views(final(lines)@) == string_views(old(lines)@) + show_head_text(*snapshot),
{
    let ghost start = string_views(lines@);
    push_text(lines, "Local state");
    crate::tui::push_line(lines, "  config file: ", snapshot.config_path.as_str());
    push_text(lines, "  stored here: defaults, device aliases, projects, temp_bundle_prefix, team_id");
    crate::tui::push_line(lines, "  temp_bundle_prefix: ", crate::tui::unset_or(&snapshot.temp_bundle_prefix));
    crate::tui::push_line(lines, "  team_id: ", crate::tui::unset_or(&snapshot.team_id));
    crate::tui::push_line(lines, "  default_device: ", crate::tui::unset_or(&snapshot.default_device));
    crate::tui::push_line(lines, "  default_project: ", crate::tui::unset_or(&snapshot.default_project));
    push_blank(lines);
    crate::tui::push_count_line(lines, "Device aliases (", snapshot.device_aliases.len());
    crate::tui::push_alias_lines(lines, snapshot.device_aliases.as_slice());
    assert(string_views(lines@) =~= start + show_head_text(*snapshot));
}

fn push_show_projects_part(lines: &mut Vec<String>, snapshot: &crate::state::StateSnapshot, now: (i64, u32))
    requires
        now.1 < 1_000_000_000,
    ensures
        string_views(final(lines)@) == string_views(old(lines)@) + show_projects_text(*snapshot, now),
{
    let ghost start = string_views(lines@);
    push_blank(lines);
    crate::tui::push_count_line(lines, "Projects (", snapshot.projects.len());
    if snapshot.projects.len() == 0 {
        push_text(lines, "  <none>");
    } else {
        push_show_projects(lines, snapshot.projects.as_slice(), now);
    }
    assert(string_views(lines@) =~= start + show_projects_text(*snapshot, now));
}

fn push_show_profiles(lines: &mut Vec<String>, snapshot: &crate::state::StateSnapshot)
    ensures
        string_views(final(lines)@) == string_views(old(lines)@) + show_profiles_text(*snapshot),
{
    let ghost start = string_views(lines@);
    push_blank(lines);
    crate::tui::push_count_line(lines, "Provisioning profile dirs (", snapshot.profile_dirs.len());
    crate::tui::push_dir_lines(lines, snapshot.profile_dirs.as_slice());
    if snapshot.profile_dirs.len() > 0 {
        push_text(lines, "  stored here: downloaded Xcode provisioning profiles");
    }
    push_blank(lines);
    push_text(lines, "Provisioning profiles");
    crate::tui::push_profiles_section(lines, &snapshot.profile_inspections, &snapshot.temp_bundle_prefix);
    assert(string_views(lines@) =~= start + show_profiles_text(*snapshot));
}

/// The lines of the state as printed on the command line, with deployment
/// ages at time `now` (seconds and nanoseconds since the epoch).
pub fn state_show_lines_at(snapshot: &crate::state::StateSnapshot, now: (i64, u32)) -> (r: Vec<String>)
    requires
        now.1 < 1_000_000_000,
    ensures
        string_views(r@) == state_show_text(*snapshot, now),
{
    let mut lines: Vec<String> = Vec::new();
    push_show_head(&mut lines, snapshot);
    push_show_projects_part(&mut lines, snapshot, now);
    push_show_profiles(&mut lines, snapshot);
    assert(string_views(lines@) =~= state_show_text(*snapshot, now));
    lines
}

/// The lines of the state as printed on the command line, with deployment
/// ages at the current time.
pub fn state_show_lines(snapshot: &crate::state::StateSnapshot) -> (r: Vec<String>)
    ensures
        exists|now: (i64, u32)| string_views(r@) == #[trigger] state_show_text(*snapshot, now),
{
    let now = crate::time::now_instant();
    state_show_lines_at(snapshot, now)
}

/// The details of a registered project in the printed project list.
pub open spec fn project_detail_lines(p: crate::config::ProjectConfig, now: (i64, u32)) -> Seq<Seq<char>> {
    seq!["  type:      "@ + crate::tui::kind_text(p.kind)]
        + (if p.kind == crate::config::ProjectKind::Ipa {
            crate::tui::opt_line("  cached:    "@, p.ipa_path) + crate::tui::opt_line("  original:  "@, p.original_name)
        } else {
            seq!["  build_dir: "@ + p.build_dir@] + crate::tui::opt_line("  source:    "@, p.path)
                + crate::tui::opt_line("  app_name:  "@, p.app_name)
        })
        + crate::tui::opt_line("  bundle_id: "@, p.bundle_id)
        + seq!["  last tossed at: "@ + crate::time::last_tossed_text(
            match p.last_tossed_at { Some(t) => Some(t@), None => None }, crate::tui::instant(now))]
}

/// ` (default)` after the default project's name.
pub open spec fn default_marker(default_project: Option<String>, name: Seq<char>) -> Seq<char> {
    if default_project matches Some(d) && d@ == name { " (default)"@ } else { Seq::empty() }
}

/// The entries of a kind among the first `n` projects of the printed list.
pub open spec fn group_entries(
    names: Seq<Seq<char>>,
    ps: Seq<crate::config::ProjectConfig>,
    kind: crate::config::ProjectKind,
    default_project: Option<String>,
    now: (i64, u32),
    n: nat,
) -> Seq<Seq<char>>
    decreases n,
{
    if n == 0 {
        Seq::empty()
    } else {
        group_entries(names, ps, kind, default_project, now, (n - 1) as nat) + if ps[n - 1].kind == kind {
            seq![names[n - 1] + default_marker(default_project, names[n - 1]) + ":"@]
                + project_detail_lines(ps[n - 1], now) + seq![Seq::<char>::empty()]
        } else {
            Seq::empty()
        }
    }
}

/// A group of the printed project list: the title, then each project of
/// the kind, or `<none>`.
pub open spec fn project_group_text(
    title: Seq<char>,
    names: Seq<Seq<char>>,
    ps: Seq<crate::config::ProjectConfig>,
    kind: crate::config::ProjectKind,
    default_project: Option<String>,
    now: (i64, u32),
) -> Seq<Seq<char>> {
    seq![title] + if exists|i: int| 0 <= i < ps.len() && #[trigger] ps[i].kind == kind {
        group_entries(names, ps, kind, default_project, now, ps.len())
    } else {
        seq!["  <none>"@, Seq::<char>::empty()]
    }
}

/// The project list as printed on the command line, at time `now`.
pub open spec fn project_list_text(config: Config, now: (i64, u32)) -> Seq<Seq<char>> {
    let names = config.projects.key_seq();
    let ps = config.projects.val_seq();
    if names.len() == 0 {
        seq!["No projects registered. Use `toss projects add <path>` to add one."@]
    } else {
        project_group_text("Xcode/App Projects"@, names, ps, crate::config::ProjectKind::Xcode, config.defaults.project, now)
            + project_group_text("IPA Projects"@, names, ps, crate::config::ProjectKind::Ipa, config.defaults.project, now)
    }
}

fn push_project_details(lines: &mut Vec<String>, p: &crate::config::ProjectConfig, now: (i64, u32))
    requires
        now.1 < 1_000_000_000,
    ensures
        string_views(final(lines)@) == string_views(old(lines)@) + project_detail_lines(*p, now),
{
    let ghost start = string_views(lines@);
    let kind = if p.is_ipa() { "ipa" } else { "xcode/app" };
    crate::tui::push_line(lines, "  type:      ", kind);
    if p.is_ipa() {
        crate::tui::push_opt(lines, "  cached:    ", &p.ipa_path);
        crate::tui::push_opt(lines, "  original:  ", &p.original_name);
    } else {
        crate::tui::push_line(lines, "  build_dir: ", p.build_dir.as_str());
        crate::tui::push_opt(lines, "  source:    ", &p.path);
        crate::tui::push_opt(lines, "  app_name:  ", &p.app_name);
    }
    crate::tui::push_opt(lines, "  bundle_id: ", &p.bundle_id);
    let tossed = crate::time::format_last_tossed_at(crate::tui::opt_str(&p.last_tossed_at), now.0, now.1);
    crate::tui::push_line(lines, "  last tossed at: ", tossed.as_str());
    assert(string_views(lines@) =~= start + project_detail_lines(*p, now));
}

proof fn lemma_no_entries(
    names: Seq<Seq<char>>,
    ps: Seq<crate::config::ProjectConfig>,
    kind: crate::config::ProjectKind,
    default_project: Option<String>,
    now: (i64, u32),
    n: nat,
)
    requires
        n <= ps.len(),
        !exists|k: int| 0 <= k < n && #[trigger] ps[k].kind == kind,
    ensures
        group_entries(names, ps, kind, default_project, now, n) == Seq::<Seq<char>>::empty(),
    decreases n,
{
    if n > 0 {
        assert(ps[n - 1].kind != kind);
        lemma_no_entries(names, ps, kind, default_project, now, (n - 1) as nat);
    }
}

fn push_project_group(lines: &mut Vec<String>, title: &str, config: &Config, kind: crate::config::ProjectKind, now: (i64, u32))
    requires
        now.1 < 1_000_000_000,
    ensures
        string_views(final(lines)@) == string_views(old(lines)@) + project_group_text(title@,
            config.projects.key_seq(), config.projects.val_seq(), kind, config.defaults.project, now),
{
    let ghost start = string_views(lines@);
    let ghost names = config.projects.key_seq();
    let ghost ps = config.projects.val_seq();
    let ghost dp = config.defaults.project;
    proof {
        config.projects.lemma_same_length();
    }
    push_text(lines, title);
    let n = config.projects.len();
    let mut found = false;
    let mut i: usize = 0;
    while i < n
        invariant
            i <= n,
            n == names.len(),
            names == config.projects.key_seq(),
            ps == config.projects.val_seq(),
            dp == config.defaults.project,
            now.1 < 1_000_000_000,
            found == exists|k: int| 0 <= k < i && #[trigger] ps[k].kind == kind,
            string_views(lines@) == start.push(title@) + group_entries(names, ps, kind, dp, now, i as nat),
        decreases n - i,
    {
        let name = config.projects.key_at(i);
        let p = config.projects.value_at(i);
        let same = match (p.kind, kind) {
            (crate::config::ProjectKind::Xcode, crate::config::ProjectKind::Xcode) => true,
            (crate::config::ProjectKind::Ipa, crate::config::ProjectKind::Ipa) => true,
            _ => false,
        };
        let ghost before = string_views(lines@);
        if same {
            let mut head = name.clone();
            let is_default = match &config.defaults.project {
                Some(d) => crate::text::str_eq(d.as_str(), name.as_str()),
                None => false,
            };
            if is_default {
                head.append(" (default)");
            } else {
                assert(head@ =~= head@ + Seq::<char>::empty());
            }
            head.append(":");
            push_owned(lines, head);
            push_project_details(lines, p, now);
            push_blank(lines);
            found = true;
        }
        assert(string_views(lines@) =~= start.push(title@) + group_entries(names, ps, kind, dp, now, (i + 1) as nat));
        i = i + 1;
    }
    assert(found == exists|k: int| 0 <= k < ps.len() && #[trigger] ps[k].kind == kind);
    if !found {
        push_text(lines, "  <none>");
        push_blank(lines);
        assert(string_views(lines@) =~= start.push(title@) + group_entries(names, ps, kind, dp, now, n as nat)
            + seq!["  <none>"@, Seq::<char>::empty()]);
        assert(group_entries(names, ps, kind, dp, now, n as nat) =~= Seq::<Seq<char>>::empty()) by {
            lemma_no_entries(names, ps, kind, dp, now, n as nat);
        }
    }
    assert(string_views(lines@) =~= start + project_group_text(title@, names, ps, kind, dp, now));
}

/// The lines of the project list as printed on the command line, with
/// deployment ages at time `now`: app projects, then IPA projects, each
/// with its details and the default one marked.
pub fn project_list_lines_at(config: &Config, now: (i64, u32)) -> (r: Vec<String>)
    requires
        now.1 < 1_000_000_000,
    ensures
        string_views(r@) == project_list_text(*config, now),
{
    let mut lines: Vec<String> = Vec::new();
    if config.projects.len() == 0 {
        push_text(&mut lines, "No projects registered. Use `toss projects add <path>` to add one.");
        return lines;
    }
    push_project_group(&mut lines, "Xcode/App Projects", config, crate::config::ProjectKind::Xcode, now);
    push_project_group(&mut lines, "IPA Projects", config, crate::config::ProjectKind::Ipa, now);
    lines
}

/// The lines of the project list as printed on the command line, with
/// deployment ages at the current time.
pub fn project_list_lines(config: &Config) -> (r: Vec<String>)
    ensures
        exists|now: (i64, u32)| string_views(r@) == #[trigger] project_list_text(*config, now),
{
    let now = crate::time::now_instant();
    project_list_lines_at(config, now)
}

/// The details of a newly registered project as printed on the command
/// line.
pub open spec fn added_project_text(a: crate::project::AddedProject) -> Seq<Seq<char>> {
    seq!["  type:      "@ + crate::tui::kind_text(a.kind)]
        + crate::tui::opt_line("  build_dir: "@, a.build_dir)
        + crate::tui::opt_line("  source:    "@, a.source_dir)
        + crate::tui::opt_line("  cached:    "@, a.cached_ipa_path)
        + crate::tui::opt_line("  original:  "@, a.original_name)
        + crate::tui::opt_line("  app_name:  "@, a.app_name)
        + crate::tui::opt_line("  bundle_id: "@, a.bundle_id)
}

/// The details of a newly registered project: kind and, where known, build
/// directory, source, cached IPA, original file, app name and bundle
/// identifier.
pub fn added_project_lines(added: &crate::project::AddedProject) -> (r: Vec<String>)
    ensures
        string_views(r@) == added_project_text(*added),
{
    let mut lines: Vec<String> = Vec::new();
    let kind = match added.kind {
        crate::config::ProjectKind::Ipa => "ipa",
        crate::config::ProjectKind::Xcode => "xcode/app",
    };
    crate::tui::push_line(&mut lines, "  type:      ", kind);
    crate::tui::push_opt(&mut lines, "  build_dir: ", &added.build_dir);
    crate::tui::push_opt(&mut lines, "  source:    ", &added.source_dir);
    crate::tui::push_opt(&mut lines, "  cached:    ", &added.cached_ipa_path);
    crate::tui::push_opt(&mut lines, "  original:  ", &added.original_name);
    crate::tui::push_opt(&mut lines, "  app_name:  ", &added.app_name);
    crate::tui::push_opt(&mut lines, "  bundle_id: ", &added.bundle_id);
    assert(string_views(lines@) =~= added_project_text(*added));
    lines
}

/// The log lines of the terminal interface for a newly registered project.
pub open spec fn added_project_log_text(a: crate::project::AddedProject) -> Seq<Seq<char>> {
    seq!["added project '"@ + a.name@ + "'"@, "type: "@ + crate::tui::kind_text(a.kind)]
        + crate::tui::opt_line("build_dir: "@, a.build_dir)
        + crate::tui::opt_line("source: "@, a.source_dir)
        + crate::tui::opt_line("cached_ipa: "@, a.cached_ipa_path)
        + if a.is_default { seq!["default project set automatically"@] } else { Seq::empty() }
}

/// The log lines of the terminal interface for a newly registered project:
/// its name, kind, build directory, source and cached IPA where known, and
/// whether it became the default.
pub fn added_project_log(added: &crate::project::AddedProject) -> (r: Vec<String>)
    ensures
        string_views(r@) == added_project_log_text(*added),
{
    let mut lines: Vec<String> = Vec::new();
    let mut head = concat("added project '", added.name.as_str());
    head.append("'");
    push_owned(&mut lines, head);
    let kind = match added.kind {
        crate::config::ProjectKind::Ipa => "ipa",
        crate::config::ProjectKind::Xcode => "xcode/app",
    };
    crate::tui::push_line(&mut lines, "type: ", kind);
    crate::tui::push_opt(&mut lines, "build_dir: ", &added.build_dir);
    crate::tui::push_opt(&mut lines, "source: ", &added.source_dir);
    crate::tui::push_opt(&mut lines, "cached_ipa: ", &added.cached_ipa_path);
    if added.is_default {
        push_text(&mut lines, "default project set automatically");
    }
    assert(string_views(lines@) =~= added_project_log_text(*added));
    lines
}

} // verus!
