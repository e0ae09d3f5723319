//! The terminal dashboard's state: which panel has the focus, what is
//! selected in each, which actions a project offers, and the text shown in
//! its panels.

use vstd::prelude::*;
use crate::config::{Config, ProjectConfig, ProjectKind};
use crate::device::{Device, DeviceState};
use crate::error::TossError;
use crate::decimal::decimal;

verus! {

/// The panel that has the keyboard focus.
#[derive(Debug, Clone, Copy, PartialEq, Eq, Structural)]
pub enum Focus {
    Projects,
    Devices,
    Actions,
    Menu,
}

/// An action offered for the selected project.
#[derive(Debug, Clone, Copy, PartialEq, Eq, Structural)]
pub enum ProjectAction {
    Run,
    Install,
    Launch,
    SetDefault,
    Remove,
}

/// The label of a project action for a project of the given kind.
pub open spec fn project_action_label(a: ProjectAction, kind: ProjectKind) -> Seq<char> {
    match a {
        ProjectAction::Run => if kind == ProjectKind::Ipa { "Install + Launch IPA"@ } else { "Run app"@ },
        ProjectAction::Install => if kind == ProjectKind::Ipa { "Install IPA"@ } else { "Install app"@ },
        ProjectAction::Launch => "Launch app"@,
        ProjectAction::SetDefault => "Set as default"@,
        ProjectAction::Remove => "Remove project"@,
    }
}

impl ProjectAction {
    /// The label shown for the action on a project.
    pub fn label(self, project: &ProjectConfig) -> (r: &'static str)
        ensures
            r@ == project_action_label(self, project.kind),
    {
        match (self, project.kind) {
            (ProjectAction::Run, ProjectKind::Ipa) => "Install + Launch IPA",
            (ProjectAction::Run, ProjectKind::Xcode) => "Run app",
            (ProjectAction::Install, ProjectKind::Ipa) => "Install IPA",
            (ProjectAction::Install, ProjectKind::Xcode) => "Install app",
            (ProjectAction::Launch, _) => "Launch app",
            (ProjectAction::SetDefault, _) => "Set as default",
            (ProjectAction::Remove, _) => "Remove project",
        }
    }
}

/// An entry of the main menu.
#[derive(Debug, Clone, Copy, PartialEq, Eq, Structural)]
pub enum MenuAction {
    AddProject,
    Devices,
    State,
    Doctor,
    Clean,
    SignIpa,
    Quit,
}

/// The main menu's entries, in order.
pub open spec fn menu_entries() -> Seq<MenuAction> {
    seq![
        MenuAction::AddProject,
        MenuAction::Devices,
        MenuAction::State,
        MenuAction::Doctor,
        MenuAction::Clean,
        MenuAction::SignIpa,
        MenuAction::Quit,
    ]
}

/// The main menu's entries, in order.
pub fn menu_items() -> (r: Vec<MenuAction>)
    ensures
        r@ == menu_entries(),
{
    let r = vec![
        MenuAction::AddProject,
        MenuAction::Devices,
        MenuAction::State,
        MenuAction::Doctor,
        MenuAction::Clean,
        MenuAction::SignIpa,
        MenuAction::Quit,
    ];
    assert(r@ =~= menu_entries());
    r
}

impl MenuAction {
    /// The entry's label.
    pub fn label(self) -> (r: &'static str)
        ensures
            r@ == match self {
                MenuAction::AddProject => "Add project"@,
                MenuAction::Devices => "Devices"@,
                MenuAction::State => "State"@,
                MenuAction::Doctor => "Doctor"@,
                MenuAction::Clean => "Clean"@,
                MenuAction::SignIpa => "Sign IPA"@,
                MenuAction::Quit => "Quit"@,
            },
    {
        match self {
            MenuAction::AddProject => "Add project",
            MenuAction::Devices => "Devices",
            MenuAction::State => "State",
            MenuAction::Doctor => "Doctor",
            MenuAction::Clean => "Clean",
            MenuAction::SignIpa => "Sign IPA",
            MenuAction::Quit => "Quit",
        }
    }

    /// What the entry does.
    pub fn description(self) -> (r: &'static str)
        ensures
            r@ == match self {
                MenuAction::AddProject => "Register a new Xcode/App or IPA project"@,
                MenuAction::Devices => "Inspect devices and manage aliases"@,
                MenuAction::State => "Show local toss state and caches"@,
                MenuAction::Doctor => "Run environment diagnostics"@,
                MenuAction::Clean => "Inspect and delete local artifacts"@,
                MenuAction::SignIpa => "Resign any IPA and deploy it"@,
                MenuAction::Quit => "Exit the TUI"@,
            },
    {
        match self {
            MenuAction::AddProject => "Register a new Xcode/App or IPA project",
            MenuAction::Devices => "Inspect devices and manage aliases",
            MenuAction::State => "Show local toss state and caches",
            MenuAction::Doctor => "Run environment diagnostics",
            MenuAction::Clean => "Inspect and delete local artifacts",
            MenuAction::SignIpa => "Resign any IPA and deploy it",
            MenuAction::Quit => "Exit the TUI",
        }
    }
}

/// The actions a project offers: run and install, launch for app projects,
/// then set as default and remove.
pub open spec fn actions_for(kind: ProjectKind) -> Seq<ProjectAction> {
    if kind == ProjectKind::Ipa {
        seq![ProjectAction::Run, ProjectAction::Install, ProjectAction::SetDefault, ProjectAction::Remove]
    } else {
        seq![ProjectAction::Run, ProjectAction::Install, ProjectAction::Launch, ProjectAction::SetDefault, ProjectAction::Remove]
    }
}

/// The actions a project offers.
pub fn project_actions(project: &ProjectConfig) -> (r: Vec<ProjectAction>)
    ensures
        r@ == actions_for(project.kind),
{
    let mut actions = vec![ProjectAction::Run, ProjectAction::Install];
    if !project.is_ipa() {
        actions.push(ProjectAction::Launch);
    }
    actions.push(ProjectAction::SetDefault);
    actions.push(ProjectAction::Remove);
    assert(actions@ =~= actions_for(project.kind));
    actions
}

/// The project at position `selected` in name order, if any.
pub fn selected_project(config: &Config, selected: usize) -> (r: Option<(&String, &ProjectConfig)>)
    ensures
        selected < config.projects.key_seq().len() ==> (r matches Some((n, p)) && n@ == config.projects.key_seq()[selected as int]
            && *p == config.projects@[config.projects.key_seq()[selected as int]]),
        selected >= config.projects.key_seq().len() ==> r is None,
{
    if selected < config.projects.len() {
        Some((config.projects.key_at(selected), config.projects.value_at(selected)))
    } else {
        None
    }
}

/// The number of actions the project at position `selected` offers (none
/// when there is no such project).
pub open spec fn action_count(config: Config, selected: nat) -> nat {
    if selected < config.projects.key_seq().len() {
        actions_for(config.projects@[config.projects.key_seq()[selected as int]].kind).len()
    } else {
        0
    }
}

fn selected_action_count(config: &Config, selected: usize) -> (n: usize)
    ensures
        n == action_count(*config, selected as nat),
{
    match selected_project(config, selected) {
        Some((_, project)) => project_actions(project).len(),
        None => 0,
    }
}

/// The dashboard's state, without its log.
#[derive(Debug)]
pub struct AppState {
    pub focus: Focus,
    pub project_selected: usize,
    pub device_selected: usize,
    pub action_selected: usize,
    pub menu_selected: usize,
    pub devices: Vec<Device>,
    pub device_error: Option<String>,
}

/// The selections are within their lists (a selection is 0 when its list is
/// empty), and the action panel is only focused when there is a project.
pub open spec fn clamped(app: AppState, config: Config) -> bool {
    let n = config.projects.key_seq().len();
    &&& (if n == 0 { app.project_selected == 0 } else { app.project_selected < n })
    &&& (n == 0 ==> app.focus != Focus::Actions)
    &&& (if action_count(config, app.project_selected as nat) == 0 { app.action_selected == 0 } else {
        app.action_selected < action_count(config, app.project_selected as nat) })
    &&& (if app.devices@.len() == 0 { app.device_selected == 0 } else { app.device_selected < app.devices@.len() })
    &&& app.menu_selected < 7
}

/// The focus after moving to the next panel.
pub open spec fn next_focus(f: Focus, no_projects: bool) -> Focus {
    match f {
        Focus::Projects => Focus::Devices,
        Focus::Devices => if no_projects { Focus::Menu } else { Focus::Actions },
        Focus::Actions => Focus::Menu,
        Focus::Menu => Focus::Projects,
    }
}

/// The focus after moving to the previous panel.
pub open spec fn prev_focus(f: Focus, no_projects: bool) -> Focus {
    match f {
        Focus::Projects => Focus::Menu,
        Focus::Devices => Focus::Projects,
        Focus::Actions => Focus::Devices,
        Focus::Menu => if no_projects { Focus::Devices } else { Focus::Actions },
    }
}

impl AppState {
    /// The initial state: projects focused, nothing selected, no devices
    /// listed yet.
    pub fn new() -> (r: Self)
        ensures
            r.focus == Focus::Projects,
            r.project_selected == 0,
            r.device_selected == 0,
            r.action_selected == 0,
            r.menu_selected == 0,
            r.devices@.len() == 0,
            r.device_error is None,
    {
        AppState {
            focus: Focus::Projects,
            project_selected: 0,
            device_selected: 0,
            action_selected: 0,
            menu_selected: 0,
            devices: Vec::new(),
            device_error: None,
        }
    }

    /// Brings every selection back within its list after the projects or
    /// devices changed; leaves the action panel when no project is left.
    pub fn clamp(&mut self, config: &Config)
        ensures
            clamped(*final(self), *config),
            final(self).devices == old(self).devices,
            final(self).device_error == old(self).device_error,
            old(self).focus != Focus::Actions || config.projects.key_seq().len() > 0 ==> final(self).focus == old(self).focus,
            config.projects.key_seq().len() == 0 && old(self).focus == Focus::Actions ==> final(self).focus == Focus::Projects,
            final(self).project_selected == if config.projects.key_seq().len() == 0 { 0 } else if old(self).project_selected < config.projects.key_seq().len() { old(self).project_selected } else { (config.projects.key_seq().len() - 1) as usize },
            old(self).device_selected < old(self).devices@.len() ==> final(self).device_selected == old(self).device_selected,
            old(self).menu_selected < 7 ==> final(self).menu_selected == old(self).menu_selected,
            old(self).action_selected < action_count(*config, final(self).project_selected as nat) ==> final(self).action_selected == old(self).action_selected,
    {
        let project_count = config.projects.len();
        if project_count == 0 {
            self.project_selected = 0;
            if self.focus == Focus::Actions {
                self.focus = Focus::Projects;
            }
        } else if self.project_selected >= project_count {
            self.project_selected = project_count - 1;
        }
        let action_count = selected_action_count(config, self.project_selected);
        if action_count == 0 {
            self.action_selected = 0;
        } else if self.action_selected >= action_count {
            self.action_selected = action_count - 1;
        }
        if self.devices.len() == 0 {
            self.device_selected = 0;
        } else if self.device_selected >= self.devices.len() {
            self.device_selected = self.devices.len() - 1;
        }
        if self.menu_selected >= 7 {
            self.menu_selected = 6;
        }
    }

    /// Moves the focus to the next panel (the action panel is skipped when
    /// there is no project).
    pub fn move_focus_next(&mut self, config: &Config)
        ensures
            clamped(*final(self), *config) || final(self).focus == Focus::Actions,
            final(self).focus == next_focus(
                if old(self).focus == Focus::Actions && config.projects.key_seq().len() == 0 { Focus::Projects } else { old(self).focus },
                config.projects.key_seq().len() == 0,
            ),
    {
        self.clamp(config);
        let no_projects = config.projects.is_empty();
        self.focus = match self.focus {
            Focus::Projects => Focus::Devices,
            Focus::Devices => if no_projects { Focus::Menu } else { Focus::Actions },
            Focus::Actions => Focus::Menu,
            Focus::Menu => Focus::Projects,
        };
    }

    /// Moves the focus to the previous panel.
    pub fn move_focus_prev(&mut self, config: &Config)
        ensures
            final(self).focus == prev_focus(
                if old(self).focus == Focus::Actions && config.projects.key_seq().len() == 0 { Focus::Projects } else { old(self).focus },
                config.projects.key_seq().len() == 0,
            ),
            final(self).project_selected == if config.projects.key_seq().len() == 0 { 0 } else if old(self).project_selected < config.projects.key_seq().len() { old(self).project_selected } else { (config.projects.key_seq().len() - 1) as usize },
    {
        self.clamp(config);
        let no_projects = config.projects.is_empty();
        self.focus = match self.focus {
            Focus::Projects => Focus::Menu,
            Focus::Devices => Focus::Projects,
            Focus::Actions => Focus::Devices,
            Focus::Menu => if no_projects { Focus::Devices } else { Focus::Actions },
        };
    }

    /// Moves the focus right: from the lists to the actions (or the menu
    /// when there is no project), from the actions to the menu.
    pub fn move_focus_right(&mut self, config: &Config)
        ensures
            final(self).focus == match (if old(self).focus == Focus::Actions && config.projects.key_seq().len() == 0 { Focus::Projects } else { old(self).focus }) {
                Focus::Projects | Focus::Devices => if config.projects.key_seq().len() == 0 { Focus::Menu } else { Focus::Actions },
                Focus::Actions => Focus::Menu,
                Focus::Menu => Focus::Menu,
            },
    {
        self.clamp(config);
        let no_projects = config.projects.is_empty();
        self.focus = match self.focus {
            Focus::Projects | Focus::Devices => if no_projects { Focus::Menu } else { Focus::Actions },
            Focus::Actions => Focus::Menu,
            Focus::Menu => Focus::Menu,
        };
    }

    /// Moves the focus left: to the projects, or from the menu to the
    /// actions.
    pub fn move_focus_left(&mut self, config: &Config)
        ensures
            final(self).focus == match old(self).focus {
                Focus::Menu => Focus::Actions,
                _ => Focus::Projects,
            },
            final(self).project_selected == old(self).project_selected,
            final(self).device_selected == old(self).device_selected,
            final(self).action_selected == old(self).action_selected,
            final(self).menu_selected == old(self).menu_selected,
    {
        self.focus = match self.focus {
            Focus::Projects | Focus::Devices => Focus::Projects,
            Focus::Actions => Focus::Projects,
            Focus::Menu => Focus::Actions,
        };
    }
}

/// Moving to the previous panel undoes moving to the next one, from any
/// focus the dashboard can have.
pub proof fn lemma_prev_undoes_next(f: Focus, no_projects: bool)
    requires
        !(no_projects && f == Focus::Actions),
    ensures
        prev_focus(next_focus(f, no_projects), no_projects) == f,
        next_focus(prev_focus(f, no_projects), no_projects) == f,
{
}

/// Moves the selection up in the focused panel; above the first device the
/// focus returns to the projects.
pub fn move_selection_up(app: &mut AppState)
    ensures
        match old(app).focus {
            Focus::Projects => final(app).project_selected == (if old(app).project_selected == 0 { 0 } else { (old(app).project_selected - 1) as usize })
                && final(app).focus == Focus::Projects,
            Focus::Devices => if old(app).device_selected == 0 {
                final(app).focus == Focus::Projects && final(app).device_selected == 0
            } else {
                final(app).focus == Focus::Devices && final(app).device_selected == old(app).device_selected - 1
            },
            Focus::Actions => final(app).action_selected == (if old(app).action_selected == 0 { 0 } else { (old(app).action_selected - 1) as usize })
                && final(app).focus == Focus::Actions,
            Focus::Menu => final(app).menu_selected == (if old(app).menu_selected == 0 { 0 } else { (old(app).menu_selected - 1) as usize })
                && final(app).focus == Focus::Menu,
        },
        final(app).devices == old(app).devices,
{
    match app.focus {
        Focus::Projects => app.project_selected = app.project_selected.saturating_sub(1),
        Focus::Devices => {
            if app.device_selected == 0 {
                app.focus = Focus::Projects;
            } else {
                app.device_selected = app.device_selected - 1;
            }
        },
        Focus::Actions => app.action_selected = app.action_selected.saturating_sub(1),
        Focus::Menu => app.menu_selected = app.menu_selected.saturating_sub(1),
    }
}

/// Moves the selection down in the focused panel; below the last project
/// the focus moves to the devices.
pub fn move_selection_down(app: &mut AppState, config: &Config)
    ensures
        old(app).focus == Focus::Projects && old(app).project_selected + 1 < config.projects.key_seq().len() ==>
            final(app).project_selected == old(app).project_selected + 1 && final(app).focus == Focus::Projects,
        old(app).focus == Focus::Projects && !(old(app).project_selected + 1 < config.projects.key_seq().len()) ==>
            final(app).project_selected == old(app).project_selected && final(app).focus == Focus::Devices,
        old(app).focus == Focus::Devices ==> final(app).focus == Focus::Devices && final(app).device_selected == (
            if old(app).device_selected + 1 < old(app).devices@.len() { old(app).device_selected + 1 } else { old(app).device_selected as int }),
        old(app).focus == Focus::Actions ==> final(app).focus == Focus::Actions && final(app).action_selected == (
            if old(app).action_selected + 1 < action_count(*config, old(app).project_selected as nat) { old(app).action_selected + 1 } else { old(app).action_selected as int }),
        old(app).focus == Focus::Menu ==> final(app).focus == Focus::Menu && final(app).menu_selected == (
            if old(app).menu_selected + 1 < 7 { old(app).menu_selected + 1 } else { old(app).menu_selected as int }),
        final(app).devices == old(app).devices,
{
    match app.focus {
        Focus::Projects => {
            let n = config.projects.len();
            if app.project_selected < usize::MAX && app.project_selected + 1 < n {
                app.project_selected = app.project_selected + 1;
            } else {
                assert(!(old(app).project_selected + 1 < config.projects.key_seq().len()));
                app.focus = Focus::Devices;
            }
        },
        Focus::Devices => {
            let n = app.devices.len();
            if app.device_selected < usize::MAX && app.device_selected + 1 < n {
                app.device_selected = app.device_selected + 1;
            }
        },
        Focus::Actions => {
            let count = selected_action_count(config, app.project_selected);
            if app.action_selected < usize::MAX && app.action_selected + 1 < count {
                app.action_selected = app.action_selected + 1;
            }
        },
        Focus::Menu => {
            if app.menu_selected < 6 {
                app.menu_selected = app.menu_selected + 1;
            }
        },
    }
}

/// Number of devices in a state accepted by `f`.
pub open spec fn count_devices(ds: Seq<Device>, f: spec_fn(DeviceState) -> bool) -> nat
    decreases ds.len(),
{
    if ds.len() == 0 {
        0
    } else {
        count_devices(ds.drop_last(), f) + if f(ds.last().state) { 1nat } else { 0nat }
    }
}

/// The device summary of the dashboard: connected devices always, then
/// paired, disconnected and unknown ones when there are any.
pub open spec fn summary_text(ds: Seq<Device>) -> Seq<char> {
    let connected = count_devices(ds, |s: DeviceState| s is Connected);
    let paired = count_devices(ds, |s: DeviceState| s is Paired);
    let disconnected = count_devices(ds, |s: DeviceState| s is Disconnected);
    let unknown = count_devices(ds, |s: DeviceState| s is Unknown);
    seq!['●'] + decimal(connected)
        + (if paired > 0 { seq![' ', '◐'] + decimal(paired) } else { Seq::empty() })
        + (if disconnected > 0 { seq![' ', '○'] + decimal(disconnected) } else { Seq::empty() })
        + (if unknown > 0 { seq![' ', '?'] + decimal(unknown) } else { Seq::empty() })
}

/// Counts the devices in each state and writes the summary.
pub fn device_summary(devices: &[Device]) -> (r: String)
    ensures
        r@ == summary_text(devices@),
{
    let mut connected: u64 = 0;
    let mut paired: u64 = 0;
    let mut disconnected: u64 = 0;
    let mut unknown: u64 = 0;
    let mut i: usize = 0;
    while i < devices.len()
        invariant
            i <= devices@.len(),
            devices@.len() == devices.len(),
            connected == count_devices(devices@.subrange(0, i as int), |s: DeviceState| s is Connected),
            paired == count_devices(devices@.subrange(0, i as int), |s: DeviceState| s is Paired),
            disconnected == count_devices(devices@.subrange(0, i as int), |s: DeviceState| s is Disconnected),
            unknown == count_devices(devices@.subrange(0, i as int), |s: DeviceState| s is Unknown),
            connected + paired + disconnected + unknown == i,
        decreases devices@.len() - i,
    {
        assert(devices@.subrange(0, i + 1).drop_last() =~= devices@.subrange(0, i as int));
        assert(devices@.subrange(0, i + 1).last() == devices@[i as int]);
        match devices[i].state {
            DeviceState::Connected => connected = connected + 1,
            DeviceState::Paired => paired = paired + 1,
            DeviceState::Disconnected => disconnected = disconnected + 1,
            DeviceState::Unknown(_) => unknown = unknown + 1,
        }
        i = i + 1;
    }
    assert(devices@.subrange(0, devices@.len() as int) =~= devices@);
    let mut r = String::new();
    crate::text::push_char(&mut r, '●');
    r.append(crate::decimal::u64_to_decimal(connected).as_str());
    if paired > 0 {
        crate::text::push_char(&mut r, ' ');
        crate::text::push_char(&mut r, '◐');
        r.append(crate::decimal::u64_to_decimal(paired).as_str());
    }
    if disconnected > 0 {
        crate::text::push_char(&mut r, ' ');
        crate::text::push_char(&mut r, '○');
        r.append(crate::decimal::u64_to_decimal(disconnected).as_str());
    }
    if unknown > 0 {
        crate::text::push_char(&mut r, ' ');
        crate::text::push_char(&mut r, '?');
        r.append(crate::decimal::u64_to_decimal(unknown).as_str());
    }
    assert(r@ =~= summary_text(devices@));
    r
}

/// The symbol of a connection state.
pub open spec fn state_symbol(s: DeviceState) -> char {
    match s {
        DeviceState::Connected => '●',
        DeviceState::Paired => '◐',
        DeviceState::Disconnected => '○',
        DeviceState::Unknown(_) => '?',
    }
}

/// The symbol shown for a connection state.
pub fn device_state_symbol(state: &DeviceState) -> (c: char)
    ensures
        c == state_symbol(*state),
{
    match state {
        DeviceState::Connected => '●',
        DeviceState::Paired => '◐',
        DeviceState::Disconnected => '○',
        DeviceState::Unknown(_) => '?',
    }
}

/// The device is the configured default: named by identifier, UDID, or an
/// alias of its UDID.
pub open spec fn default_device_is(config: Config, d: Device) -> bool {
    match config.defaults.device {
        None => false,
        Some(def) => def@ == d.identifier@ || def@ == d.udid@ || (config.devices.aliases@.dom().contains(def@)
            && config.devices.aliases@[def@]@ == d.udid@),
    }
}

/// Whether the device is the configured default device.
pub fn is_default_device(config: &Config, device: &Device) -> (b: bool)
    ensures
        b == default_device_is(*config, *device),
{
    let def = match &config.defaults.device {
        Some(d) => d,
        None => return false,
    };
    if crate::text::str_eq(def.as_str(), device.identifier.as_str()) || crate::text::str_eq(def.as_str(), device.udid.as_str()) {
        return true;
    }
    match config.devices.aliases.get(def.as_str()) {
        Some(udid) => crate::text::str_eq(udid.as_str(), device.udid.as_str()),
        None => false,
    }
}

/// The width of the progress bar: at least 20.
pub open spec fn bar_width(width: nat) -> nat {
    if width < 20 { 20 } else { width }
}

/// The length of the moving segment: a quarter of the bar, at least 6.
pub open spec fn bar_segment(width: nat) -> nat {
    let w = bar_width(width);
    let q = w / 4;
    if q < 6 { 6 } else { q }
}

/// How far the segment travels.
pub open spec fn bar_travel(width: nat) -> nat {
    (bar_width(width) - bar_segment(width)) as nat
}

/// Where the segment starts at a tick: it moves one step per tick and
/// bounces at the ends.
pub open spec fn bar_start(width: nat, tick: nat) -> nat {
    let travel = bar_travel(width);
    if travel == 0 {
        0
    } else {
        let step = tick % (travel * 2);
        if step <= travel { step } else { (travel * 2 - step) as nat }
    }
}

/// The progress bar at a tick: `[`, the segment of `=` on spaces, `]`.
pub open spec fn bar_text(width: nat, tick: nat) -> Seq<char> {
    let start = bar_start(width, tick);
    let seg = bar_segment(width);
    seq!['['] + Seq::new(bar_width(width), |i: int| if start <= i < start + seg { '=' } else { ' ' }) + seq![']']
}

/// Draws the indeterminate progress bar for a tick.
pub fn indeterminate_bar(width: usize, tick: usize) -> (r: String)
    requires
        bar_travel(width as nat) * 2 <= usize::MAX,
    ensures
        r@ == bar_text(width as nat, tick as nat),
{
    let width = if width < 20 { 20 } else { width };
    let q = width / 4;
    let segment = if q < 6 { 6 } else { q };
    assert(segment <= width);
    let travel = width - segment;
    let start = if travel == 0 {
        0
    } else {
        let cycle = travel * 2;
        let step = tick % cycle;
        if step <= travel { step } else { cycle - step }
    };
    let mut bar = String::new();
    crate::text::push_char(&mut bar, '[');
    let ghost body = Seq::new(width as nat, |i: int| if start <= i < start + segment { '=' } else { ' ' });
    let mut index: usize = 0;
    while index < width
        invariant
            index <= width,
            bar@ == seq!['['] + body.subrange(0, index as int),
            body == Seq::new(width as nat, |i: int| if start <= i < start + segment { '=' } else { ' ' }),
        decreases width - index,
    {
        if index >= start && index - start < segment {
            crate::text::push_char(&mut bar, '=');
        } else {
            crate::text::push_char(&mut bar, ' ');
        }
        assert(body.subrange(0, index + 1) =~= body.subrange(0, index as int).push(body[index as int]));
        index = index + 1;
    }
    crate::text::push_char(&mut bar, ']');
    assert(body.subrange(0, width as int) =~= body);
    assert(bar@ =~= bar_text(width as nat, tick as nat));
    bar
}

/// Lists the devices again: on success the list (selection kept within
/// it) and, when asked, a log line with the summary; on failure a marker
/// and, when asked, a log line with the error.
pub fn refresh_device_panel(app: &mut AppState, listing: Result<Vec<Device>, TossError>, emit_log: bool) -> (log: Option<String>)
    ensures
        match listing {
            Ok(ds) => {
                &&& final(app).devices@ == ds@
                &&& final(app).device_error is None
                &&& final(app).device_selected == if ds@.len() == 0 { 0 } else if old(app).device_selected < ds@.len() {
                    old(app).device_selected } else { (ds@.len() - 1) as usize }
                &&& emit_log ==> (log matches Some(l) && l@ == "devices refreshed: "@ + summary_text(ds@))
            },
            Err(e) => {
                &&& final(app).devices == old(app).devices
                &&& final(app).device_error matches Some(m) && m@ == "! refresh failed"@
                &&& final(app).device_selected == old(app).device_selected
                &&& emit_log ==> (log matches Some(l) && l@ == "device refresh failed: "@ + crate::error::error_text(e))
            },
        },
        !emit_log ==> log is None,
        final(app).focus == old(app).focus,
        final(app).project_selected == old(app).project_selected,
        final(app).action_selected == old(app).action_selected,
        final(app).menu_selected == old(app).menu_selected,
{
    match listing {
        Ok(devices) => {
            let summary = device_summary(devices.as_slice());
            app.devices = devices;
            app.device_error = None;
            let n = app.devices.len();
            if n == 0 {
                app.device_selected = 0;
            } else if app.device_selected >= n {
                app.device_selected = n - 1;
            }
            if emit_log {
                Some(crate::text::concat("devices refreshed: ", summary.as_str()))
            } else {
                None
            }
        },
        Err(err) => {
            app.device_error = Some("! refresh failed".to_string());
            if emit_log {
                Some(crate::text::concat("device refresh failed: ", err.message().as_str()))
            } else {
                None
            }
        },
    }
}

/// The text of an optional value, or a placeholder.
pub open spec fn or_text(o: Option<String>, placeholder: Seq<char>) -> Seq<char> {
    match o {
        Some(v) => v@,
        None => placeholder,
    }
}

/// The project is the default project.
pub open spec fn is_default_project(config: Config, name: Seq<char>) -> bool {
    config.defaults.project matches Some(d) && d@ == name
}

fn default_project_is(config: &Config, name: &str) -> (b: bool)
    ensures
        b == is_default_project(*config, name@),
{
    match &config.defaults.project {
        Some(d) => crate::text::str_eq(d.as_str(), name),
        None => false,
    }
}

/// The kind of a project as shown.
pub open spec fn kind_text(k: ProjectKind) -> Seq<char> {
    if k == ProjectKind::Xcode { "xcode/app"@ } else { "ipa"@ }
}

fn kind_label(k: ProjectKind) -> (r: &'static str)
    ensures
        r@ == kind_text(k),
{
    match k {
        ProjectKind::Xcode => "xcode/app",
        ProjectKind::Ipa => "ipa",
    }
}

/// The identity lines of a project's detail panel.
pub open spec fn identity_lines(config: Config, name: Seq<char>, p: ProjectConfig) -> Seq<Seq<char>> {
    seq![
        "kind  "@ + kind_text(p.kind),
        "default  "@ + (if is_default_project(config, name) { "★ yes"@ } else { "· no"@ }),
        match p.bundle_id { Some(b) => "bundle  "@ + b@, None => "bundle  <missing>"@ },
    ] + match p.app_name { Some(a) => seq!["app     "@ + a@], None => Seq::empty() }
}

pub(crate) fn push_line(lines: &mut Vec<String>, a: &str, b: &str)
    ensures
        crate::lines::string_views(final(lines)@) == crate::lines::string_views(old(lines)@).push(a@ + b@),
{
    let ghost before = lines@;
    lines.push(crate::text::concat(a, b));
    assert(crate::lines::string_views(lines@) =~= crate::lines::string_views(before).push(a@ + b@));
}

pub(crate) fn push_text(lines: &mut Vec<String>, a: &str)
    ensures
        crate::lines::string_views(final(lines)@) == crate::lines::string_views(old(lines)@).push(a@),
{
    let ghost before = lines@;
    lines.push(a.to_string());
    assert(crate::lines::string_views(lines@) =~= crate::lines::string_views(before).push(a@));
}

/// The identity lines of a project's detail panel: kind, whether it is the
/// default, bundle identifier and app name.
pub fn project_identity_lines(config: &Config, project_name: &str, project: &ProjectConfig) -> (r: Vec<String>)
    ensures
        crate::lines::string_views(r@) == identity_lines(*config, project_name@, *project),
{
    let mut lines: Vec<String> = Vec::new();
    push_line(&mut lines, "kind  ", kind_label(project.kind));
    push_line(&mut lines, "default  ", if default_project_is(config, project_name) { "★ yes" } else { "· no" });
    match &project.bundle_id {
        Some(b) => push_line(&mut lines, "bundle  ", b.as_str()),
        None => push_text(&mut lines, "bundle  <missing>"),
    }
    if let Some(a) = &project.app_name {
        push_line(&mut lines, "app     ", a.as_str());
    }
    assert(crate::lines::string_views(lines@) =~= identity_lines(*config, project_name@, *project));
    lines
}

/// The source lines of a project's detail panel.
pub open spec fn source_lines(p: ProjectConfig) -> Seq<Seq<char>> {
    if p.kind == ProjectKind::Xcode {
        seq!["build   "@ + p.build_dir@, match p.path { Some(s) => "source  "@ + s@, None => "source  <unset>"@ }]
    } else {
        seq![
            match p.ipa_path { Some(s) => "cache   "@ + s@, None => "cache   <unset>"@ },
            match p.original_name { Some(s) => "file    "@ + s@, None => "file    <unknown>"@ },
        ]
    }
}

/// The source lines of a project's detail panel: build and source
/// directories of an app project, cached copy and file name of an IPA.
pub fn project_source_lines(project: &ProjectConfig) -> (r: Vec<String>)
    ensures
        crate::lines::string_views(r@) == source_lines(*project),
{
    let mut lines: Vec<String> = Vec::new();
    match project.kind {
        ProjectKind::Xcode => {
            push_line(&mut lines, "build   ", project.build_dir.as_str());
            match &project.path {
                Some(p) => push_line(&mut lines, "source  ", p.as_str()),
                None => push_text(&mut lines, "source  <unset>"),
            }
        },
        ProjectKind::Ipa => {
            match &project.ipa_path {
                Some(p) => push_line(&mut lines, "cache   ", p.as_str()),
                None => push_text(&mut lines, "cache   <unset>"),
            }
            match &project.original_name {
                Some(n) => push_line(&mut lines, "file    ", n.as_str()),
                None => push_text(&mut lines, "file    <unknown>"),
            }
        },
    }
    assert(crate::lines::string_views(lines@) =~= source_lines(*project));
    lines
}

/// The artifact lines of a project's detail panel.
pub open spec fn artifact_lines(p: ProjectConfig) -> Seq<Seq<char>> {
    if p.kind == ProjectKind::Xcode {
        seq![
            "mode    live build"@,
            "dir     "@ + p.build_dir@,
            match p.path { Some(s) => "sync    "@ + s@, None => "sync    <unset>"@ },
        ]
    } else {
        seq![
            "mode    cached ipa"@,
            match p.ipa_path { Some(s) => "asset   "@ + s@, None => "asset   <unset>"@ },
            match p.original_name { Some(s) => "name    "@ + s@, None => "name    <unknown>"@ },
        ]
    }
}

/// The artifact lines of a project's detail panel: how it is deployed and
/// from where.
pub fn project_artifact_lines(project: &ProjectConfig) -> (r: Vec<String>)
    ensures
        crate::lines::string_views(r@) == artifact_lines(*project),
{
    let mut lines: Vec<String> = Vec::new();
    match project.kind {
        ProjectKind::Xcode => {
            push_text(&mut lines, "mode    live build");
            push_line(&mut lines, "dir     ", project.build_dir.as_str());
            match &project.path {
                Some(p) => push_line(&mut lines, "sync    ", p.as_str()),
                None => push_text(&mut lines, "sync    <unset>"),
            }
        },
        ProjectKind::Ipa => {
            push_text(&mut lines, "mode    cached ipa");
            match &project.ipa_path {
                Some(p) => push_line(&mut lines, "asset   ", p.as_str()),
                None => push_text(&mut lines, "asset   <unset>"),
            }
            match &project.original_name {
                Some(n) => push_line(&mut lines, "name    ", n.as_str()),
                None => push_text(&mut lines, "name    <unknown>"),
            }
        },
    }
    assert(crate::lines::string_views(lines@) =~= artifact_lines(*project));
    lines
}

/// The recent-activity lines of a project's detail panel, with the last
/// deployment shown as `tossed`.
pub open spec fn recent_lines(config: Config, name: Seq<char>, p: ProjectConfig, tossed: Seq<char>) -> Seq<Seq<char>> {
    seq![
        "tossed  "@ + tossed,
        "role    "@ + (if is_default_project(config, name) { "default"@ } else { "secondary"@ }),
    ] + if p.kind == ProjectKind::Xcode {
        match p.app_name { Some(a) => seq!["target  "@ + a@], None => Seq::empty() }
    } else {
        match p.original_name { Some(n) => seq!["origin  "@ + n@], None => Seq::empty() }
    }
}

pub(crate) fn opt_str(o: &Option<String>) -> (r: Option<&str>)
    ensures
        match *o { Some(s) => r matches Some(t) && t@ == s@, None => r is None },
{
    match o {
        Some(s) => Some(s.as_str()),
        None => None,
    }
}

/// The recent-activity lines of a project's detail panel: when it was last
/// deployed, whether it is the default, and its app or original file.
pub fn project_recent_lines(config: &Config, project_name: &str, project: &ProjectConfig) -> (r: Vec<String>)
    ensures
        exists|tossed: Seq<char>| crate::time::shows_last_tossed(
            match project.last_tossed_at { Some(t) => Some(t@), None => None },
            tossed,
        ) && crate::lines::string_views(r@) == recent_lines(*config, project_name@, *project, tossed),
{
    let tossed = crate::time::format_last_tossed(opt_str(&project.last_tossed_at));
    let mut lines: Vec<String> = Vec::new();
    push_line(&mut lines, "tossed  ", tossed.as_str());
    push_line(&mut lines, "role    ", if default_project_is(config, project_name) { "default" } else { "secondary" });
    match project.kind {
        ProjectKind::Xcode => {
            if let Some(a) = &project.app_name {
                push_line(&mut lines, "target  ", a.as_str());
            }
        },
        ProjectKind::Ipa => {
            if let Some(n) = &project.original_name {
                push_line(&mut lines, "origin  ", n.as_str());
            }
        },
    }
    assert(crate::lines::string_views(lines@) =~= recent_lines(*config, project_name@, *project, tossed@));
    lines
}

/// A line for an optional value: `prefix` and the value, or nothing.
pub open spec fn opt_line(prefix: Seq<char>, o: Option<String>) -> Seq<Seq<char>> {
    match o {
        Some(v) => seq![prefix + v@],
        None => Seq::empty(),
    }
}

pub(crate) fn push_opt(lines: &mut Vec<String>, prefix: &str, o: &Option<String>)
    ensures
        crate::lines::string_views(final(lines)@) == crate::lines::string_views(old(lines)@) + opt_line(prefix@, *o),
{
    match o {
        Some(v) => push_line(lines, prefix, v.as_str()),
        None => {
            assert(crate::lines::string_views(lines@) + opt_line(prefix@, *o) =~= crate::lines::string_views(lines@));
        },
    }
}

/// The clock reading `now` as seconds and nanoseconds.
pub open spec fn instant(now: (i64, u32)) -> (int, int) {
    (now.0 as int, now.1 as int)
}

/// The lines describing one project in the state view, at time `now`.
pub open spec fn state_entry_lines(name: Seq<char>, p: ProjectConfig, now: (i64, u32)) -> Seq<Seq<char>> {
    seq!["    "@ + name, "      type: "@ + kind_text(p.kind)]
        + (if p.kind == ProjectKind::Ipa {
            opt_line("      cached_ipa: "@, p.ipa_path) + opt_line("      original_name: "@, p.original_name)
        } else {
            seq!["      build_dir: "@ + p.build_dir@] + opt_line("      source: "@, p.path) + opt_line("      app_name: "@, p.app_name)
        })
        + opt_line("      bundle_id: "@, p.bundle_id)
        + seq!["      last_tossed_at: "@ + crate::time::last_tossed_text(
            match p.last_tossed_at { Some(t) => Some(t@), None => None }, instant(now))]
}

/// The lines of the projects of a kind in the state view.
pub open spec fn state_group_body(ps: Seq<(String, ProjectConfig)>, kind: ProjectKind, now: (i64, u32)) -> Seq<Seq<char>>
    decreases ps.len(),
{
    if ps.len() == 0 {
        Seq::empty()
    } else {
        state_group_body(ps.drop_last(), kind, now) + if ps.last().1.kind == kind {
            state_entry_lines(ps.last().0@, ps.last().1, now)
        } else {
            Seq::empty()
        }
    }
}

/// Some project is of the kind.
pub open spec fn has_kind(ps: Seq<(String, ProjectConfig)>, kind: ProjectKind) -> bool
    decreases ps.len(),
{
    ps.len() > 0 && (has_kind(ps.drop_last(), kind) || ps.last().1.kind == kind)
}

fn push_state_entry(lines: &mut Vec<String>, name: &String, project: &ProjectConfig, now: (i64, u32))
    requires
        now.1 < 1_000_000_000,
    ensures
        crate::lines::string_views(final(lines)@) == crate::lines::string_views(old(lines)@) + state_entry_lines(name@, *project, now),
{
    let ghost before = crate::lines::string_views(lines@);
    push_line(lines, "    ", name.as_str());
    push_line(lines, "      type: ", kind_label(project.kind));
    if project.is_ipa() {
        push_opt(lines, "      cached_ipa: ", &project.ipa_path);
        push_opt(lines, "      original_name: ", &project.original_name);
    } else {
        push_line(lines, "      build_dir: ", project.build_dir.as_str());
        push_opt(lines, "      source: ", &project.path);
        push_opt(lines, "      app_name: ", &project.app_name);
    }
    push_opt(lines, "      bundle_id: ", &project.bundle_id);
    let tossed = crate::time::format_last_tossed_at(opt_str(&project.last_tossed_at), now.0, now.1);
    push_line(lines, "      last_tossed_at: ", tossed.as_str());
    assert(crate::lines::string_views(lines@) =~= before + state_entry_lines(name@, *project, now));
}

/// The group of the projects of a kind in the state view, at time `now`.
pub open spec fn state_group(title: Seq<char>, ps: Seq<(String, ProjectConfig)>, kind: ProjectKind, now: (i64, u32)) -> Seq<Seq<char>> {
    seq![title] + state_group_body(ps, kind, now) + if has_kind(ps, kind) { Seq::empty() } else { seq!["    <none>"@] }
}

/// Lists the projects of a kind under a title, at time `now` (seconds and
/// nanoseconds since the epoch).
pub fn push_state_project_group(lines: &mut Vec<String>, title: &str, projects: &[(String, ProjectConfig)], kind: ProjectKind, now: (i64, u32))
    requires
        now.1 < 1_000_000_000,
    ensures
        crate::lines::string_views(final(lines)@) == crate::lines::string_views(old(lines)@) + state_group(title@, projects@, kind, now),
{
    let ghost start = crate::lines::string_views(lines@);
    push_text(lines, title);
    let mut found = false;
    let mut i: usize = 0;
    while i < projects.len()
        invariant
            i <= projects@.len(),
            now.1 < 1_000_000_000,
            crate::lines::string_views(lines@) == start.push(title@) + state_group_body(projects@.subrange(0, i as int), kind, now),
            found == has_kind(projects@.subrange(0, i as int), kind),
        decreases projects@.len() - i,
    {
        let ghost pre = projects@.subrange(0, i as int);
        assert(projects@.subrange(0, i + 1).drop_last() =~= pre);
        assert(projects@.subrange(0, i + 1).last() == projects@[i as int]);
        let (name, project) = &projects[i];
        let same = match (project.kind, kind) {
            (ProjectKind::Xcode, ProjectKind::Xcode) => true,
            (ProjectKind::Ipa, ProjectKind::Ipa) => true,
            _ => false,
        };
        let ghost before = crate::lines::string_views(lines@);
        if same {
            push_state_entry(lines, name, project, now);
            found = true;
        }
        assert(state_group_body(projects@.subrange(0, i + 1), kind, now) == state_group_body(pre, kind, now)
            + (if projects@[i as int].1.kind == kind { state_entry_lines(projects@[i as int].0@, projects@[i as int].1, now) } else { Seq::empty() }));
        assert(start.push(title@) + state_group_body(projects@.subrange(0, i + 1), kind, now)
            =~= before + (if projects@[i as int].1.kind == kind {
                state_entry_lines(projects@[i as int].0@, projects@[i as int].1, now) } else { Seq::empty() }));
        i = i + 1;
    }
    assert(projects@.subrange(0, projects@.len() as int) =~= projects@);
    if !found {
        push_text(lines, "    <none>");
    }
    assert(crate::lines::string_views(lines@) =~= start + state_group(title@, projects@, kind, now));
}

/// An optional value, or `<unset>`.
pub open spec fn unset_text(o: Option<String>) -> Seq<char> {
    match o {
        Some(v) => v@,
        None => "<unset>"@,
    }
}

pub(crate) fn unset_or(o: &Option<String>) -> (r: &str)
    ensures
        r@ == unset_text(*o),
{
    match o {
        Some(v) => v.as_str(),
        None => "<unset>",
    }
}

/// The lines of the device aliases in the state view.
pub open spec fn alias_lines(aliases: Seq<(String, String)>) -> Seq<Seq<char>> {
    if aliases.len() == 0 {
        seq!["  <none>"@]
    } else {
        Seq::new(aliases.len(), |i: int| "  "@ + aliases[i].0@ + " -> "@ + aliases[i].1@)
    }
}

/// The lines of the profile directories in the state view.
pub open spec fn dir_lines(dirs: Seq<crate::state::ProfileDirInfo>) -> Seq<Seq<char>> {
    if dirs.len() == 0 {
        seq!["  <none>"@]
    } else {
        Seq::new(dirs.len(), |i: int| "  "@ + dirs[i].path@ + " ("@ + decimal(dirs[i].file_count as nat) + " files)"@)
    }
}

/// The lines of one inspected profile in the state view; `[temp]` marks a
/// profile made under the temporary prefix.
pub open spec fn inspection_lines(ins: crate::sign::ProvisioningProfileInspection, prefix: Option<String>) -> Seq<Seq<char>> {
    match ins.profile {
        Some(p) => seq!["  "@ + p.name@ + (if prefix matches Some(x) && crate::text::starts_with(p.bundle_id_pattern@, x@) {
                " [temp]"@ } else { Seq::empty() }), "    bundle: "@ + p.bundle_id_pattern@]
            + (if p.team_ids@.len() > 0 { seq!["    team: "@ + crate::diagnostics::joined(crate::lines::string_views(p.team_ids@), ", "@)] } else { Seq::empty() })
            + seq!["    path: "@ + p.path@],
        None => seq!["  <parse failed>"@, "    path: "@ + ins.path@,
            "    error: "@ + match ins.error { Some(e) => e@, None => "unknown error"@ }],
    }
}

/// The lines of the inspected profiles in the state view.
pub open spec fn inspections_lines(ins: Seq<crate::sign::ProvisioningProfileInspection>, prefix: Option<String>) -> Seq<Seq<char>>
    decreases ins.len(),
{
    if ins.len() == 0 {
        Seq::empty()
    } else {
        inspections_lines(ins.drop_last(), prefix) + inspection_lines(ins.last(), prefix)
    }
}

/// The lines of the profiles section of the state view.
pub open spec fn profiles_section(r: Result<Vec<crate::sign::ProvisioningProfileInspection>, String>, prefix: Option<String>) -> Seq<Seq<char>> {
    match r {
        Ok(ins) => if ins@.len() == 0 { seq!["  <none>"@] } else { inspections_lines(ins@, prefix) },
        Err(e) => seq!["  unavailable: "@ + e@],
    }
}

/// The state view of a snapshot at time `now`.
pub open spec fn state_lines(snap: crate::state::StateSnapshot, now: (i64, u32)) -> Seq<Seq<char>> {
    seq![
        "Local state"@,
        "config file: "@ + snap.config_path@,
        "temp_bundle_prefix: "@ + unset_text(snap.temp_bundle_prefix),
        "team_id: "@ + unset_text(snap.team_id),
        "default_device: "@ + unset_text(snap.default_device),
        "default_project: "@ + unset_text(snap.default_project),
        Seq::<char>::empty(),
        "Device aliases ("@ + decimal(snap.device_aliases@.len()) + ")"@,
    ] + alias_lines(snap.device_aliases@)
        + seq![Seq::<char>::empty(), "Projects ("@ + decimal(snap.projects@.len()) + ")"@]
        + (if snap.projects@.len() == 0 { seq!["  <none>"@] } else {
            state_group("  Xcode/App Projects"@, snap.projects@, ProjectKind::Xcode, now)
                + state_group("  IPA Projects"@, snap.projects@, ProjectKind::Ipa, now) })
        + seq![Seq::<char>::empty(), "Provisioning profile dirs ("@ + decimal(snap.profile_dirs@.len()) + ")"@]
        + dir_lines(snap.profile_dirs@)
        + seq![Seq::<char>::empty(), "Provisioning profiles"@]
        + profiles_section(snap.profile_inspections, snap.temp_bundle_prefix)
}

pub(crate) fn push_count_line(lines: &mut Vec<String>, head: &str, n: usize)
    ensures
        crate::lines::string_views(final(lines)@) == crate::lines::string_views(old(lines)@).push(head@ + decimal(n as nat) + ")"@),
{
    let mut l = head.to_string();
    l.append(crate::decimal::u64_to_decimal(n as u64).as_str());
    l.append(")");
    let ghost before = lines@;
    lines.push(l);
    assert(crate::lines::string_views(lines@) =~= crate::lines::string_views(before).push(head@ + decimal(n as nat) + ")"@));
}

pub(crate) fn push_alias_lines(lines: &mut Vec<String>, aliases: &[(String, String)])
    ensures
        crate::lines::string_views(final(lines)@) == crate::lines::string_views(old(lines)@) + alias_lines(aliases@),
{
    if aliases.len() == 0 {
        push_text(lines, "  <none>");
        return;
    }
    let ghost start = crate::lines::string_views(lines@);
    let ghost all = alias_lines(aliases@);
    let mut i: usize = 0;
    while i < aliases.len()
        invariant
            i <= aliases@.len(),
            aliases@.len() > 0,
            all == alias_lines(aliases@),
            crate::lines::string_views(lines@) == start + all.subrange(0, i as int),
        decreases aliases@.len() - i,
    {
        let mut l = "  ".to_string();
        l.append(aliases[i].0.as_str());
        l.append(" -> ");
        l.append(aliases[i].1.as_str());
        let ghost before = lines@;
        lines.push(l);
        assert(crate::lines::string_views(lines@) =~= crate::lines::string_views(before).push(all[i as int]));
        assert(all.subrange(0, i + 1) =~= all.subrange(0, i as int).push(all[i as int]));
        i = i + 1;
    }
    assert(all.subrange(0, aliases@.len() as int) =~= all);
}

pub(crate) fn push_dir_lines(lines: &mut Vec<String>, dirs: &[crate::state::ProfileDirInfo])
    ensures
        crate::lines::string_views(final(lines)@) == crate::lines::string_views(old(lines)@) + dir_lines(dirs@),
{
    if dirs.len() == 0 {
        push_text(lines, "  <none>");
        return;
    }
    let ghost start = crate::lines::string_views(lines@);
    let ghost all = dir_lines(dirs@);
    let mut i: usize = 0;
    while i < dirs.len()
        invariant
            i <= dirs@.len(),
            dirs@.len() > 0,
            all == dir_lines(dirs@),
            crate::lines::string_views(lines@) == start + all.subrange(0, i as int),
        decreases dirs@.len() - i,
    {
        let mut l = "  ".to_string();
        l.append(dirs[i].path.as_str());
        l.append(" (");
        l.append(crate::decimal::u64_to_decimal(dirs[i].file_count as u64).as_str());
        l.append(" files)");
        let ghost before = lines@;
        lines.push(l);
        assert(crate::lines::string_views(lines@) =~= crate::lines::string_views(before).push(all[i as int]));
        assert(all.subrange(0, i + 1) =~= all.subrange(0, i as int).push(all[i as int]));
        i = i + 1;
    }
    assert(all.subrange(0, dirs@.len() as int) =~= all);
}

fn push_inspection(lines: &mut Vec<String>, ins: &crate::sign::ProvisioningProfileInspection, prefix: &Option<String>)
    ensures
        crate::lines::string_views(final(lines)@) == crate::lines::string_views(old(lines)@) + inspection_lines(*ins, *prefix),
{
    let ghost before = crate::lines::string_views(lines@);
    match &ins.profile {
        Some(p) => {
            let temp = match prefix {
                Some(x) => crate::text::str_starts_with(p.bundle_id_pattern.as_str(), x.as_str()),
                None => false,
            };
            let mut l = "  ".to_string();
            l.append(p.name.as_str());
            if temp {
                l.append(" [temp]");
            } else {
                assert(l@ + Seq::<char>::empty() =~= l@);
            }
            let ghost b0 = lines@;
            lines.push(l);
            assert(crate::lines::string_views(lines@) =~= crate::lines::string_views(b0).push(inspection_lines(*ins, *prefix)[0]));
            push_line(lines, "    bundle: ", p.bundle_id_pattern.as_str());
            if p.team_ids.len() > 0 {
                let teams = crate::diagnostics::join(p.team_ids.as_slice(), ", ");
                push_line(lines, "    team: ", teams.as_str());
            }
            push_line(lines, "    path: ", p.path.as_str());
        },
        None => {
            push_text(lines, "  <parse failed>");
            push_line(lines, "    path: ", ins.path.as_str());
            match &ins.error {
                Some(e) => push_line(lines, "    error: ", e.as_str()),
                None => push_line(lines, "    error: ", "unknown error"),
            }
        },
    }
    assert(crate::lines::string_views(lines@) =~= before + inspection_lines(*ins, *prefix));
}

pub(crate) fn push_profiles_section(lines: &mut Vec<String>, r: &Result<Vec<crate::sign::ProvisioningProfileInspection>, String>, prefix: &Option<String>)
    ensures
        crate::lines::string_views(final(lines)@) == crate::lines::string_views(old(lines)@) + profiles_section(*r, *prefix),
{
    match r {
        Ok(ins) => {
            if ins.len() == 0 {
                push_text(lines, "  <none>");
                return;
            }
            let ghost start = crate::lines::string_views(lines@);
            let mut i: usize = 0;
            while i < ins.len()
                invariant
                    i <= ins@.len(),
                    crate::lines::string_views(lines@) == start + inspections_lines(ins@.subrange(0, i as int), *prefix),
                decreases ins@.len() - i,
            {
                assert(ins@.subrange(0, i + 1).drop_last() =~= ins@.subrange(0, i as int));
                assert(ins@.subrange(0, i + 1).last() == ins@[i as int]);
                let ghost before = crate::lines::string_views(lines@);
                push_inspection(lines, &ins[i], prefix);
                assert(start + inspections_lines(ins@.subrange(0, i + 1), *prefix) =~= before + inspection_lines(ins@[i as int], *prefix));
                i = i + 1;
            }
            assert(ins@.subrange(0, ins@.len() as int) =~= ins@);
        },
        Err(e) => push_line(lines, "  unavailable: ", e.as_str()),
    }
}

/// The state view of a snapshot, with deployment ages at time `now`.
pub fn build_state_details_at(snapshot: &crate::state::StateSnapshot, now: (i64, u32)) -> (r: Vec<String>)
    requires
        now.1 < 1_000_000_000,
    ensures
        crate::lines::string_views(r@) == state_lines(*snapshot, now),
{
    let mut lines: Vec<String> = Vec::new();
    push_text(&mut lines, "Local state");
    push_line(&mut lines, "config file: ", snapshot.config_path.as_str());
    push_line(&mut lines, "temp_bundle_prefix: ", unset_or(&snapshot.temp_bundle_prefix));
    push_line(&mut lines, "team_id: ", unset_or(&snapshot.team_id));
    push_line(&mut lines, "default_device: ", unset_or(&snapshot.default_device));
    push_line(&mut lines, "default_project: ", unset_or(&snapshot.default_project));
    let ghost b = lines@;
    lines.push(String::new());
    assert(crate::lines::string_views(lines@) =~= crate::lines::string_views(b).push(Seq::<char>::empty()));
    push_count_line(&mut lines, "Device aliases (", snapshot.device_aliases.len());
    push_alias_lines(&mut lines, snapshot.device_aliases.as_slice());
    let ghost b = lines@;
    lines.push(String::new());
    assert(crate::lines::string_views(lines@) =~= crate::lines::string_views(b).push(Seq::<char>::empty()));
    push_count_line(&mut lines, "Projects (", snapshot.projects.len());
    if snapshot.projects.len() == 0 {
        push_text(&mut lines, "  <none>");
    } else {
        push_state_project_group(&mut lines, "  Xcode/App Projects", snapshot.projects.as_slice(), ProjectKind::Xcode, now);
        push_state_project_group(&mut lines, "  IPA Projects", snapshot.projects.as_slice(), ProjectKind::Ipa, now);
    }
    let ghost b = lines@;
    lines.push(String::new());
    assert(crate::lines::string_views(lines@) =~= crate::lines::string_views(b).push(Seq::<char>::empty()));
    push_count_line(&mut lines, "Provisioning profile dirs (", snapshot.profile_dirs.len());
    push_dir_lines(&mut lines, snapshot.profile_dirs.as_slice());
    let ghost b = lines@;
    lines.push(String::new());
    assert(crate::lines::string_views(lines@) =~= crate::lines::string_views(b).push(Seq::<char>::empty()));
    push_text(&mut lines, "Provisioning profiles");
    push_profiles_section(&mut lines, &snapshot.profile_inspections, &snapshot.temp_bundle_prefix);
    assert(crate::lines::string_views(lines@) =~= state_lines(*snapshot, now));
    lines
}

/// The state view of a snapshot, with deployment ages at the current time.
pub fn build_state_details(snapshot: &crate::state::StateSnapshot) -> (r: Vec<String>)
    ensures
        exists|now: (i64, u32)| crate::lines::string_views(r@) == #[trigger] state_lines(*snapshot, now),
{
    let now = crate::time::now_instant();
    build_state_details_at(snapshot, now)
}

} // verus!
