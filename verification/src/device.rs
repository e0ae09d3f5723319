//! Devices: how a user's device argument (alias, identifier, UDID or list
//! position) is resolved, which device is picked by default, and aliasing.

use vstd::prelude::*;
use crate::config::Config;
use crate::decimal::{decimal, parse_usize, parse_usize_spec, u64_to_decimal};
use crate::error::TossError;
use crate::interaction::{Exchange, WorkflowAdapter, WorkflowEvent, asks, last_answer, last_reply, pick, pick_spec, warns};
use crate::lines::string_views;
use crate::text::str_eq;

verus! {

/// Connection state reported for a device.
#[derive(Debug, Clone, PartialEq)]
pub enum DeviceState {
    Connected,
    Paired,
    Disconnected,
    Unknown(String),
}

/// A device as listed by `devicectl`.
#[derive(Debug, Clone)]
pub struct Device {
    pub name: String,
    /// The identifier `devicectl` addresses the device by.
    pub identifier: String,
    /// The hardware UDID.
    pub udid: String,
    pub model: String,
    pub os_version: String,
    pub state: DeviceState,
}

/// The outcome of aliasing a device.
#[derive(Debug, Clone)]
pub struct DeviceAliasResult {
    pub alias: String,
    pub udid: String,
    pub device_name: String,
    pub is_default: bool,
}

/// The text shown for a connection state.
pub open spec fn state_label(s: DeviceState) -> Seq<char> {
    match s {
        DeviceState::Connected => "connected"@,
        DeviceState::Paired => "paired"@,
        DeviceState::Disconnected => "disconnected"@,
        DeviceState::Unknown(t) => t@,
    }
}

impl DeviceState {
    /// The text shown for the state.
    pub fn label(&self) -> (r: String)
        ensures
            r@ == state_label(*self),
    {
        match self {
            DeviceState::Connected => "connected".to_string(),
            DeviceState::Paired => "paired".to_string(),
            DeviceState::Disconnected => "disconnected".to_string(),
            DeviceState::Unknown(t) => t.clone(),
        }
    }
}

/// A device from the properties `devicectl list devices` reports: the UDID
/// is the hardware UDID, or the identifier when no hardware UDID is
/// reported; the model is the marketing name when there is one, else the
/// product type; the tunnel states `connected` and `disconnected` are known,
/// any other is kept as text.
pub fn device_from_listing(
    name: String,
    identifier: String,
    hardware_udid: String,
    os_version: String,
    product_type: String,
    marketing_name: Option<String>,
    tunnel_state: String,
) -> (d: Device)
    ensures
        d.name == name,
        d.identifier == identifier,
        d.udid == if hardware_udid@.len() == 0 { identifier } else { hardware_udid },
        d.os_version == os_version,
        d.model == match marketing_name { Some(m) => m, None => product_type },
        tunnel_state@ == "connected"@ ==> d.state == DeviceState::Connected,
        tunnel_state@ == "disconnected"@ ==> d.state == DeviceState::Disconnected,
        tunnel_state@ != "connected"@ && tunnel_state@ != "disconnected"@ ==> d.state == DeviceState::Unknown(tunnel_state),
{
    proof {
        reveal_strlit("connected");
        reveal_strlit("disconnected");
        assert("connected"@[0] != "disconnected"@[0]);
    }
    let state = if str_eq(tunnel_state.as_str(), "connected") {
        DeviceState::Connected
    } else if str_eq(tunnel_state.as_str(), "disconnected") {
        DeviceState::Disconnected
    } else {
        DeviceState::Unknown(tunnel_state)
    };
    let model = match marketing_name {
        Some(m) => m,
        None => product_type,
    };
    let udid = if hardware_udid.unicode_len() == 0 {
        identifier.clone()
    } else {
        hardware_udid
    };
    Device { name, identifier, udid, model, os_version, state }
}

/// The device is addressed by `id`, as its identifier or as its UDID.
pub open spec fn device_matches(d: Device, id: Seq<char>) -> bool {
    d.identifier@ == id || d.udid@ == id
}

/// `i` is the first position of a device addressed by `id`.
pub open spec fn is_first_match(devs: Seq<Device>, id: Seq<char>, i: int) -> bool {
    0 <= i < devs.len() && device_matches(devs[i], id) && forall|j: int|
        0 <= j < i ==> !device_matches(#[trigger] devs[j], id)
}

/// The first position of a device addressed by `id`.
pub open spec fn first_match(devs: Seq<Device>, id: Seq<char>) -> Option<int> {
    if exists|i: int| is_first_match(devs, id, i) {
        Some(choose|i: int| is_first_match(devs, id, i))
    } else {
        None
    }
}

proof fn lemma_first_match_unique(devs: Seq<Device>, id: Seq<char>, i: int)
    requires
        is_first_match(devs, id, i),
    ensures
        first_match(devs, id) == Some(i),
{
    let c = choose|c: int| is_first_match(devs, id, c);
    if c < i {
        assert(!device_matches(devs[c], id));
    } else if i < c {
        assert(!device_matches(devs[i], id));
    }
}

proof fn lemma_no_match(devs: Seq<Device>, id: Seq<char>)
    requires
        forall|j: int| 0 <= j < devs.len() ==> !device_matches(#[trigger] devs[j], id),
    ensures
        first_match(devs, id) is None,
{
}

/// Position of the first device addressed by `identifier`.
pub fn find_device(identifier: &str, devices: &[Device]) -> (r: Option<usize>)
    ensures
        r matches Some(i) ==> first_match(devices@, identifier@) == Some(i as int),
        r is None ==> first_match(devices@, identifier@) is None,
{
    let mut i: usize = 0;
    while i < devices.len()
        invariant
            i <= devices@.len(),
            forall|j: int| 0 <= j < i ==> !device_matches(#[trigger] devices@[j], identifier@),
        decreases devices@.len() - i,
    {
        if str_eq(devices[i].identifier.as_str(), identifier) || str_eq(devices[i].udid.as_str(), identifier) {
            proof {
                lemma_first_match_unique(devices@, identifier@, i as int);
            }
            return Some(i);
        }
        i = i + 1;
    }
    proof {
        lemma_no_match(devices@, identifier@);
    }
    None
}

/// `i` is the first position of a device named `name`.
pub open spec fn is_first_named(devs: Seq<Device>, name: Seq<char>, i: int) -> bool {
    0 <= i < devs.len() && devs[i].name@ == name && forall|j: int| 0 <= j < i ==> #[trigger] devs[j].name@ != name
}

/// The first position of a device named `name`.
pub open spec fn first_named(devs: Seq<Device>, name: Seq<char>) -> Option<int> {
    if exists|i: int| is_first_named(devs, name, i) {
        Some(choose|i: int| is_first_named(devs, name, i))
    } else {
        None
    }
}

/// Position of the first device named `name`.
pub fn find_named(name: &str, devices: &[Device]) -> (r: Option<usize>)
    ensures
        r matches Some(i) ==> first_named(devices@, name@) == Some(i as int),
        r is None ==> first_named(devices@, name@) is None,
{
    let mut i: usize = 0;
    while i < devices.len()
        invariant
            i <= devices@.len(),
            forall|j: int| 0 <= j < i ==> #[trigger] devices@[j].name@ != name@,
        decreases devices@.len() - i,
    {
        if str_eq(devices[i].name.as_str(), name) {
            proof {
                assert(is_first_named(devices@, name@, i as int));
                let c = choose|c: int| is_first_named(devices@, name@, c);
                if c < i {
                    assert(devices@[c].name@ != name@);
                } else if i < c {
                    assert(devices@[i as int].name@ != name@);
                }
            }
            return Some(i);
        }
        i = i + 1;
    }
    None
}

/// Message for an alias whose device is not in the list.
pub open spec fn stale_alias_msg(alias: Seq<char>, stored: Seq<char>) -> Seq<char> {
    "device alias '"@ + alias + "' points to '"@ + stored + "' but that device is not currently available"@
}

/// Message for a list position outside the list.
pub open spec fn index_out_of_range_msg(idx: nat, len: nat) -> Seq<char> {
    "device index "@ + decimal(idx) + " out of range (1-"@ + decimal(len) + ")"@
}

/// Message for an argument that names no device.
pub open spec fn unknown_device_msg(id: Seq<char>) -> Seq<char> {
    "unknown device '"@ + id + "' — not an alias, UDID, or valid index"@
}

/// How a device argument resolves: an alias is looked up first, then an
/// identifier or UDID of a listed device, then a 1-based list position, and,
/// where `by_name` is set, last the name of a listed device.
/// `Ok` holds the position of the device, `Err` the message of the failure.
pub open spec fn locate_spec(id: Seq<char>, aliases: Map<Seq<char>, String>, devs: Seq<Device>, by_name: bool) -> Result<int, Seq<char>> {
    if aliases.dom().contains(id) {
        let stored = aliases[id]@;
        match first_match(devs, stored) {
            Some(i) => Ok(i),
            None => Err(stale_alias_msg(id, stored)),
        }
    } else {
        match first_match(devs, id) {
            Some(i) => Ok(i),
            None => match parse_usize_spec(id) {
                Some(n) => if 1 <= n && n <= devs.len() {
                    Ok(n - 1)
                } else {
                    Err(index_out_of_range_msg(n, devs.len()))
                },
                None => match (by_name, first_named(devs, id)) {
                    (true, Some(i)) => Ok(i),
                    _ => Err(unknown_device_msg(id)),
                },
            },
        }
    }
}

/// How a device argument of a deployment resolves: by alias, identifier or
/// UDID, or list position; a device name alone names no device here.
pub open spec fn device_resolution(id: Seq<char>, aliases: Map<Seq<char>, String>, devs: Seq<Device>) -> Result<int, Seq<char>> {
    locate_spec(id, aliases, devs, false)
}

/// How the device argument of `devices alias` resolves: as for a deployment,
/// and failing that, by the name of a listed device.
pub open spec fn alias_resolution(id: Seq<char>, aliases: Map<Seq<char>, String>, devs: Seq<Device>) -> Result<int, Seq<char>> {
    locate_spec(id, aliases, devs, true)
}

/// `r` is what resolving to `res` gives: the identifier of the device found,
/// or a device error with the message.
pub open spec fn resolved_as(r: Result<String, TossError>, res: Result<int, Seq<char>>, devs: Seq<Device>) -> bool {
    match res {
        Ok(i) => r matches Ok(s) && s@ == devs[i].identifier@,
        Err(m) => r matches Err(TossError::Device(e)) && e@ == m,
    }
}

/// The position of the device that a device argument addresses.
fn locate_device(identifier: &str, config: &Config, devices: &[Device], by_name: bool) -> (r: Result<usize, TossError>)
    ensures
        match locate_spec(identifier@, config.devices.aliases@, devices@, by_name) {
            Ok(i) => r == Ok::<usize, TossError>(i as usize) && 0 <= i < devices@.len(),
            Err(m) => r matches Err(TossError::Device(e)) && e@ == m,
        },
{
    if let Some(stored_id) = config.devices.aliases.get(identifier) {
        return match find_device(stored_id.as_str(), devices) {
            Some(i) => Ok(i),
            None => {
                let mut m = "device alias '".to_string();
                m.append(identifier);
                m.append("' points to '");
                m.append(stored_id.as_str());
                m.append("' but that device is not currently available");
                Err(TossError::Device(m))
            },
        };
    }
    if let Some(i) = find_device(identifier, devices) {
        return Ok(i);
    }
    if let Some(idx) = parse_usize(identifier) {
        if idx >= 1 && idx <= devices.len() {
            return Ok(idx - 1);
        }
        let mut m = "device index ".to_string();
        m.append(u64_to_decimal(idx as u64).as_str());
        m.append(" out of range (1-");
        m.append(u64_to_decimal(devices.len() as u64).as_str());
        m.append(")");
        return Err(TossError::Device(m));
    }
    if by_name {
        if let Some(i) = find_named(identifier, devices) {
            return Ok(i);
        }
    }
    let mut m = "unknown device '".to_string();
    m.append(identifier);
    m.append("' — not an alias, UDID, or valid index");
    Err(TossError::Device(m))
}

/// Resolves a device argument to the identifier of a listed device.
pub fn resolve_device_id(identifier: &str, config: &Config, devices: &[Device]) -> (r: Result<String, TossError>)
    ensures
        resolved_as(r, device_resolution(identifier@, config.devices.aliases@, devices@), devices@),
        device_resolution(identifier@, config.devices.aliases@, devices@) matches Ok(i) ==> 0 <= i < devices@.len(),
{
    match locate_device(identifier, config, devices, false) {
        Ok(i) => Ok(devices[i].identifier.clone()),
        Err(e) => Err(e),
    }
}


/// Message when the device to alias has gone from the list.
pub open spec fn alias_target_missing_msg(input: Seq<char>) -> Seq<char> {
    "device '"@ + input + "' is no longer available for aliasing"@
}

/// The listed device addressed by `identifier`, for aliasing.
pub fn resolve_alias_target<'a>(identifier: &str, devices: &'a [Device], original_input: &str) -> (r: Result<&'a Device, TossError>)
    ensures
        match first_match(devices@, identifier@) {
            Some(i) => r matches Ok(d) && *d == devices@[i],
            None => r matches Err(TossError::Device(e)) && e@ == alias_target_missing_msg(original_input@),
        },
{
    match find_device(identifier, devices) {
        Some(i) => Ok(&devices[i]),
        None => {
            let mut m = "device '".to_string();
            m.append(original_input);
            m.append("' is no longer available for aliasing");
            Err(TossError::Device(m))
        },
    }
}

/// Devices that can be deployed to: connected or paired.
pub open spec fn selectable(d: Device) -> bool {
    d.state is Connected || d.state is Paired
}

/// Positions of the selectable devices, in list order.
pub open spec fn selectable_positions(devs: Seq<Device>) -> Seq<int>
    decreases devs.len(),
{
    if devs.len() == 0 {
        Seq::empty()
    } else {
        let rest = selectable_positions(devs.drop_last());
        if selectable(devs.last()) {
            rest.push(devs.len() - 1)
        } else {
            rest
        }
    }
}

proof fn lemma_selectable_positions_range(devs: Seq<Device>)
    ensures
        forall|k: int| 0 <= k < selectable_positions(devs).len() ==> 0 <= #[trigger] selectable_positions(devs)[k] < devs.len()
            && selectable(devs[selectable_positions(devs)[k]]),
    decreases devs.len(),
{
    if devs.len() > 0 {
        let d = devs.drop_last();
        lemma_selectable_positions_range(d);
        assert forall|k: int| 0 <= k < selectable_positions(d).len() implies #[trigger] d[selectable_positions(d)[k]]
            == devs[selectable_positions(d)[k]] by {}
    }
}

/// Positions of the devices that can be deployed to.
pub fn selectable_device_positions(devices: &[Device]) -> (r: Vec<usize>)
    ensures
        r@.len() == selectable_positions(devices@).len(),
        forall|k: int| 0 <= k < r@.len() ==> #[trigger] r@[k] as int == selectable_positions(devices@)[k],
        forall|k: int| 0 <= k < r@.len() ==> #[trigger] r@[k] < devices@.len(),
{
    let mut r: Vec<usize> = Vec::new();
    let mut i: usize = 0;
    while i < devices.len()
        invariant
            i <= devices@.len(),
            r@.len() == selectable_positions(devices@.take(i as int)).len(),
            forall|k: int| 0 <= k < r@.len() ==> #[trigger] r@[k] as int == selectable_positions(devices@.take(i as int))[k],
            forall|k: int| 0 <= k < r@.len() ==> #[trigger] r@[k] < i,
        decreases devices@.len() - i,
    {
        assert(devices@.take(i + 1).drop_last() =~= devices@.take(i as int));
        let ok = match devices[i].state {
            DeviceState::Connected => true,
            DeviceState::Paired => true,
            _ => false,
        };
        if ok {
            r.push(i);
        }
        i = i + 1;
    }
    assert(devices@.take(devices@.len() as int) =~= devices@);
    r
}

/// Text offered for each selectable device: `name (model)`.
pub open spec fn device_choice_text(d: Device) -> Seq<char> {
    d.name@ + " ("@ + d.model@ + ")"@
}

/// The choices offered when several devices can be deployed to.
pub fn device_choice_items(devices: &[Device], positions: &[usize]) -> (r: Vec<String>)
    requires
        forall|k: int| 0 <= k < positions@.len() ==> #[trigger] positions@[k] < devices@.len(),
    ensures
        r@.len() == positions@.len(),
        forall|k: int| 0 <= k < r@.len() ==> #[trigger] r@[k]@ == device_choice_text(devices@[positions@[k] as int]),
{
    let mut r: Vec<String> = Vec::new();
    let mut k: usize = 0;
    while k < positions.len()
        invariant
            k <= positions@.len(),
            forall|j: int| 0 <= j < positions@.len() ==> #[trigger] positions@[j] < devices@.len(),
            r@.len() == k,
            forall|j: int| 0 <= j < k ==> #[trigger] r@[j]@ == device_choice_text(devices@[positions@[j] as int]),
        decreases positions@.len() - k,
    {
        let d = &devices[positions[k]];
        let mut t = d.name.clone();
        t.append(" (");
        t.append(d.model.as_str());
        t.append(")");
        r.push(t);
        k = k + 1;
    }
    r
}

/// Message when nothing can be deployed to.
pub open spec fn no_connected_msg() -> Seq<char> {
    "no connected devices found — plug in a device and try again"@
}

/// Message when several devices qualify and the user cannot be asked.
pub open spec fn multiple_connected_msg() -> Seq<char> {
    "multiple connected devices found — specify one with `--device`"@
}

/// A chooser's answer is a position among `n` offered items, or no position.
pub open spec fn choice_in_range(c: Result<Option<usize>, TossError>, n: nat) -> bool {
    c matches Ok(Some(k)) ==> k < n
}

/// Which device is picked among the selectable ones: none is an error, one
/// is taken, several are offered to the user (`choice` is the answer).
/// `Ok` holds the device position; `Err(Ok(m))` is a device error with
/// message `m`; `Err(Err(e))` is the front end's own failure.
pub open spec fn connected_outcome(devs: Seq<Device>, choice: Result<Option<usize>, TossError>) -> Result<int, Result<Seq<char>, TossError>> {
    let ps = selectable_positions(devs);
    if ps.len() == 0 {
        Err(Ok(no_connected_msg()))
    } else if ps.len() == 1 {
        Ok(ps[0])
    } else {
        match choice {
            Ok(Some(k)) => Ok(ps[k as int]),
            Ok(None) => Err(Ok(multiple_connected_msg())),
            Err(e) => Err(Err(e)),
        }
    }
}

/// `r` is the result that the selection outcome `o` stands for.
pub open spec fn selected_as(r: Result<String, TossError>, o: Result<int, Result<Seq<char>, TossError>>, devs: Seq<Device>) -> bool {
    match o {
        Ok(i) => r matches Ok(s) && s@ == devs[i].identifier@,
        Err(Ok(m)) => r matches Err(TossError::Device(e)) && e@ == m,
        Err(Err(e)) => r == Err::<String, TossError>(e),
    }
}

/// The selectable devices among `devs`.
pub open spec fn selectable_devices(devs: Seq<Device>) -> Seq<Device> {
    devs.filter(selectable_pred())
}

/// Selectability, as a predicate.
pub open spec fn selectable_pred() -> spec_fn(Device) -> bool {
    |d: Device| selectable(d)
}

proof fn lemma_positions_count(devs: Seq<Device>)
    ensures
        selectable_positions(devs).len() == selectable_devices(devs).len(),
        forall|k: int| 0 <= k < selectable_positions(devs).len() ==> {
            let i = #[trigger] selectable_positions(devs)[k];
            &&& 0 <= i < devs.len()
            &&& selectable(devs[i])
            &&& selectable_devices(devs.take(i)).len() == k
        },
    decreases devs.len(),
{
    if devs.len() > 0 {
        let init = devs.drop_last();
        lemma_positions_count(init);
        assert(devs =~= init.push(devs.last()));
        init.lemma_filter_push(devs.last(), selectable_pred());
        assert(selectable_devices(devs) == (if selectable(devs.last()) {
            selectable_devices(init).push(devs.last())
        } else {
            selectable_devices(init)
        }));
        assert forall|k: int| 0 <= k < selectable_positions(devs).len() implies {
            let i = #[trigger] selectable_positions(devs)[k];
            &&& 0 <= i < devs.len()
            &&& selectable(devs[i])
            &&& selectable_devices(devs.take(i)).len() == k
        } by {
            let i = selectable_positions(devs)[k];
            if k < selectable_positions(init).len() {
                assert(selectable_positions(devs)[k] == selectable_positions(init)[k]);
                assert(devs.take(i) =~= init.take(i));
                assert(devs[i] == init[i]);
            } else {
                assert(i == devs.len() - 1);
                assert(devs.take(i) =~= init);
            }
        }
    }
}

/// When several devices can be deployed to and the user picks position `k`
/// of the choice offered, the device deployed to is the `k`-th selectable
/// device in list order (exactly `k` selectable devices come before it),
/// and its text is the one offered at position `k`.
pub proof fn lemma_pick_is_kth_selectable(devs: Seq<Device>, k: usize)
    requires
        selectable_devices(devs).len() > 1,
        k < selectable_devices(devs).len(),
    ensures
        connected_outcome(devs, Ok(Some(k))) matches Ok(i) && 0 <= i < devs.len() && selectable(devs[i])
            && selectable_devices(devs.take(i)).len() == k && device_choices(devs)[k as int] == device_choice_text(devs[i]),
{
    lemma_positions_count(devs);
    let i = selectable_positions(devs)[k as int];
    assert(connected_outcome(devs, Ok(Some(k))) == Ok::<int, Result<Seq<char>, TossError>>(i));
}

/// Picks a device among the selectable ones, given the user's answer to the
/// choice among them (used only when there are several).
pub fn pick_connected_device(devices: &[Device], choice: Result<Option<usize>, TossError>) -> (r: Result<String, TossError>)
    requires
        choice_in_range(choice, selectable_positions(devices@).len()),
    ensures
        selected_as(r, connected_outcome(devices@, choice), devices@),
{
    proof {
        lemma_selectable_positions_range(devices@);
    }
    let ps = selectable_device_positions(devices);
    if ps.len() == 0 {
        return Err(TossError::Device("no connected devices found — plug in a device and try again".to_string()));
    }
    if ps.len() == 1 {
        return Ok(devices[ps[0]].identifier.clone());
    }
    match pick(choice, TossError::Device("multiple connected devices found — specify one with `--device`".to_string())) {
        Ok(k) => Ok(devices[ps[k]].identifier.clone()),
        Err(e) => Err(e),
    }
}

/// Prompt when several devices can be deployed to.
pub open spec fn connected_prompt() -> Seq<char> {
    "Multiple devices connected — choose one"@
}

/// The texts offered for the selectable devices, in list order.
pub open spec fn device_choices(devs: Seq<Device>) -> Seq<Seq<char>> {
    selectable_positions(devs).map_values(|i: int| device_choice_text(devs[i]))
}

/// Picking among the selectable devices, from log `before` to log `after`:
/// with none or one nothing is asked; with several the user is asked once to
/// choose among them, and that answer decides.
pub open spec fn connected_selection(devs: Seq<Device>, before: Seq<Exchange>, after: Seq<Exchange>, r: Result<String, TossError>) -> bool {
    if selectable_positions(devs).len() <= 1 {
        after == before && selected_as(r, connected_outcome(devs, Ok(None)), devs)
    } else {
        &&& asks(before, after, connected_prompt(), device_choices(devs))
        &&& choice_in_range(last_answer(after), selectable_positions(devs).len())
        &&& selected_as(r, connected_outcome(devs, last_answer(after)), devs)
    }
}

/// Picks a device among the connected or paired ones, asking the user when
/// there are several.
pub fn select_connected_device<A: WorkflowAdapter>(devices: &[Device], adapter: &mut A) -> (r: Result<String, TossError>)
    ensures
        connected_selection(devices@, old(adapter).log(), final(adapter).log(), r),
{
    let ps = selectable_device_positions(devices);
    if ps.len() <= 1 {
        return pick_connected_device(devices, Ok(None));
    }
    let items = device_choice_items(devices, ps.as_slice());
    assert(string_views(items@) =~= device_choices(devices@));
    let choice = adapter.select_index("Multiple devices connected — choose one", items.as_slice(), 0);
    proof {
        reveal_strlit("Multiple devices connected — choose one");
    }
    assert(choice_in_range(choice, selectable_positions(devices@).len()));
    pick_connected_device(devices, choice)
}

/// Message when the configured default device is not in the list.
pub open spec fn stale_default_msg(d: Seq<char>) -> Seq<char> {
    "default device '"@ + d + "' not found in current device list, ignoring"@
}

/// What selecting a device does, from log `before` to log `after`, with
/// result `r`: the device named by `flag` is resolved, else the default
/// device, else a connected one is picked. A default that does not resolve
/// is first reported as a warning; a failure of the front end there ends the
/// selection.
pub open spec fn device_selected(flag: Option<Seq<char>>, config: Config, devices: Seq<Device>, before: Seq<Exchange>, after: Seq<Exchange>, r: Result<String, TossError>) -> bool {
    match flag {
        Some(f) => after == before && resolved_as(r, device_resolution(f, config.devices.aliases@, devices), devices),
        None => match config.defaults.device {
            None => connected_selection(devices, before, after, r),
            Some(d) => match device_resolution(d@, config.devices.aliases@, devices) {
                Ok(_) => after == before && resolved_as(r, device_resolution(d@, config.devices.aliases@, devices), devices),
                Err(_) => {
                    let mid = after.take(before.len() + 1int);
                    &&& after.len() > before.len()
                    &&& warns(before, mid, stale_default_msg(d@))
                    &&& match last_reply(mid) {
                        Err(e) => after == mid && r == Err::<String, TossError>(e),
                        Ok(()) => connected_selection(devices, mid, after, r),
                    }
                },
            },
        },
    }
}

/// Picks the device to deploy to: the one the user named, else the default
/// device, else a connected one (asking when there are several). A default
/// that no longer resolves is reported as a warning and skipped.
pub fn select_device<A: WorkflowAdapter>(device_flag: Option<&str>, config: &Config, devices: &[Device], adapter: &mut A) -> (r: Result<String, TossError>)
    ensures
        device_selected(match device_flag { Some(f) => Some(f@), None => None }, *config, devices@,
            old(adapter).log(), final(adapter).log(), r),
        r matches Ok(s) ==> exists|i: int| 0 <= i < devices@.len() && #[trigger] devices@[i].identifier@ == s@,
{
    proof {
        lemma_selectable_positions_range(devices@);
    }
    let ghost before = adapter.log();
    if let Some(id) = device_flag {
        return resolve_device_id(id, config, devices);
    }
    if let Some(default_device) = &config.defaults.device {
        return match resolve_device_id(default_device.as_str(), config, devices) {
            Ok(id) => Ok(id),
            Err(_) => {
                let mut m = "default device '".to_string();
                m.append(default_device.as_str());
                m.append("' not found in current device list, ignoring");
                let w = adapter.emit(WorkflowEvent::Warning { message: m });
                let ghost mid = adapter.log();
                assert(mid.drop_last() =~= before);
                match w {
                    Ok(()) => {
                        let r = select_connected_device(devices, adapter);
                        proof {
                            assert(adapter.log().take(before.len() + 1int) =~= mid);
                        }
                        r
                    },
                    Err(e) => {
                        assert(adapter.log().take(before.len() + 1int) =~= mid);
                        Err(e)
                    },
                }
            },
        };
    }
    select_connected_device(devices, adapter)
}

/// Gives the device addressed by `device_identifier` (alias, identifier or
/// UDID, list position, or device name) the alias `name` (mapping
/// the alias to the device's hardware UDID). The first alias ever created
/// also becomes the default device. Nothing changes on failure.
pub fn alias_device(config: &mut Config, devices: &[Device], device_identifier: &str, name: &str) -> (r: Result<DeviceAliasResult, TossError>)
    ensures
        match alias_resolution(device_identifier@, old(config).devices.aliases@, devices@) {
            Err(m) => r matches Err(TossError::Device(e)) && e@ == m && *final(config) == *old(config),
            Ok(i) => {
                let j = first_match(devices@, devices@[i].identifier@)->0;
                let first = old(config).devices.aliases@ == Map::<Seq<char>, String>::empty();
                &&& r matches Ok(a) && a.alias@ == name@ && a.udid@ == devices@[j].udid@
                    && a.device_name@ == devices@[j].name@ && a.is_default == first
                &&& final(config).devices.aliases@.dom() == old(config).devices.aliases@.dom().insert(name@)
                &&& final(config).devices.aliases@[name@]@ == devices@[j].udid@
                &&& forall|k: Seq<char>| k != name@ && #[trigger] old(config).devices.aliases@.dom().contains(k)
                    ==> final(config).devices.aliases@[k] == old(config).devices.aliases@[k]
                &&& first ==> (final(config).defaults.device matches Some(d) && d@ == name@)
                &&& !first ==> final(config).defaults.device == old(config).defaults.device
                &&& final(config).defaults.project == old(config).defaults.project
                &&& final(config).signing == old(config).signing
                &&& final(config).projects == old(config).projects
            },
        },
{
    let identifier = match locate_device(device_identifier, config, devices, true) {
        Ok(i) => devices[i].identifier.clone(),
        Err(e) => return Err(e),
    };
    let ghost i = alias_resolution(device_identifier@, config.devices.aliases@, devices@)->Ok_0;
    proof {
        assert(is_first_match(devices@, devices@[i].identifier@, i) || exists|j: int| is_first_match(devices@, devices@[i].identifier@, j)) by {
            if !exists|j: int| is_first_match(devices@, devices@[i].identifier@, j) {
                // the first matching position below i exists because i matches
                lemma_first_exists(devices@, devices@[i].identifier@, i);
            }
        }
    }
    let device = match resolve_alias_target(identifier.as_str(), devices, device_identifier) {
        Ok(d) => d,
        Err(e) => return Err(e),
    };
    let is_first = config.devices.aliases.is_empty();
    config.devices.aliases.insert(name.to_string(), device.udid.clone());
    if is_first {
        config.defaults.device = Some(name.to_string());
    }
    Ok(DeviceAliasResult {
        alias: name.to_string(),
        udid: device.udid.clone(),
        device_name: device.name.clone(),
        is_default: is_first,
    })
}

proof fn lemma_first_exists(devs: Seq<Device>, id: Seq<char>, i: int)
    requires
        0 <= i < devs.len(),
        device_matches(devs[i], id),
    ensures
        exists|j: int| is_first_match(devs, id, j),
    decreases i,
{
    if !is_first_match(devs, id, i) {
        let j = choose|j: int| 0 <= j < i && device_matches(#[trigger] devs[j], id);
        lemma_first_exists(devs, id, j);
    }
}

} // verus!
