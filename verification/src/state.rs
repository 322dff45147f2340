//! The state that the application keeps between events: the last device
//! list, the device ids used for Bluetooth requests, and the auto-start
//! switch.

use vstd::prelude::*;
use crate::collections::StringMap;
use crate::config::Config;
use crate::device::{Device, DeviceView, devices_eq, devices_view};
use crate::tray::auto_start_label;

verus! {

/// The state kept between events.
pub struct AppState {
    pub devices_cache: Vec<Device>,
    pub device_ids: StringMap,
    pub auto_start: bool,
}

impl AppState {
    /// The state at start-up: no devices, no ids, auto-start off.
    pub fn new() -> (s: Self)
        ensures
            s.devices_cache@.len() == 0,
            s.device_ids@ == Map::<Seq<char>, Seq<char>>::empty(),
            !s.auto_start,
    {
        AppState { devices_cache: Vec::new(), device_ids: StringMap::new(), auto_start: false }
    }
}

/// The cached device list, which the tooltip reads.
pub fn get_devices_cache(state: &AppState) -> (r: &Vec<Device>)
    ensures
        r@ == state.devices_cache@,
{
    &state.devices_cache
}

/// The device ids stored at the last listing.
pub fn get_device_ids(state: &AppState) -> (r: &StringMap)
    ensures
        r@ == state.device_ids@,
{
    &state.device_ids
}

/// Replaces the cached device list by a fresh one; tells whether it changed.
pub fn refresh_devices_cache(state: &mut AppState, new_devices: Vec<Device>) -> (changed: bool)
    ensures
        changed == (devices_view(old(state).devices_cache@) != devices_view(new_devices@)),
        devices_view(final(state).devices_cache@) == devices_view(new_devices@),
        final(state).device_ids@ == old(state).device_ids@,
        final(state).auto_start == old(state).auto_start,
{
    if !devices_eq(&state.devices_cache, &new_devices) {
        state.devices_cache = new_devices;
        true
    } else {
        false
    }
}

/// Takes the auto-start switch from the settings.
pub fn init_auto_start(state: &mut AppState, config: &Config)
    ensures
        final(state).auto_start == config.auto_start,
        final(state).devices_cache@ == old(state).devices_cache@,
        final(state).device_ids@ == old(state).device_ids@,
{
    state.auto_start = config.auto_start;
}

/// The text of the auto-start menu item for the current switch.
pub fn update_auto_text(state: &AppState) -> (r: &'static str)
    ensures
        r@ == if state.auto_start {
            "开机自启 ✓"@
        } else {
            "开机自启"@
        },
{
    auto_start_label(state.auto_start)
}

/// Flips the auto-start switch, in the state and in the settings; gives
/// the new value.
pub fn toggle_auto_start(state: &mut AppState, config: &mut Config) -> (r: bool)
    ensures
        r == !old(state).auto_start,
        final(state).auto_start == r,
        final(config).auto_start == r,
        *final(config) == (Config { auto_start: r, ..*old(config) }),
        final(state).devices_cache@ == old(state).devices_cache@,
        final(state).device_ids@ == old(state).device_ids@,
{
    let new_val = !state.auto_start;
    state.auto_start = new_val;
    config.auto_start = new_val;
    new_val
}

/// The change to ask of the system's auto-start registration: the wanted
/// state when it differs from the registered one, else none.
pub fn autostart_request(wanted: bool, registered: bool) -> (r: Option<bool>)
    ensures
        wanted != registered ==> r == Some(wanted),
        wanted == registered ==> r is None,
{
    if wanted != registered {
        Some(wanted)
    } else {
        None
    }
}

} // verus!
