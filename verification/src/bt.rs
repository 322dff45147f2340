//! Bluetooth connect and disconnect requests: what is handed to the action
//! script, how its outcome is read, how the script's process is watched, and
//! where a classic device's battery level is found.

use vstd::prelude::*;
use crate::collections::StringMap;
use crate::fmt::{decimal, signed_decimal, spec_decimal, spec_signed_decimal};
use crate::logging::older_than;
use crate::text::{
    after_last, after_last_char, remove_char, seq_contains, spec_to_uppercase, spec_trim, str_contains,
    str_eq, to_uppercase, trim, without_char,
};

verus! {

/// A paired Bluetooth device as the system reports it.
pub struct PairedBtDevice {
    pub name: String,
    pub connected: bool,
    pub battery: Option<u8>,
    pub device_id: String,
}

/// The MAC address part of a Bluetooth device id: what follows its last '-'.
pub fn mac_of_device_id(device_id: &str) -> (r: String)
    ensures
        r@ == after_last(device_id@, '-'),
{
    after_last_char(device_id, '-')
}

/// The name of the file into which the action script writes its report.
pub open spec fn spec_out_file_name(mac: Seq<char>) -> Seq<char> {
    "bt_action_out_"@ + without_char(mac, ':') + ".txt"@
}

/// The name of the report file for the device with this MAC address; the
/// address without its colons keeps two devices' reports apart.
pub fn out_file_name(mac: &str) -> (r: String)
    ensures
        r@ == spec_out_file_name(mac@),
{
    let mut r = "bt_action_out_".to_owned();
    let bare = remove_char(mac, ':');
    r.append(bare.as_str());
    r.append(".txt");
    r
}

/// What a connect or disconnect request needs: the device's id, its MAC
/// address and the name of the script's report file.
pub struct BtActionPlan {
    pub device_id: String,
    pub mac: String,
    pub out_file_name: String,
}

/// The error for a device whose id is not known.
pub open spec fn spec_unknown_device(name: Seq<char>) -> Seq<char> {
    "Device '"@ + name + "' not found"@
}

/// Prepares a request for the device named `name`, from the ids stored at
/// the last scan; fails when no id is stored under that name.
pub fn bt_action_plan(ids: &StringMap, name: &str) -> (r: Result<BtActionPlan, String>)
    ensures
        r is Ok <==> ids@.contains_key(name@),
        r matches Ok(p) ==> {
            &&& p.device_id@ == ids@[name@]
            &&& p.mac@ == after_last(ids@[name@], '-')
            &&& p.out_file_name@ == spec_out_file_name(p.mac@)
        },
        r matches Err(e) ==> e@ == spec_unknown_device(name@),
{
    match ids.get(name) {
        Some(id) => {
            let mac = mac_of_device_id(id.as_str());
            let file = out_file_name(mac.as_str());
            Ok(BtActionPlan { device_id: id.clone(), mac, out_file_name: file })
        },
        None => {
            let mut e = "Device '".to_owned();
            e.append(name);
            e.append("' not found");
            Err(e)
        },
    }
}

/// The arguments of the action script: the device's MAC address, the
/// action, and the path of the report file.
pub fn bt_script_args(mac: &str, action: &str, out_path: &str) -> (r: Vec<String>)
    ensures
        r@.map_values(|s: String| s@) == seq![
            "-Mac"@,
            mac@,
            "-Action"@,
            action@,
            "-OutFile"@,
            out_path@,
        ],
{
    let mut r: Vec<String> = Vec::new();
    r.push("-Mac".to_owned());
    r.push(mac.to_owned());
    r.push("-Action".to_owned());
    r.push(action.to_owned());
    r.push("-OutFile".to_owned());
    r.push(out_path.to_owned());
    assert(r@.map_values(|s: String| s@) =~= seq![
        "-Mac"@,
        mac@,
        "-Action"@,
        action@,
        "-OutFile"@,
        out_path@,
    ]);
    r
}

/// The script's output joined with its report: the report, trimmed, on a
/// line of its own, when there is one.
pub open spec fn spec_combined(result: Seq<char>, report: Seq<char>) -> Seq<char> {
    if report.len() == 0 {
        result
    } else {
        result + "\n"@ + spec_trim(report)
    }
}

/// The outcome of a request: a report that names a missing device or a
/// missing adapter is an error, anything else the combined output.
pub open spec fn spec_bt_action_result(result: Seq<char>, report: Seq<char>) -> Result<
    Seq<char>,
    Seq<char>,
> {
    let c = spec_combined(result, report);
    if seq_contains(c, "NOT_FOUND"@) {
        Err("设备未找到"@)
    } else if seq_contains(c, "NO_RADIO"@) {
        Err("未检测到蓝牙适配器"@)
    } else {
        Ok(c)
    }
}

/// Reads the outcome of a request from the script's output and report.
pub fn bt_action_result(result: &str, report: &str) -> (r: Result<String, String>)
    ensures
        match (r, spec_bt_action_result(result@, report@)) {
            (Ok(s), Ok(t)) => s@ == t,
            (Err(e), Err(t)) => e@ == t,
            _ => false,
        },
{
    let combined = if report.is_empty() {
        result.to_owned()
    } else {
        let mut c = result.to_owned();
        c.append("\n");
        let t = trim(report);
        c.append(t.as_str());
        c
    };
    if str_contains(combined.as_str(), "NOT_FOUND") {
        return Err("设备未找到".to_owned());
    }
    if str_contains(combined.as_str(), "NO_RADIO") {
        return Err("未检测到蓝牙适配器".to_owned());
    }
    Ok(combined)
}

/// The outcome of the script's process: its trimmed output when it exited
/// with success, else an error with its exit code (-1 when it has none) and
/// its trimmed error output.
pub open spec fn spec_script_result(
    success: bool,
    exit_code: Option<i32>,
    stdout: Seq<char>,
    stderr: Seq<char>,
) -> Result<Seq<char>, Seq<char>> {
    if success {
        Ok(spec_trim(stdout))
    } else {
        let code: int = match exit_code {
            Some(c) => c as int,
            None => -1,
        };
        Err("Script failed (exit "@ + spec_signed_decimal(code) + "): "@ + spec_trim(stderr))
    }
}

/// Reads the outcome of the script's process.
pub fn script_result(success: bool, exit_code: Option<i32>, stdout: &str, stderr: &str) -> (r:
    Result<String, String>)
    ensures
        match (r, spec_script_result(success, exit_code, stdout@, stderr@)) {
            (Ok(s), Ok(t)) => s@ == t,
            (Err(e), Err(t)) => e@ == t,
            _ => false,
        },
{
    if success {
        return Ok(trim(stdout));
    }
    let code: i64 = match exit_code {
        Some(c) => c as i64,
        None => -1,
    };
    let mut e = "Script failed (exit ".to_owned();
    let digits = signed_decimal(code);
    e.append(digits.as_str());
    e.append("): ");
    let t = trim(stderr);
    e.append(t.as_str());
    Err(e)
}

/// What one look at the script's process found.
pub enum ChildPoll {
    Exited,
    Running,
    Failed(String),
}

/// What to do after one look at the script's process.
pub enum PollAction {
    /// Collect the output of the finished process.
    Collect,
    /// Look again after a short sleep.
    Wait,
    /// Kill the process and fail with this message.
    Kill(String),
    /// Fail with this message.
    Fail(String),
}

/// How long the script may run, in seconds.
pub const SCRIPT_TIMEOUT_SECS: u64 = 60;

/// The message of a process that ran out of time.
pub open spec fn spec_timeout_message(pid: u32) -> Seq<char> {
    "[bt] TIMEOUT after 60s, killed pid="@ + spec_decimal(pid as nat)
}

/// Decides, after one look at the script's process, what to do next: a
/// process that runs longer than the time limit is killed.
pub fn poll_child(poll: ChildPoll, elapsed: (u64, u32), pid: u32) -> (r: PollAction)
    ensures
        match poll {
            ChildPoll::Exited => r is Collect,
            ChildPoll::Running => if older_than(elapsed, SCRIPT_TIMEOUT_SECS) {
                r matches PollAction::Kill(m) && m@ == spec_timeout_message(pid)
            } else {
                r is Wait
            },
            ChildPoll::Failed(e) => r matches PollAction::Fail(m) && m@ == e@,
        },
{
    match poll {
        ChildPoll::Exited => PollAction::Collect,
        ChildPoll::Running => {
            if elapsed.0 > SCRIPT_TIMEOUT_SECS || (elapsed.0 == SCRIPT_TIMEOUT_SECS && elapsed.1 > 0) {
                let mut m = "[bt] TIMEOUT after 60s, killed pid=".to_owned();
                let digits = decimal(pid as u64);
                m.append(digits.as_str());
                PollAction::Kill(m)
            } else {
                PollAction::Wait
            }
        },
        ChildPoll::Failed(e) => PollAction::Fail(e),
    }
}

/// A system device that may carry the battery level of a classic
/// Bluetooth device.
pub struct BatteryNode {
    pub instance_id: String,
    pub battery: Option<u8>,
}

/// The key by which a device's battery node is found: its MAC address in
/// upper case without colons.
pub open spec fn btc_mac_key(device_id: Seq<char>) -> Seq<char> {
    without_char(spec_to_uppercase(after_last(device_id, '-')), ':')
}

/// The node is a Bluetooth enumerator node of the device with this key.
pub open spec fn is_battery_node_of(n: BatteryNode, key: Seq<char>) -> bool {
    seq_contains(n.instance_id@, "BTHENUM\\"@) && seq_contains(spec_to_uppercase(n.instance_id@), key)
}

/// The battery level of the first node of the device that carries one.
pub open spec fn first_battery(nodes: Seq<BatteryNode>, key: Seq<char>) -> Option<u8>
    decreases nodes.len(),
{
    if nodes.len() == 0 {
        None
    } else if is_battery_node_of(nodes[0], key) && nodes[0].battery is Some {
        nodes[0].battery
    } else {
        first_battery(nodes.drop_first(), key)
    }
}

fn node_matches(n: &BatteryNode, key: &String) -> (r: bool)
    ensures
        r == is_battery_node_of(*n, key@),
{
    if !str_contains(n.instance_id.as_str(), "BTHENUM\\") {
        return false;
    }
    let upper = to_uppercase(n.instance_id.as_str());
    str_contains(upper.as_str(), key.as_str())
}

/// The battery level of a classic Bluetooth device, read from the system
/// nodes that carry battery levels.
pub fn read_btc_battery_from_device_id(device_id: &str, nodes: &Vec<BatteryNode>) -> (r: Option<u8>)
    ensures
        r == first_battery(nodes@, btc_mac_key(device_id@)),
{
    let mac = mac_of_device_id(device_id);
    let upper = to_uppercase(mac.as_str());
    let key = remove_char(upper.as_str(), ':');
    let ghost k = btc_mac_key(device_id@);
    assert(key@ == k);
    assert(nodes@.subrange(0, nodes@.len() as int) =~= nodes@);
    let mut i: usize = 0;
    while i < nodes.len()
        invariant
            i <= nodes@.len(),
            key@ == k,
            k == btc_mac_key(device_id@),
            first_battery(nodes@, k) == first_battery(nodes@.subrange(i as int, nodes@.len() as int), k),
        decreases nodes@.len() - i,
    {
        let ghost rest = nodes@.subrange(i as int, nodes@.len() as int);
        assert(rest[0] == nodes@[i as int]);
        assert(rest.drop_first() =~= nodes@.subrange(i + 1, nodes@.len() as int));
        if node_matches(&nodes[i], &key) {
            if let Some(b) = nodes[i].battery {
                return Some(b);
            }
        }
        i = i + 1;
    }
    assert(nodes@.subrange(i as int, nodes@.len() as int) =~= Seq::<BatteryNode>::empty());
    None
}

/// Whether the first paired device named `name` is connected.
pub open spec fn spec_connection_of(devs: Seq<PairedBtDevice>, name: Seq<char>) -> Option<bool>
    decreases devs.len(),
{
    if devs.len() == 0 {
        None
    } else if devs[0].name@ == name {
        Some(devs[0].connected)
    } else {
        spec_connection_of(devs.drop_first(), name)
    }
}

/// The connection state of the paired device named `name`; `None` when no
/// paired device has that name.
pub fn check_device_connection(devices: &Vec<PairedBtDevice>, name: &str) -> (r: Option<bool>)
    ensures
        r == spec_connection_of(devices@, name@),
{
    assert(devices@.subrange(0, devices@.len() as int) =~= devices@);
    let mut i: usize = 0;
    while i < devices.len()
        invariant
            i <= devices@.len(),
            spec_connection_of(devices@, name@) == spec_connection_of(
                devices@.subrange(i as int, devices@.len() as int),
                name@,
            ),
        decreases devices@.len() - i,
    {
        let ghost rest = devices@.subrange(i as int, devices@.len() as int);
        assert(rest[0] == devices@[i as int]);
        assert(rest.drop_first() =~= devices@.subrange(i + 1, devices@.len() as int));
        if str_eq(devices[i].name.as_str(), name) {
            return Some(devices[i].connected);
        }
        i = i + 1;
    }
    assert(devices@.subrange(i as int, devices@.len() as int) =~= Seq::<PairedBtDevice>::empty());
    None
}

} // verus!
