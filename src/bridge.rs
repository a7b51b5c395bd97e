//! The bridge's command lines, and how its exit status is read.
use vstd::prelude::*;
use crate::catalog::str_views;

verus! {

/// Why a bridge command failed.
#[derive(Clone, Debug, PartialEq, Eq)]
pub enum BridgeError {
    /// The bridge could not be started; the reason given.
    SpawnFailed(String),
    /// The bridge ran and reported failure; what it printed on standard error.
    CommandFailed(String),
}

/// What a finished bridge command comes to: its standard output when it
/// succeeded, else what it printed on standard error.
pub fn command_result(succeeded: bool, stdout: String, stderr: String) -> (r: Result<String, BridgeError>)
    ensures
        succeeded ==> (r matches Ok(o) && o == stdout),
        !succeeded ==> (r matches Err(BridgeError::CommandFailed(e)) && e == stderr),
{
    if succeeded {
        Ok(stdout)
    } else {
        Err(BridgeError::CommandFailed(stderr))
    }
}

/// The texts of a list of strings.
pub open spec fn string_views(v: Seq<String>) -> Seq<Seq<char>> {
    v.map_values(|s: String| s@)
}

fn owned_args(list: Vec<&str>) -> (r: Vec<String>)
    ensures
        string_views(r@) == str_views(list@),
{
    let mut r: Vec<String> = Vec::new();
    let mut i: usize = 0;
    while i < list.len()
        invariant
            i <= list@.len(),
            r@.len() == i,
            forall|k: int| 0 <= k < i ==> #[trigger] r@[k]@ == list@[k]@,
        decreases list@.len() - i,
    {
        r.push(String::from_str(list[i]));
        i = i + 1;
    }
    assert(string_views(r@) =~= str_views(list@));
    r
}

/// The device listing: `adb devices`.
pub fn devices_args() -> (r: Vec<String>)
    ensures
        string_views(r@) == seq!["devices"@],
{
    let r = owned_args(vec!["devices"]);
    assert(string_views(r@) =~= seq!["devices"@]);
    r
}

/// The long device listing: `adb devices -l`.
pub fn devices_long_args() -> (r: Vec<String>)
    ensures
        string_views(r@) == seq!["devices"@, "-l"@],
{
    let r = owned_args(vec!["devices", "-l"]);
    assert(string_views(r@) =~= seq!["devices"@, "-l"@]);
    r
}

/// The listing of the system packages: `adb shell pm list packages -s`.
pub fn system_packages_args() -> (r: Vec<String>)
    ensures
        string_views(r@) == seq!["shell"@, "pm"@, "list"@, "packages"@, "-s"@],
{
    let r = owned_args(vec!["shell", "pm", "list", "packages", "-s"]);
    assert(string_views(r@) =~= seq!["shell"@, "pm"@, "list"@, "packages"@, "-s"@]);
    r
}

/// The listing of every package: `adb shell pm list packages`.
pub fn all_packages_args() -> (r: Vec<String>)
    ensures
        string_views(r@) == seq!["shell"@, "pm"@, "list"@, "packages"@],
{
    let r = owned_args(vec!["shell", "pm", "list", "packages"]);
    assert(string_views(r@) =~= seq!["shell"@, "pm"@, "list"@, "packages"@]);
    r
}

/// The listing filtered by one name, which probes for that package.
pub fn probe_args(package: &str) -> (r: Vec<String>)
    ensures
        string_views(r@) == seq!["shell"@, "pm"@, "list"@, "packages"@, package@],
{
    let r = owned_args(vec!["shell", "pm", "list", "packages", package]);
    assert(string_views(r@) =~= seq!["shell"@, "pm"@, "list"@, "packages"@, package@]);
    r
}

/// A connection to `host:port`.
pub fn connect_args(address: &str) -> (r: Vec<String>)
    ensures
        string_views(r@) == seq!["connect"@, address@],
{
    let r = owned_args(vec!["connect", address]);
    assert(string_views(r@) =~= seq!["connect"@, address@]);
    r
}

/// The end of the connection to a device.
pub fn disconnect_args(device: &str) -> (r: Vec<String>)
    ensures
        string_views(r@) == seq!["disconnect"@, device@],
{
    let r = owned_args(vec!["disconnect", device]);
    assert(string_views(r@) =~= seq!["disconnect"@, device@]);
    r
}

/// The switch of a USB device to network mode on port 5555.
pub fn tcpip_args() -> (r: Vec<String>)
    ensures
        string_views(r@) == seq!["tcpip"@, "5555"@],
{
    let r = owned_args(vec!["tcpip", "5555"]);
    assert(string_views(r@) =~= seq!["tcpip"@, "5555"@]);
    r
}

/// The addresses of the wireless interface.
pub fn interface_args() -> (r: Vec<String>)
    ensures
        string_views(r@) == seq!["shell"@, "ip"@, "addr"@, "show"@, "wlan0"@],
{
    let r = owned_args(vec!["shell", "ip", "addr", "show", "wlan0"]);
    assert(string_views(r@) =~= seq!["shell"@, "ip"@, "addr"@, "show"@, "wlan0"@]);
    r
}

/// Uninstalling a package for the current user.
pub fn uninstall_args(package: &str) -> (r: Vec<String>)
    ensures
        string_views(r@) == seq!["shell"@, "pm"@, "uninstall"@, "--user"@, "0"@, package@],
{
    let r = owned_args(vec!["shell", "pm", "uninstall", "--user", "0", package]);
    assert(string_views(r@) =~= seq!["shell"@, "pm"@, "uninstall"@, "--user"@, "0"@, package@]);
    r
}

/// Disabling a package for the current user.
pub fn disable_args(package: &str) -> (r: Vec<String>)
    ensures
        string_views(r@) == seq!["shell"@, "pm"@, "disable-user"@, "--user"@, "0"@, package@],
{
    let r = owned_args(vec!["shell", "pm", "disable-user", "--user", "0", package]);
    assert(string_views(r@) =~= seq!["shell"@, "pm"@, "disable-user"@, "--user"@, "0"@, package@]);
    r
}

/// Restoring a package that the device still holds.
pub fn install_existing_args(package: &str) -> (r: Vec<String>)
    ensures
        string_views(r@) == seq!["shell"@, "cmd"@, "package"@, "install-existing"@, package@],
{
    let r = owned_args(vec!["shell", "cmd", "package", "install-existing", package]);
    assert(string_views(r@) =~= seq!["shell"@, "cmd"@, "package"@, "install-existing"@, package@]);
    r
}

/// Reading one system property.
pub fn getprop_args(property: &str) -> (r: Vec<String>)
    ensures
        string_views(r@) == seq!["shell"@, "getprop"@, property@],
{
    let r = owned_args(vec!["shell", "getprop", property]);
    assert(string_views(r@) =~= seq!["shell"@, "getprop"@, property@]);
    r
}

/// Pairing with `host:port` under a pairing code.
pub fn pair_args(address: &str, code: &str) -> (r: Vec<String>)
    ensures
        string_views(r@) == seq!["pair"@, address@, code@],
{
    let r = owned_args(vec!["pair", address, code]);
    assert(string_views(r@) =~= seq!["pair"@, address@, code@]);
    r
}

} // verus!
