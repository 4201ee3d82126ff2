//! Drivers: what is known of a device's driver, the built-in driver table,
//! and what the outcome of loading a kernel module means.

use vstd::prelude::*;
use crate::notifications::Notification;
use crate::text::{append_str, chars_eq, chars_of, lines, lines_of, string_of, words, words_of};

verus! {

/// What is known of the driver for a vendor:product pair.
#[derive(Debug, Clone)]
pub struct DriverInfo {
    pub name: String,
    pub vendor_id: String,
    pub product_id: String,
    pub kernel_module: Option<String>,
    pub package: Option<String>,
    pub needs_firmware: bool,
    pub config: Option<String>,
}

/// Why a driver could not be installed.
#[derive(Debug, Clone)]
pub enum DriverError {
    InstallFailed(String),
    PackageNotFound(String),
    PermissionDenied,
}

impl DriverError {
    /// The message that describes the error.
    pub fn message(&self) -> (r: String)
        ensures
            r@ == match self {
                DriverError::InstallFailed(m) => "Installation failed: "@ + m@,
                DriverError::PackageNotFound(p) => "Package not found: "@ + p@,
                DriverError::PermissionDenied => "Permission denied"@,
            },
    {
        let mut out: Vec<char> = Vec::new();
        match self {
            DriverError::InstallFailed(m) => {
                append_str(&mut out, "Installation failed: ");
                append_str(&mut out, m.as_str());
            },
            DriverError::PackageNotFound(p) => {
                append_str(&mut out, "Package not found: ");
                append_str(&mut out, p.as_str());
            },
            DriverError::PermissionDenied => {
                append_str(&mut out, "Permission denied");
            },
        }
        string_of(&out)
    }
}

/// The outcome of running a command.
#[derive(Debug, Clone)]
pub enum CommandOutcome {
    /// The command could not be started; holds the reason.
    NotStarted(String),
    /// The command ran; whether it succeeded, and what it wrote on stderr.
    Finished { success: bool, stderr: String },
}

/// What installing a driver comes to, given the outcome of `modprobe` for
/// its kernel module (`None` when the driver has no kernel module, so that
/// nothing was run).
pub fn install_result(modprobe: Option<CommandOutcome>) -> (r: Result<(), DriverError>)
    ensures
        match modprobe {
            None => r is Ok,
            Some(CommandOutcome::NotStarted(e)) => r matches Err(DriverError::InstallFailed(m)) && m == e,
            Some(CommandOutcome::Finished { success, stderr }) => if success {
                r is Ok
            } else {
                r matches Err(DriverError::InstallFailed(m)) && m == stderr
            },
        },
{
    match modprobe {
        None => Ok(()),
        Some(CommandOutcome::NotStarted(e)) => Err(DriverError::InstallFailed(e)),
        Some(CommandOutcome::Finished { success, stderr }) => {
            if success {
                Ok(())
            } else {
                Err(DriverError::InstallFailed(stderr))
            }
        },
    }
}

/// A line of `lsmod` output names the module: its first whitespace-separated
/// column is the name.
pub open spec fn names_module(line: Seq<char>, name: Seq<char>) -> bool {
    words_of(line).len() > 0 && words_of(line)[0] == name
}

/// Some line of `lsmod` output names the module in its first column.
pub open spec fn module_listed(output: Seq<char>, name: Seq<char>) -> bool {
    exists|i: int| 0 <= i < lines_of(output).len() && names_module(#[trigger] lines_of(output)[i], name)
}

/// Whether `lsmod` output lists a module: the first column of some line is
/// its name.
/// Without output (`lsmod` could not run) no module counts as loaded.
pub fn is_module_listed(lsmod_output: Option<String>, name: &str) -> (r: bool)
    ensures
        r == match lsmod_output {
            Some(out) => module_listed(out@, name@),
            None => false,
        },
{
    let ghost given = lsmod_output;
    match lsmod_output {
        None => false,
        Some(out) => {
            let text = chars_of(out.as_str());
            let ls = lines(&text);
            let n = chars_of(name);
            let mut i: usize = 0;
            while i < ls.len()
                invariant
                    0 <= i <= ls@.len(),
                    ls@.len() == lines_of(out@).len(),
                    forall|k: int| 0 <= k < ls@.len() ==> #[trigger] ls@[k]@ == lines_of(out@)[k],
                    n@ == name@,
                    given == Some(out),
                    given == lsmod_output,
                    forall|k: int| 0 <= k < i ==> !names_module(#[trigger] lines_of(out@)[k], name@),
                decreases ls@.len() - i,
            {
                let ws = words(&ls[i]);
                if ws.len() > 0 && chars_eq(&ws[0], &n) {
                    assert(names_module(lines_of(out@)[i as int], name@));
                    assert(module_listed(out@, name@));
                    return true;
                }
                i = i + 1;
            }
            false
        },
    }
}

/// The notification sent once a driver is installed.
pub fn driver_installed_notification(driver: &DriverInfo) -> (r: Notification)
    ensures
        r.title@ == "Driver installed"@,
        r.body@ == driver.name@ + " is now active"@,
        r.actions@.len() == 1,
        r.actions@[0].label@ == "OK"@,
        r.actions@[0].id@ == "ok"@,
{
    let mut body = chars_of(driver.name.as_str());
    append_str(&mut body, " is now active");
    let body = string_of(&body);
    Notification::simple("Driver installed", body.as_str())
}

/// The kernel module of a table row: an empty name means none.
pub fn module_option(km: &str) -> (r: Option<String>)
    ensures
        km@.len() == 0 ==> r is None,
        km@.len() > 0 ==> (r matches Some(m) && m@ == km@),
{
    if km.is_empty() {
        None
    } else {
        Some(String::from_str(km))
    }
}

/// The drivers known before any lookup: name, vendor ID, product ID, kernel
/// module (empty for none) and whether firmware is needed.
pub open spec fn builtin_table() -> Seq<(Seq<char>, Seq<char>, Seq<char>, Seq<char>, bool)> {
    seq![
        ("Intel Graphics"@, "8086"@, "0000"@, "i915"@, true),
        ("Realtek Card Reader"@, "0bda"@, "0129"@, "rtsx_usb"@, false),
        ("Realtek Card Reader"@, "0bda"@, "0139"@, "rtsx_usb"@, false),
        ("Intel Wi-Fi"@, "8087"@, "0a2a"@, "iwlwifi"@, true),
        ("Intel Wi-Fi"@, "8087"@, "0a2b"@, "iwlwifi"@, true),
        ("Broadcom Wi-Fi"@, "1054"@, "0400"@, "brcmfmac"@, true),
        ("MediaTek Wi-Fi"@, "048d"@, "1236"@, "mt76"@, true),
        ("USB Storage"@, "090c"@, "1000"@, ""@, false),
        ("USB Storage"@, "0bda"@, "0151"@, ""@, false),
        ("USB Storage"@, "0bda"@, "0311"@, ""@, false),
        ("Bluetooth"@, "0a5c"@, "216f"@, "btusb"@, true),
        ("Bluetooth"@, "0b05"@, "17cb"@, "btusb"@, true),
        ("ThinkPad TrackPoint"@, "06cb"@, "0001"@, ""@, false),
        ("ThinkPad Fingerprint"@, "06cb"@, "76ad"@, "serio"@, false),
    ]
}

/// A driver entry matches a row of the built-in table.
pub open spec fn is_builtin_row(d: DriverInfo, row: (Seq<char>, Seq<char>, Seq<char>, Seq<char>, bool)) -> bool {
    &&& d.name@ == row.0
    &&& d.vendor_id@ == row.1
    &&& d.product_id@ == row.2
    &&& (if row.3.len() == 0 { d.kernel_module is None } else { d.kernel_module matches Some(m) && m@ == row.3 })
    &&& d.package is None
    &&& d.needs_firmware == row.4
    &&& d.config is None
}

fn builtin_row(name: &str, vid: &str, pid: &str, km: &str, fw: bool) -> (r: DriverInfo)
    ensures
        is_builtin_row(r, (name@, vid@, pid@, km@, fw)),
{
    DriverInfo {
        name: String::from_str(name),
        vendor_id: String::from_str(vid),
        product_id: String::from_str(pid),
        kernel_module: module_option(km),
        package: None,
        needs_firmware: fw,
        config: None,
    }
}

/// The built-in driver entries, in table order.
pub fn builtin_drivers() -> (r: Vec<DriverInfo>)
    ensures
        r@.len() == builtin_table().len(),
        forall|i: int| 0 <= i < r@.len() ==> is_builtin_row(#[trigger] r@[i], builtin_table()[i]),
{
    let mut out: Vec<DriverInfo> = Vec::new();
    out.push(builtin_row("Intel Graphics", "8086", "0000", "i915", true));
    out.push(builtin_row("Realtek Card Reader", "0bda", "0129", "rtsx_usb", false));
    out.push(builtin_row("Realtek Card Reader", "0bda", "0139", "rtsx_usb", false));
    out.push(builtin_row("Intel Wi-Fi", "8087", "0a2a", "iwlwifi", true));
    out.push(builtin_row("Intel Wi-Fi", "8087", "0a2b", "iwlwifi", true));
    out.push(builtin_row("Broadcom Wi-Fi", "1054", "0400", "brcmfmac", true));
    out.push(builtin_row("MediaTek Wi-Fi", "048d", "1236", "mt76", true));
    out.push(builtin_row("USB Storage", "090c", "1000", "", false));
    out.push(builtin_row("USB Storage", "0bda", "0151", "", false));
    out.push(builtin_row("USB Storage", "0bda", "0311", "", false));
    out.push(builtin_row("Bluetooth", "0a5c", "216f", "btusb", true));
    out.push(builtin_row("Bluetooth", "0b05", "17cb", "btusb", true));
    out.push(builtin_row("ThinkPad TrackPoint", "06cb", "0001", "", false));
    out.push(builtin_row("ThinkPad Fingerprint", "06cb", "76ad", "serio", false));
    proof {
        reveal_strlit("");
        reveal_strlit("brcmfmac");
        reveal_strlit("btusb");
        reveal_strlit("i915");
        reveal_strlit("iwlwifi");
        reveal_strlit("mt76");
        reveal_strlit("rtsx_usb");
        reveal_strlit("serio");
        assert(out@.len() == builtin_table().len());
    }
    out
}

} // verus!
