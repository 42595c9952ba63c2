//! What the forwarder makes of its surroundings: the VR runtime, the USB role
//! of the headset's port, and the failures of either.

use vstd::prelude::*;

use crate::text::{
    chars_of, integer_value, signed_decimal, signed_decimal_denotes, signed_text, trim, trim_bounds,
    trim_cuts_white_space, white_space,
};

verus! {

/// The names under which the VR runtime's library is looked for, in order.
pub open spec fn library_names() -> Seq<Seq<char>> {
    seq!["libopenvr_api.so"@, "libopenvr_api.so.0"@, "/usr/lib/libopenvr_api.so"@]
}

/// The name under which to look for the VR runtime's library after it was not
/// found under the first `failed` names; nothing where none is left.
pub fn next_library(failed: usize) -> (r: Option<&'static str>)
    ensures
        r is None <==> failed >= library_names().len(),
        r matches Some(name) ==> name@ == library_names()[failed as int],
{
    if failed == 0 {
        Some("libopenvr_api.so")
    } else if failed == 1 {
        Some("libopenvr_api.so.0")
    } else if failed == 2 {
        Some("/usr/lib/libopenvr_api.so")
    } else {
        None
    }
}

/// What went wrong where the VR runtime could not be started.
pub open spec fn init_error(err: int) -> Seq<char> {
    "VR_InitInternal2 failed: EVRInitError="@ + signed_decimal(err)
}

/// What went wrong where the VR runtime did not give out its interface.
pub open spec fn interface_error(err: int) -> Seq<char> {
    "VR_GetGenericInterface(IVRClientInternal_XXX) returned null (EVRInitError="@ + signed_decimal(
        err,
    ) + ") — is SteamVR running?"@
}

/// What the VR runtime's error code says of starting it: 0 is success.
pub fn check_init(err: i32) -> (r: Result<(), String>)
    ensures
        r is Ok <==> err == 0,
        r matches Err(e) ==> e@ == init_error(err as int),
{
    if err != 0 {
        let mut e: String = String::from_str("VR_InitInternal2 failed: EVRInitError=");
        e.append(signed_text(err).as_str());
        Err(e)
    } else {
        Ok(())
    }
}

/// Whether the VR runtime gave out its interface: `is_null` says that it gave
/// nothing, and `err` is its error code.
pub fn check_interface(is_null: bool, err: i32) -> (r: Result<(), String>)
    ensures
        r is Ok <==> !is_null && err == 0,
        r matches Err(e) ==> e@ == interface_error(err as int),
{
    if is_null || err != 0 {
        let mut e: String = String::from_str(
            "VR_GetGenericInterface(IVRClientInternal_XXX) returned null (EVRInitError=",
        );
        e.append(signed_text(err).as_str());
        e.append(") — is SteamVR running?");
        Err(e)
    } else {
        Ok(())
    }
}

/// What was being done when something failed.
#[derive(Copy, Clone, Debug, PartialEq, Eq, Structural)]
pub enum Step {
    /// Starting the VR runtime.
    OpenVr,
    /// Opening the controller's serial port.
    SerialOpen,
    /// Writing to the controller.
    SerialWrite,
    /// Loading the VR runtime's library.
    LoadLibrary,
    /// Finding the function that starts the VR runtime.
    FindInit,
    /// Finding the function that gives out interfaces.
    FindInterface,
    /// Finding the function that stops the VR runtime.
    FindShutdown,
    /// Starting libusb.
    UsbInit,
    /// Listing the USB devices.
    UsbList,
    /// Reading the configuration of the controller.
    UsbConfig,
    /// Opening the controller.
    UsbOpen,
}

impl Step {
    /// How an error at this step begins.
    pub open spec fn text(self) -> Seq<char> {
        match self {
            Step::OpenVr => "openvr init failed: "@,
            Step::SerialOpen => "serial open failed: "@,
            Step::SerialWrite => "serial write: "@,
            Step::LoadLibrary => "dlopen libopenvr_api.so: "@,
            Step::FindInit => "VR_InitInternal2: "@,
            Step::FindInterface => "VR_GetGenericInterface: "@,
            Step::FindShutdown => "VR_ShutdownInternal: "@,
            Step::UsbInit => "libusb init: "@,
            Step::UsbList => "list devices: "@,
            Step::UsbConfig => "config descriptor: "@,
            Step::UsbOpen => "open: "@,
        }
    }

    /// How an error at this step begins.
    pub fn prefix(self) -> (r: &'static str)
        ensures
            r@ == self.text(),
    {
        match self {
            Step::OpenVr => "openvr init failed: ",
            Step::SerialOpen => "serial open failed: ",
            Step::SerialWrite => "serial write: ",
            Step::LoadLibrary => "dlopen libopenvr_api.so: ",
            Step::FindInit => "VR_InitInternal2: ",
            Step::FindInterface => "VR_GetGenericInterface: ",
            Step::FindShutdown => "VR_ShutdownInternal: ",
            Step::UsbInit => "libusb init: ",
            Step::UsbList => "list devices: ",
            Step::UsbConfig => "config descriptor: ",
            Step::UsbOpen => "open: ",
        }
    }
}

/// The error where the step `step` failed because of `cause`.
pub fn step_error(step: Step, cause: &str) -> (r: String)
    ensures
        r@ == step.text() + cause@,
{
    let mut r: String = String::from_str(step.prefix());
    r.append(cause);
    r
}

/// Text in double quotes, with escapes where it needs them.
pub uninterp spec fn quoted(s: Seq<char>) -> Seq<char>;

/// `format!` with `{:?}` on a `str`: its `Debug` text, which depends on the
/// text alone.
#[verifier::external_body]
fn quote(s: &str) -> (r: String)
    ensures
        r@ == quoted(s@),
{
    format!("{:?}", s)
}

/// The file that holds the role of the headset's USB-C port.
pub open spec fn mode_path() -> Seq<char> {
    "/sys/kernel/debug/usb/a600000.usb/mode"@
}

/// The file that holds the role of the headset's USB-C port.
pub fn usb_mode_path() -> (r: &'static str)
    ensures
        r@ == mode_path(),
{
    "/sys/kernel/debug/usb/a600000.usb/mode"
}

/// The warning that the port is in the wrong role, given the role in quotes.
pub open spec fn role_warning_text(role: Seq<char>) -> Seq<char> {
    "[fwd] WARNING: USB-C role is "@ + role
        + ", expected \"host\". The ESP will not enumerate until you run:\n  sudo sh -c 'echo host > "@
        + mode_path()
        + "'\n  (and then physically replug the ESP, per the dwc3 stuck-state thing)."@
}

/// The warning that the port is in the wrong role, given the role in quotes.
pub fn role_warning(role: &str) -> (r: String)
    ensures
        r@ == role_warning_text(role@),
{
    let mut r: String = String::from_str("[fwd] WARNING: USB-C role is ");
    r.append(role);
    r.append(
        ", expected \"host\". The ESP will not enumerate until you run:\n  sudo sh -c 'echo host > ",
    );
    r.append(usb_mode_path());
    r.append("'\n  (and then physically replug the ESP, per the dwc3 stuck-state thing).");
    r
}

/// The warning to give where `contents`, what the port's role file holds, is
/// any other role than `host`; white space around the role does not count.
pub open spec fn warning_for(contents: Seq<char>) -> Option<Seq<char>> {
    if trim(contents) == "host"@ {
        None
    } else {
        Some(role_warning_text(quoted(trim(contents))))
    }
}

/// The warning to give where `contents`, what the port's role file holds, is
/// any other role than `host`.
pub fn host_mode_warning(contents: &str) -> (r: Option<String>)
    ensures
        r is None <==> warning_for(contents@) is None,
        r matches Some(w) ==> warning_for(contents@) == Some(w@),
{
    let s: Vec<char> = chars_of(contents);
    let (a, b): (usize, usize) = trim_bounds(&s, 0, s.len());
    assert(s@.subrange(0, s@.len() as int) == s@);
    let role: &str = contents.substring_char(a, b);
    if String::from_str(role) == String::from_str("host") {
        None
    } else {
        Some(role_warning(quote(role).as_str()))
    }
}

/// The VR runtime's error code can be read off the error.
pub proof fn vr_errors_give_their_code(err: int)
    ensures
        init_error(err) == "VR_InitInternal2 failed: EVRInitError="@ + signed_decimal(err),
        interface_error(err)
            == "VR_GetGenericInterface(IVRClientInternal_XXX) returned null (EVRInitError="@
            + signed_decimal(err) + ") — is SteamVR running?"@,
        integer_value(signed_decimal(err)) == Some(err),
{
    signed_decimal_denotes(err);
}

/// The role in the file is what its white space surrounds. `host` calls for no
/// warning, and any other role for one that quotes it.
pub proof fn only_host_is_right(s: Seq<char>, a: int, b: int)
    requires
        0 <= a <= b <= s.len(),
        forall|i: int| 0 <= i < a ==> white_space(#[trigger] s[i]),
        forall|i: int| b <= i < s.len() ==> white_space(#[trigger] s[i]),
        a < b ==> !white_space(s[a]) && !white_space(s[b - 1]),
    ensures
        s.subrange(a, b) == seq!['h', 'o', 's', 't'] ==> warning_for(s) is None,
        s.subrange(a, b) != seq!['h', 'o', 's', 't'] ==> warning_for(s) == Some(
            role_warning_text(quoted(s.subrange(a, b))),
        ),
{
    reveal_strlit("host");
    assert("host"@ == seq!['h', 'o', 's', 't']);
    trim_cuts_white_space(s, a, b);
}

/// The warning names the role that was found and the file to put it right in.
pub proof fn warning_names_role_and_file(role: Seq<char>)
    ensures
        role_warning_text(role) == "[fwd] WARNING: USB-C role is "@ + role
            + ", expected \"host\". The ESP will not enumerate until you run:\n  sudo sh -c 'echo host > "@
            + "/sys/kernel/debug/usb/a600000.usb/mode"@
            + "'\n  (and then physically replug the ESP, per the dwc3 stuck-state thing)."@,
{
}

} // verus!
