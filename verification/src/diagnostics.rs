//! Checks of the host and of a virtual machine.

use vstd::prelude::*;

use crate::error::Failure;
use crate::qemu::types::ClipboardAgentStatus;
use crate::qemu::types::Discovery;
use crate::qemu::types::DiscoveryView;
use crate::qemu::types::InspectionReport;
use crate::qemu::types::InspectionView;
use crate::qemu::warnings::agent_status;
use crate::qemu::warnings::clipboard_agent_status;
use crate::qemu::warnings::DISCONNECTED_AGENT;
use crate::qemu::warnings::MISSING_AUDIO;
use crate::qemu::warnings::MISSING_CLIPBOARD;
use crate::qemu::warnings::UNVERIFIABLE_AGENT;
use crate::text::concat2;
use crate::text::concat3;
use crate::text::concat5;
use crate::text::joined;
use crate::text::number::decimal;
use crate::text::number::to_decimal;
use crate::text::opt_as_str;
use crate::text::opt_string;
use crate::text::opt_text;
use crate::text::same_text;
use crate::text::scan::contains;
use crate::text::scan::occurs;
use crate::text::texts;

verus! {

/// Whether extra diagnostics are printed.
#[derive(Debug)]
pub struct Verbosity {
    enabled: bool,
}

impl Verbosity {
    /// Extra diagnostics are printed.
    pub closed spec fn spec_enabled(&self) -> bool {
        self.enabled
    }
}

impl Default for Verbosity {
    fn default() -> (verbosity: Verbosity)
        ensures
            !verbosity.spec_enabled(),
    {
        Verbosity { enabled: false }
    }
}

/// Switches extra diagnostics on or off.
pub fn set_verbose(verbosity: &mut Verbosity, enabled: bool)
    ensures
        final(verbosity).spec_enabled() == enabled,
{
    verbosity.enabled = enabled;
}

/// Whether extra diagnostics are printed.
pub fn verbose_enabled(verbosity: &Verbosity) -> (enabled: bool)
    ensures
        enabled == verbosity.spec_enabled(),
{
    verbosity.enabled
}

/// The line to print for a diagnostic message, if one is to be printed.
pub fn verbose(verbosity: &Verbosity, message: &str) -> (line: Option<String>)
    ensures
        opt_string(line) == if verbosity.spec_enabled() {
            Some("[qd2] "@ + message@)
        } else {
            None
        },
{
    if verbose_enabled(verbosity) {
        Some(concat2("[qd2] ", message))
    } else {
        None
    }
}

/// How a check went.
#[derive(Copy, Clone, Debug, PartialEq, Eq, Structural)]
pub enum DoctorStatus {
    Pass,
    Warn,
    Fail,
}

/// One check.
#[derive(Debug)]
pub struct DoctorCheck {
    pub name: &'static str,
    pub status: DoctorStatus,
    pub detail: String,
}

/// One check, with its texts as sequences.
#[verifier::ext_equal]
pub struct CheckView {
    pub name: Seq<char>,
    pub status: DoctorStatus,
    pub detail: Seq<char>,
}

impl View for DoctorCheck {
    type V = CheckView;

    open spec fn view(&self) -> CheckView {
        CheckView { name: self.name@, status: self.status, detail: self.detail@ }
    }
}

/// The checks of a list.
pub open spec fn check_views(checks: Seq<DoctorCheck>) -> Seq<CheckView> {
    checks.map_values(|check: DoctorCheck| check@)
}

/// All checks, and the machine that was inspected.
#[derive(Debug)]
pub struct DoctorReport {
    pub host_checks: Vec<DoctorCheck>,
    pub vm_checks: Vec<DoctorCheck>,
    pub inspected_vm: Option<InspectionReport>,
}

/// What the environment says of the user's session.
#[derive(Debug)]
pub struct SessionEnvironment {
    pub wayland_display: Option<String>,
    pub display: Option<String>,
    pub session_type: Option<String>,
    pub runtime_dir: Option<String>,
    pub sudo_user: Option<String>,
    pub sudo_uid: Option<String>,
    pub dbus_session_bus: Option<String>,
}

/// Where the players were found.
#[derive(Debug)]
pub struct AudioTools {
    pub pw_play: Option<String>,
    pub aplay: Option<String>,
}

/// The session of the user behind sudo is reachable.
pub open spec fn session_is_preserved(
    sudo_uid: Option<Seq<char>>,
    runtime_dir: Option<Seq<char>>,
    dbus_session_bus: Option<Seq<char>>,
) -> bool {
    match (sudo_uid, runtime_dir, dbus_session_bus) {
        (Some(uid), Some(runtime), Some(address)) => {
            &&& runtime == "/run/user/"@ + uid
            &&& occurs(address, "/run/user/"@ + uid + "/bus"@)
        },
        _ => false,
    }
}

/// Whether the session of the user behind sudo is reachable.
pub fn preserved_user_session(
    sudo_uid: Option<&str>,
    xdg_runtime_dir: Option<&str>,
    dbus_session_bus: Option<&str>,
) -> (preserved: bool)
    ensures
        preserved == session_is_preserved(
            opt_text(sudo_uid),
            opt_text(xdg_runtime_dir),
            opt_text(dbus_session_bus),
        ),
{
    match (sudo_uid, xdg_runtime_dir, dbus_session_bus) {
        (Some(uid), Some(runtime), Some(address)) => {
            let directory = concat2("/run/user/", uid);
            let socket = concat3("/run/user/", uid, "/bus");
            same_text(runtime, directory.as_str()) && contains(address, socket.as_str())
        },
        _ => false,
    }
}

/// The start of the hint for sound under sudo.
pub const PIPEWIRE_HINT_HEAD: &'static str =
    "QD2 audio hint: `pw-play` is running under sudo without the `";

/// The end of the hint for sound under sudo.
pub const PIPEWIRE_HINT_TAIL: &'static str =
    "` desktop audio session environment. PipeWire playback usually needs the user session vars. Try rerunning with:\n  sudo --preserve-env=XDG_RUNTIME_DIR,DBUS_SESSION_BUS_ADDRESS,WAYLAND_DISPLAY,PULSE_SERVER,PULSE_COOKIE qd2 connect ...\n  or run QD2 as your regular user after granting access to the QEMU D-Bus socket.";

/// The hint for sound under sudo, where it is needed.
pub open spec fn pipewire_hint(
    sudo_user: Option<Seq<char>>,
    sudo_uid: Option<Seq<char>>,
    runtime_dir: Option<Seq<char>>,
    dbus_session_bus: Option<Seq<char>>,
) -> Option<Seq<char>> {
    match sudo_user {
        None => None,
        Some(user) => if session_is_preserved(sudo_uid, runtime_dir, dbus_session_bus) {
            None
        } else {
            Some(PIPEWIRE_HINT_HEAD@ + user + PIPEWIRE_HINT_TAIL@)
        },
    }
}

/// The hint for sound under sudo, where it is needed.
pub fn pipewire_sudo_environment_hint_from(
    sudo_user: Option<&str>,
    sudo_uid: Option<&str>,
    xdg_runtime_dir: Option<&str>,
    dbus_session_bus: Option<&str>,
) -> (hint: Option<String>)
    ensures
        opt_string(hint) == pipewire_hint(
            opt_text(sudo_user),
            opt_text(sudo_uid),
            opt_text(xdg_runtime_dir),
            opt_text(dbus_session_bus),
        ),
{
    match sudo_user {
        None => None,
        Some(user) => {
            if preserved_user_session(sudo_uid, xdg_runtime_dir, dbus_session_bus) {
                None
            } else {
                Some(concat3(PIPEWIRE_HINT_HEAD, user, PIPEWIRE_HINT_TAIL))
            }
        },
    }
}

/// The hint for sound under sudo, where it is needed.
pub fn pipewire_sudo_environment_hint(environment: &SessionEnvironment) -> (hint: Option<String>)
    ensures
        opt_string(hint) == pipewire_hint(
            opt_string(environment.sudo_user),
            opt_string(environment.sudo_uid),
            opt_string(environment.runtime_dir),
            opt_string(environment.dbus_session_bus),
        ),
{
    pipewire_sudo_environment_hint_from(
        opt_as_str(&environment.sudo_user),
        opt_as_str(&environment.sudo_uid),
        opt_as_str(&environment.runtime_dir),
        opt_as_str(&environment.dbus_session_bus),
    )
}

/// A value, or a mark for one that is not set.
pub open spec fn shown(value: Option<Seq<char>>) -> Seq<char> {
    match value {
        Some(text) => text,
        None => "<unset>"@,
    }
}

fn display_option(value: &Option<String>) -> (text: &str)
    ensures
        text@ == shown(opt_string(*value)),
{
    match value {
        Some(text) => text.as_str(),
        None => "<unset>",
    }
}

/// A detail, with more of the session behind it where extra diagnostics are printed.
pub open spec fn with_session_detail(
    detail: Seq<char>,
    verbose: bool,
    environment: SessionEnvironment,
) -> Seq<char> {
    if verbose {
        detail + ("\nXDG_SESSION_TYPE="@ + shown(opt_string(environment.session_type))
            + "\nXDG_RUNTIME_DIR="@ + shown(opt_string(environment.runtime_dir)))
    } else {
        detail
    }
}

fn maybe_append_verbose_detail(
    detail: String,
    verbosity: &Verbosity,
    environment: &SessionEnvironment,
) -> (full: String)
    ensures
        full@ == with_session_detail(detail@, verbosity.spec_enabled(), *environment),
{
    let mut detail = detail;
    if verbose_enabled(verbosity) {
        let more = crate::text::concat4(
            "\nXDG_SESSION_TYPE=",
            display_option(&environment.session_type),
            "\nXDG_RUNTIME_DIR=",
            display_option(&environment.runtime_dir),
        );
        detail.append(more.as_str());
    }
    detail
}

/// The check of the graphics session.
pub open spec fn graphics_session(environment: SessionEnvironment, verbose: bool) -> CheckView {
    let (status, detail) = match (
        opt_string(environment.wayland_display),
        opt_string(environment.display),
    ) {
        (Some(wayland), _) => (
            DoctorStatus::Pass,
            "Wayland display `"@ + wayland + "` is set."@,
        ),
        (None, Some(display)) => (DoctorStatus::Pass, "X11 display `"@ + display + "` is set."@),
        (None, None) => (DoctorStatus::Fail, NO_DISPLAY@),
    };
    CheckView {
        name: "Graphics session"@,
        status,
        detail: with_session_detail(detail, verbose, environment),
    }
}

/// The detail for a session without a display.
pub const NO_DISPLAY: &'static str =
    "Neither `WAYLAND_DISPLAY` nor `DISPLAY` is set, so `qd2 connect` is unlikely to open a GTK window.";

/// The check of the graphics session.
pub fn graphics_session_check(environment: &SessionEnvironment, verbosity: &Verbosity) -> (check:
    DoctorCheck)
    ensures
        check@ == graphics_session(*environment, verbosity.spec_enabled()),
{
    let (status, detail) = match (&environment.wayland_display, &environment.display) {
        (Some(wayland), _) => (
            DoctorStatus::Pass,
            concat3("Wayland display `", wayland.as_str(), "` is set."),
        ),
        (None, Some(display)) => (
            DoctorStatus::Pass,
            concat3("X11 display `", display.as_str(), "` is set."),
        ),
        (None, None) => (DoctorStatus::Fail, NO_DISPLAY.to_owned()),
    };
    DoctorCheck {
        name: "Graphics session",
        status,
        detail: maybe_append_verbose_detail(detail, verbosity, environment),
    }
}

/// The end of the warning for a session that is not reachable.
pub const SUDO_WARNING_TAIL: &'static str =
    "` desktop session environment. Wayland, PipeWire, and clipboard integration may fail.\nTry:\n  sudo --preserve-env=XDG_RUNTIME_DIR,DBUS_SESSION_BUS_ADDRESS,WAYLAND_DISPLAY,PULSE_SERVER,PULSE_COOKIE qd2 connect ...";

/// The check of whose desktop session this is.
pub open spec fn session_ownership(environment: SessionEnvironment) -> CheckView {
    let (status, detail) = match opt_string(environment.sudo_user) {
        None => (DoctorStatus::Pass, "QD2 is running as the current desktop user."@),
        Some(user) => if session_is_preserved(
            opt_string(environment.sudo_uid),
            opt_string(environment.runtime_dir),
            opt_string(environment.dbus_session_bus),
        ) {
            (
                DoctorStatus::Pass,
                "Running under sudo, but the `"@ + user
                    + "` desktop session environment appears to be preserved."@,
            )
        } else {
            (
                DoctorStatus::Warn,
                "QD2 is running under sudo without the `"@ + user + SUDO_WARNING_TAIL@,
            )
        },
    };
    CheckView { name: "Desktop session ownership"@, status, detail }
}

/// The check of whose desktop session this is.
pub fn sudo_desktop_session_check(environment: &SessionEnvironment) -> (check: DoctorCheck)
    ensures
        check@ == session_ownership(*environment),
{
    let (status, detail) = match &environment.sudo_user {
        None => (
            DoctorStatus::Pass,
            "QD2 is running as the current desktop user.".to_owned(),
        ),
        Some(user) => {
            if preserved_user_session(
                opt_as_str(&environment.sudo_uid),
                opt_as_str(&environment.runtime_dir),
                opt_as_str(&environment.dbus_session_bus),
            ) {
                (
                    DoctorStatus::Pass,
                    concat3(
                        "Running under sudo, but the `",
                        user.as_str(),
                        "` desktop session environment appears to be preserved.",
                    ),
                )
            } else {
                (
                    DoctorStatus::Warn,
                    concat3(
                        "QD2 is running under sudo without the `",
                        user.as_str(),
                        SUDO_WARNING_TAIL,
                    ),
                )
            }
        },
    };
    DoctorCheck { name: "Desktop session ownership", status, detail }
}

/// The detail for a host without a player.
pub const NO_PLAYER: &'static str =
    "Neither `pw-play` nor `aplay` was found on PATH, so guest audio playback cannot start.";

/// The check of the players.
pub open spec fn audio_backends(tools: AudioTools) -> CheckView {
    let (status, detail) = match (opt_string(tools.pw_play), opt_string(tools.aplay)) {
        (Some(pw_play), Some(aplay)) => (
            DoctorStatus::Pass,
            "Found `pw-play` at `"@ + pw_play + "` and `aplay` at `"@ + aplay + "`."@,
        ),
        (Some(pw_play), None) => (DoctorStatus::Pass, "Found `pw-play` at `"@ + pw_play + "`."@),
        (None, Some(aplay)) => (
            DoctorStatus::Warn,
            "`pw-play` was not found on PATH, so QD2 will fall back to `aplay` at `"@ + aplay
                + "`."@,
        ),
        (None, None) => (DoctorStatus::Fail, NO_PLAYER@),
    };
    CheckView { name: "Host audio backends"@, status, detail }
}

/// The check of the players.
pub fn audio_backend_check(tools: &AudioTools) -> (check: DoctorCheck)
    ensures
        check@ == audio_backends(*tools),
{
    let (status, detail) = match (&tools.pw_play, &tools.aplay) {
        (Some(pw_play), Some(aplay)) => (
            DoctorStatus::Pass,
            concat5(
                "Found `pw-play` at `",
                pw_play.as_str(),
                "` and `aplay` at `",
                aplay.as_str(),
                "`.",
            ),
        ),
        (Some(pw_play), None) => (
            DoctorStatus::Pass,
            concat3("Found `pw-play` at `", pw_play.as_str(), "`."),
        ),
        (None, Some(aplay)) => (
            DoctorStatus::Warn,
            concat3(
                "`pw-play` was not found on PATH, so QD2 will fall back to `aplay` at `",
                aplay.as_str(),
                "`.",
            ),
        ),
        (None, None) => (DoctorStatus::Fail, NO_PLAYER.to_owned()),
    };
    DoctorCheck { name: "Host audio backends", status, detail }
}

/// The warnings of a search, one line each.
pub open spec fn warning_lines(warnings: Seq<Seq<char>>) -> Seq<char>
    decreases warnings.len(),
{
    if warnings.len() == 0 {
        Seq::empty()
    } else {
        warning_lines(warnings.drop_last()) + ("\n  - "@ + warnings.last())
    }
}

/// The check of the search for machines.
pub open spec fn discovery_result(discovery: DiscoveryView) -> CheckView {
    let found = if discovery.vms.len() == 0 {
        "No QEMU D-Bus VMs were found on "@ + discovery.bus_label + "."@
    } else {
        "Found "@ + decimal(discovery.vms.len()) + " VM(s) on "@ + discovery.bus_label + "."@
    };
    CheckView {
        name: "QEMU D-Bus discovery"@,
        status: if discovery.vms.len() == 0 || discovery.warnings.len() > 0 {
            DoctorStatus::Warn
        } else {
            DoctorStatus::Pass
        },
        detail: if discovery.warnings.len() == 0 {
            found
        } else {
            found + "\nDiscovery warnings:"@ + warning_lines(discovery.warnings)
        },
    }
}

/// The check of the search for machines.
pub fn discovery_check(discovery: &Discovery) -> (check: DoctorCheck)
    ensures
        check@ == discovery_result(discovery@),
{
    let status = if discovery.vms.len() == 0 || discovery.warnings.len() > 0 {
        DoctorStatus::Warn
    } else {
        DoctorStatus::Pass
    };
    let mut detail = if discovery.vms.len() == 0 {
        concat3("No QEMU D-Bus VMs were found on ", discovery.bus_label.as_str(), ".")
    } else {
        let count = to_decimal(discovery.vms.len() as u64);
        concat5("Found ", count.as_str(), " VM(s) on ", discovery.bus_label.as_str(), ".")
    };
    let ghost found = detail@;
    if discovery.warnings.len() > 0 {
        detail.append("\nDiscovery warnings:");
        let ghost head = detail@;
        let ghost warnings = texts(discovery.warnings@);
        assert(warnings.take(0) =~= Seq::<Seq<char>>::empty());
        assert(head + Seq::<char>::empty() =~= head);
        for i in 0..discovery.warnings.len()
            invariant
                warnings == texts(discovery.warnings@),
                detail@ == head + warning_lines(warnings.take(i as int)),
        {
            let line = concat2("\n  - ", discovery.warnings[i].as_str());
            proof {
                assert(warnings.take(i + 1).drop_last() =~= warnings.take(i as int));
                assert(warnings.take(i + 1).last() == discovery.warnings@[i as int]@);
                assert(head + warning_lines(warnings.take(i as int)) + line@ =~= head + (
                warning_lines(warnings.take(i as int)) + line@));
            }
            detail.append(line.as_str());
        }
        assert(warnings.take(warnings.len() as int) =~= warnings);
    }
    DoctorCheck { name: "QEMU D-Bus discovery", status, detail }
}

/// The check of a machine's consoles.
pub open spec fn consoles_result(count: nat, vm_name: Seq<char>) -> CheckView {
    CheckView {
        name: "Display consoles"@,
        status: if count == 0 {
            DoctorStatus::Fail
        } else {
            DoctorStatus::Pass
        },
        detail: if count == 0 {
            "The VM `"@ + vm_name + "` does not report any display consoles."@
        } else {
            "The VM `"@ + vm_name + "` reports "@ + decimal(count) + " console(s)."@
        },
    }
}

/// The check of a machine's consoles.
pub fn console_check(console_count: usize, vm_name: &str) -> (check: DoctorCheck)
    ensures
        check@ == consoles_result(console_count as nat, vm_name@),
{
    if console_count == 0 {
        DoctorCheck {
            name: "Display consoles",
            status: DoctorStatus::Fail,
            detail: concat3("The VM `", vm_name, "` does not report any display consoles."),
        }
    } else {
        let count = to_decimal(console_count as u64);
        DoctorCheck {
            name: "Display consoles",
            status: DoctorStatus::Pass,
            detail: concat5("The VM `", vm_name, "` reports ", count.as_str(), " console(s)."),
        }
    }
}

/// The check of a machine's audio object.
pub open spec fn audio_object(has_audio: bool) -> CheckView {
    CheckView {
        name: "QEMU audio object"@,
        status: if has_audio {
            DoctorStatus::Pass
        } else {
            DoctorStatus::Warn
        },
        detail: if has_audio {
            "QEMU exposes the D-Bus audio object."@
        } else {
            MISSING_AUDIO@
        },
    }
}

/// The check of a machine's audio object.
pub fn audio_object_check(has_audio: bool) -> (check: DoctorCheck)
    ensures
        check@ == audio_object(has_audio),
{
    if has_audio {
        DoctorCheck {
            name: "QEMU audio object",
            status: DoctorStatus::Pass,
            detail: "QEMU exposes the D-Bus audio object.".to_owned(),
        }
    } else {
        DoctorCheck {
            name: "QEMU audio object",
            status: DoctorStatus::Warn,
            detail: MISSING_AUDIO.to_owned(),
        }
    }
}

/// The check of a machine's clipboard object.
pub open spec fn clipboard_object(has_clipboard: bool) -> CheckView {
    CheckView {
        name: "QEMU clipboard object"@,
        status: if has_clipboard {
            DoctorStatus::Pass
        } else {
            DoctorStatus::Warn
        },
        detail: if has_clipboard {
            "QEMU exposes the D-Bus clipboard object."@
        } else {
            MISSING_CLIPBOARD@
        },
    }
}

/// The check of a machine's clipboard object.
pub fn clipboard_object_check(has_clipboard: bool) -> (check: DoctorCheck)
    ensures
        check@ == clipboard_object(has_clipboard),
{
    if has_clipboard {
        DoctorCheck {
            name: "QEMU clipboard object",
            status: DoctorStatus::Pass,
            detail: "QEMU exposes the D-Bus clipboard object.".to_owned(),
        }
    } else {
        DoctorCheck {
            name: "QEMU clipboard object",
            status: DoctorStatus::Warn,
            detail: MISSING_CLIPBOARD.to_owned(),
        }
    }
}

/// The check of the guest's clipboard agent.
pub open spec fn clipboard_agent(status: ClipboardAgentStatus) -> CheckView {
    let (mark, detail) = match status {
        ClipboardAgentStatus::Unknown => (DoctorStatus::Pass, UNVERIFIABLE_AGENT@),
        ClipboardAgentStatus::Connected => (
            DoctorStatus::Pass,
            "Detected a connected clipboard/vdagent channel."@,
        ),
        ClipboardAgentStatus::GuestDisconnected => (DoctorStatus::Warn, DISCONNECTED_AGENT@),
    };
    CheckView { name: "Clipboard guest agent"@, status: mark, detail }
}

/// The check of the guest's clipboard agent.
pub fn clipboard_agent_check(status: ClipboardAgentStatus) -> (check: DoctorCheck)
    ensures
        check@ == clipboard_agent(status),
{
    let (mark, detail) = match status {
        ClipboardAgentStatus::Unknown => (DoctorStatus::Pass, UNVERIFIABLE_AGENT),
        ClipboardAgentStatus::Connected => (
            DoctorStatus::Pass,
            "Detected a connected clipboard/vdagent channel.",
        ),
        ClipboardAgentStatus::GuestDisconnected => (DoctorStatus::Warn, DISCONNECTED_AGENT),
    };
    DoctorCheck { name: "Clipboard guest agent", status: mark, detail: detail.to_owned() }
}

/// A machine is inspected: one was named, or exactly one was found.
pub open spec fn inspects(found: Option<nat>, selector: Option<Seq<char>>) -> bool {
    match found {
        None => false,
        Some(count) => count > 0 && (selector is Some || count == 1),
    }
}

/// Whether a machine has to be inspected, given what the search found.
pub fn doctor_inspects(discovery: &Result<Discovery, Failure>, selector: Option<&str>) -> (inspects_vm:
    bool)
    ensures
        inspects_vm == inspects(found_count(*discovery), opt_text(selector)),
{
    match discovery {
        Err(_) => false,
        Ok(found) => found.vms.len() > 0 && (selector.is_some() || found.vms.len() == 1),
    }
}

/// How many machines a search found, if it did not fail.
pub open spec fn found_count(discovery: Result<Discovery, Failure>) -> Option<nat> {
    match discovery {
        Ok(found) => Some(found.vms.len() as nat),
        Err(_) => None,
    }
}

/// The check of the search, whichever way it went.
pub open spec fn search_check(discovery: Result<Discovery, Failure>) -> CheckView {
    match discovery {
        Ok(found) => discovery_result(found@),
        Err(failure) => CheckView {
            name: "QEMU D-Bus discovery"@,
            status: DoctorStatus::Fail,
            detail: "Could not inspect the configured D-Bus scope.\n"@ + joined(failure@, ": "@),
        },
    }
}

/// The checks of an inspected machine.
pub open spec fn machine_checks(report: InspectionView) -> Seq<CheckView> {
    let always = seq![
        consoles_result(report.consoles.len(), report.vm.name),
        audio_object(report.has_audio),
        clipboard_object(report.has_clipboard),
    ];
    if report.has_clipboard {
        always.push(clipboard_agent(agent_status(report.chardevs)))
    } else {
        always
    }
}

/// The checks of the machine, whichever way the search and the inspection went.
pub open spec fn vm_checks(
    discovery: Result<Discovery, Failure>,
    selector: Option<Seq<char>>,
    inspection: Option<Result<InspectionReport, Failure>>,
) -> Seq<CheckView> {
    match discovery {
        Err(_) => Seq::empty(),
        Ok(found) => if found.vms.len() == 0 {
            seq![
                (CheckView {
                    name: "VM-specific checks"@,
                    status: DoctorStatus::Warn,
                    detail: NO_VM_VISIBLE@,
                }),
            ]
        } else if selector is None && found.vms.len() > 1 {
            seq![
                (CheckView {
                    name: "VM selection"@,
                    status: DoctorStatus::Warn,
                    detail: "Multiple VMs are visible on "@ + found.bus_label@
                        + SELECTION_HINT@,
                }),
            ]
        } else {
            match inspection {
                Some(Ok(report)) => machine_checks(report@),
                Some(Err(failure)) => seq![
                    (CheckView {
                        name: "VM inspection"@,
                        status: DoctorStatus::Fail,
                        detail: "Could not inspect the selected VM.\n"@ + joined(
                            failure@,
                            ": "@,
                        ),
                    }),
                ],
                None => Seq::empty(),
            }
        },
    }
}

/// The detail where there is no machine to check.
pub const NO_VM_VISIBLE: &'static str =
    "No QEMU D-Bus VM is currently visible, so guest-side checks were skipped.";

/// The end of the detail where there is more than one machine to check.
pub const SELECTION_HINT: &'static str =
    ". Re-run `qd2 doctor --vm <NAME|UUID|OWNER>` for VM-specific checks.";

fn push_check(checks: &mut Vec<DoctorCheck>, check: DoctorCheck)
    ensures
        check_views(final(checks)@) == check_views(old(checks)@).push(check@),
{
    let ghost before = check_views(checks@);
    let ghost view = check@;
    checks.push(check);
    assert(check_views(checks@) =~= before.push(view));
}

/// All checks. `inspection` is what the inspection of the machine gave, where one is inspected.
pub fn doctor(
    environment: &SessionEnvironment,
    tools: &AudioTools,
    verbosity: &Verbosity,
    discovery: &Result<Discovery, Failure>,
    selector: Option<&str>,
    inspection: Option<Result<InspectionReport, Failure>>,
) -> (report: DoctorReport)
    requires
        inspects(found_count(*discovery), opt_text(selector)) == (inspection is Some),
    ensures
        check_views(report.host_checks@) == seq![
            graphics_session(*environment, verbosity.spec_enabled()),
            session_ownership(*environment),
            audio_backends(*tools),
            search_check(*discovery),
        ],
        check_views(report.vm_checks@) == vm_checks(
            *discovery,
            opt_text(selector),
            inspection,
        ),
        match (report.inspected_vm, inspection) {
            (Some(inspected), Some(Ok(expected))) => inspected == expected,
            (None, Some(Ok(_))) => false,
            (inspected, _) => inspected is None,
        },
{
    let mut host_checks: Vec<DoctorCheck> = Vec::new();
    push_check(&mut host_checks, graphics_session_check(environment, verbosity));
    push_check(&mut host_checks, sudo_desktop_session_check(environment));
    push_check(&mut host_checks, audio_backend_check(tools));
    let search = match discovery {
        Ok(found) => discovery_check(found),
        Err(failure) => {
            let reason = failure.in_full();
            DoctorCheck {
                name: "QEMU D-Bus discovery",
                status: DoctorStatus::Fail,
                detail: concat2(
                    "Could not inspect the configured D-Bus scope.\n",
                    reason.as_str(),
                ),
            }
        },
    };
    push_check(&mut host_checks, search);
    assert(check_views(host_checks@) =~= seq![
        graphics_session(*environment, verbosity.spec_enabled()),
        session_ownership(*environment),
        audio_backends(*tools),
        search_check(*discovery),
    ]);
    let mut checks: Vec<DoctorCheck> = Vec::new();
    let mut inspected_vm: Option<InspectionReport> = None;
    match discovery {
        Err(_) => {},
        Ok(found) => {
            if found.vms.len() == 0 {
                push_check(
                    &mut checks,
                    DoctorCheck {
                        name: "VM-specific checks",
                        status: DoctorStatus::Warn,
                        detail: NO_VM_VISIBLE.to_owned(),
                    },
                );
            } else if selector.is_none() && found.vms.len() > 1 {
                push_check(
                    &mut checks,
                    DoctorCheck {
                        name: "VM selection",
                        status: DoctorStatus::Warn,
                        detail: concat3(
                            "Multiple VMs are visible on ",
                            found.bus_label.as_str(),
                            SELECTION_HINT,
                        ),
                    },
                );
            } else {
                match inspection {
                    Some(Ok(report)) => {
                        push_check(
                            &mut checks,
                            console_check(report.consoles.len(), report.vm.name.as_str()),
                        );
                        push_check(&mut checks, audio_object_check(report.has_audio));
                        push_check(&mut checks, clipboard_object_check(report.has_clipboard));
                        if report.has_clipboard {
                            let status = clipboard_agent_status(&report.chardevs);
                            push_check(&mut checks, clipboard_agent_check(status));
                        }
                        assert(check_views(checks@) =~= machine_checks(report@));
                        inspected_vm = Some(report);
                    },
                    Some(Err(failure)) => {
                        let reason = failure.in_full();
                        push_check(
                            &mut checks,
                            DoctorCheck {
                                name: "VM inspection",
                                status: DoctorStatus::Fail,
                                detail: concat2(
                                    "Could not inspect the selected VM.\n",
                                    reason.as_str(),
                                ),
                            },
                        );
                    },
                    None => {},
                }
            }
        },
    }
    assert(check_views(checks@) =~= vm_checks(*discovery, opt_text(selector), inspection));
    DoctorReport { host_checks, vm_checks: checks, inspected_vm }
}

/// The session of a user is reachable exactly where the runtime directory is that user's, and the
/// bus lies in it. The hint for sound is given exactly where somebody is behind sudo whose session
/// is not reachable, and it names that user.
pub proof fn hints_are_for_lost_sessions(
    sudo_user: Option<&str>,
    sudo_uid: Option<&str>,
    runtime_dir: Option<&str>,
    dbus_session_bus: Option<&str>,
    preserved: bool,
    hint: Option<String>,
)
    requires
        call_ensures(preserved_user_session, (sudo_uid, runtime_dir, dbus_session_bus), preserved),
        call_ensures(
            pipewire_sudo_environment_hint_from,
            (sudo_user, sudo_uid, runtime_dir, dbus_session_bus),
            hint,
        ),
    ensures
        preserved <==> {
            &&& sudo_uid is Some && runtime_dir is Some && dbus_session_bus is Some
            &&& runtime_dir->0@ == "/run/user/"@ + sudo_uid->0@
            &&& occurs(dbus_session_bus->0@, runtime_dir->0@ + "/bus"@)
        },
        hint is Some <==> sudo_user is Some && !preserved,
        hint matches Some(text) ==> occurs(text@, sudo_user->0@),
{
    if hint is Some {
        let text = hint->0@;
        let user = sudo_user->0@;
        let at = PIPEWIRE_HINT_HEAD@.len() as int;
        assert(text.subrange(at, at + user.len()) =~= user);
        assert(crate::text::scan::occurs_at(text, user, at));
    }
}

/// The host is judged by what it has: a display of either kind, a session that can be reached, and a
/// player. A second-best player gives a warning, and so does a session out of reach; no display and
/// no player are failures.
pub proof fn hosts_are_judged_by_what_they_have(
    environment: SessionEnvironment,
    verbosity: Verbosity,
    tools: AudioTools,
    graphics: DoctorCheck,
    ownership: DoctorCheck,
    audio: DoctorCheck,
)
    requires
        call_ensures(graphics_session_check, (&environment, &verbosity), graphics),
        call_ensures(sudo_desktop_session_check, (&environment,), ownership),
        call_ensures(audio_backend_check, (&tools,), audio),
    ensures
        graphics.status is Fail <==> environment.wayland_display is None && environment.display
            is None,
        graphics.status is Pass <==> environment.wayland_display is Some || environment.display
            is Some,
        environment.wayland_display matches Some(name) ==> occurs(graphics.detail@, name@),
        environment.wayland_display is None ==> (environment.display matches Some(name) ==> occurs(
            graphics.detail@,
            name@,
        )),
        ownership.status is Warn <==> environment.sudo_user is Some && !session_is_preserved(
            opt_string(environment.sudo_uid),
            opt_string(environment.runtime_dir),
            opt_string(environment.dbus_session_bus),
        ),
        !(ownership.status is Fail),
        environment.sudo_user matches Some(user) ==> occurs(ownership.detail@, user@),
        audio.status is Pass <==> tools.pw_play is Some,
        audio.status is Warn <==> tools.pw_play is None && tools.aplay is Some,
        audio.status is Fail <==> tools.pw_play is None && tools.aplay is None,
        tools.pw_play matches Some(path) ==> occurs(audio.detail@, path@),
        tools.aplay matches Some(path) ==> occurs(audio.detail@, path@),
{
    if environment.wayland_display is Some {
        stands_behind(graphics.detail@, "Wayland display `"@, environment.wayland_display->0@);
    } else if environment.display is Some {
        stands_behind(graphics.detail@, "X11 display `"@, environment.display->0@);
    }
    if environment.sudo_user is Some {
        let user = environment.sudo_user->0@;
        if ownership.status is Pass {
            stands_behind(ownership.detail@, "Running under sudo, but the `"@, user);
        } else {
            stands_behind(ownership.detail@, "QD2 is running under sudo without the `"@, user);
        }
    }
    if tools.pw_play is Some {
        let path = tools.pw_play->0@;
        stands_behind(audio.detail@, "Found `pw-play` at `"@, path);
        if tools.aplay is Some {
            stands_behind(
                audio.detail@,
                "Found `pw-play` at `"@ + path + "` and `aplay` at `"@,
                tools.aplay->0@,
            );
        }
    } else if tools.aplay is Some {
        stands_behind(
            audio.detail@,
            "`pw-play` was not found on PATH, so QD2 will fall back to `aplay` at `"@,
            tools.aplay->0@,
        );
    }
}

proof fn stands_behind(text: Seq<char>, before: Seq<char>, part: Seq<char>)
    ensures
        text.len() >= before.len() + part.len() && text.take((before.len() + part.len()) as int)
            =~= before + part ==> occurs(text, part),
{
    let at = before.len() as int;
    if text.len() >= before.len() + part.len() && text.take((before.len() + part.len()) as int)
        =~= before + part {
        assert(text.subrange(at, at + part.len()) =~= part) by {
            assert forall|i: int| 0 <= i < part.len() implies text.subrange(
                at,
                at + part.len(),
            )[i] == part[i] by {
                assert(text.take((before.len() + part.len()) as int)[at + i] == text[at + i]);
                assert((before + part)[at + i] == part[i]);
            }
        }
        assert(crate::text::scan::occurs_at(text, part, at));
    }
}

/// A machine is judged by what it has: consoles, or it fails; sound, a clipboard and an agent that
/// is not known to be gone, or there is a warning.
pub proof fn machines_are_judged_by_what_they_have(
    console_count: usize,
    vm_name: &str,
    consoles: DoctorCheck,
    has_audio: bool,
    audio: DoctorCheck,
    has_clipboard: bool,
    clipboard: DoctorCheck,
    agent_status: ClipboardAgentStatus,
    agent: DoctorCheck,
)
    requires
        call_ensures(console_check, (console_count, vm_name), consoles),
        call_ensures(audio_object_check, (has_audio,), audio),
        call_ensures(clipboard_object_check, (has_clipboard,), clipboard),
        call_ensures(clipboard_agent_check, (agent_status,), agent),
    ensures
        consoles.status is Fail <==> console_count == 0,
        consoles.status is Pass <==> console_count > 0,
        occurs(consoles.detail@, vm_name@),
        console_count > 0 ==> occurs(consoles.detail@, decimal(console_count as nat)),
        audio.status is Pass <==> has_audio,
        audio.status is Warn <==> !has_audio,
        clipboard.status is Pass <==> has_clipboard,
        clipboard.status is Warn <==> !has_clipboard,
        agent.status is Warn <==> agent_status is GuestDisconnected,
        agent.status is Pass <==> !(agent_status is GuestDisconnected),
{
    stands_behind(consoles.detail@, "The VM `"@, vm_name@);
    stands_behind(
        consoles.detail@,
        "The VM `"@ + vm_name@ + "` reports "@,
        decimal(console_count as nat),
    );
}

/// A search passes exactly where it found a machine and warned of nothing, and fails exactly where it
/// could not be made.
pub proof fn searches_are_judged_by_what_they_found(discovery: Discovery, check: DoctorCheck)
    requires
        call_ensures(discovery_check, (&discovery,), check),
    ensures
        check.status is Pass <==> discovery.vms.len() > 0 && discovery.warnings.len() == 0,
        check.status is Warn <==> discovery.vms.len() == 0 || discovery.warnings.len() > 0,
{
    assert(discovery@.vms.len() == discovery.vms.len());
    assert(discovery@.warnings.len() == discovery.warnings.len());
}

/// A machine is inspected exactly where the search found one that it can be said to be about: any
/// where one was named, and else the only one.
pub proof fn one_machine_is_inspected(
    discovery: Result<Discovery, Failure>,
    selector: Option<&str>,
    inspects_vm: bool,
)
    requires
        call_ensures(doctor_inspects, (&discovery, selector), inspects_vm),
    ensures
        discovery is Err ==> !inspects_vm,
        discovery matches Ok(found) ==> {
            &&& found.vms.len() == 0 ==> !inspects_vm
            &&& found.vms.len() == 1 ==> inspects_vm
            &&& found.vms.len() > 1 ==> (inspects_vm <==> selector is Some)
        },
{
}

/// The report has the four checks of the host, in order, and those of the machine where one was
/// inspected: consoles, sound, clipboard and, with a clipboard, its agent. Where none was, it says
/// why in one check; after a search that failed there is none.
pub proof fn reports_have_every_check(
    environment: SessionEnvironment,
    tools: AudioTools,
    verbosity: Verbosity,
    discovery: Result<Discovery, Failure>,
    selector: Option<&str>,
    inspection: Option<Result<InspectionReport, Failure>>,
    report: DoctorReport,
    graphics: DoctorCheck,
    ownership: DoctorCheck,
    audio: DoctorCheck,
)
    requires
        inspects(found_count(discovery), opt_text(selector)) == (inspection is Some),
        call_ensures(
            doctor,
            (&environment, &tools, &verbosity, &discovery, selector, inspection),
            report,
        ),
        call_ensures(graphics_session_check, (&environment, &verbosity), graphics),
        call_ensures(sudo_desktop_session_check, (&environment,), ownership),
        call_ensures(audio_backend_check, (&tools,), audio),
    ensures
        report.host_checks.len() == 4,
        report.host_checks[0]@ == graphics@,
        report.host_checks[1]@ == ownership@,
        report.host_checks[2]@ == audio@,
        report.host_checks[3].status is Fail <==> discovery is Err,
        discovery is Err ==> report.vm_checks.len() == 0,
        discovery is Ok && inspection is None ==> report.vm_checks.len() == 1
            && report.vm_checks[0].status is Warn,
        inspection matches Some(Err(_)) ==> report.vm_checks.len() == 1
            && report.vm_checks[0].status is Fail && report.inspected_vm is None,
        inspection matches Some(Ok(inspected)) ==> {
            &&& report.inspected_vm == Some(inspected)
            &&& report.vm_checks.len() == if inspected.has_clipboard {
                4int
            } else {
                3int
            }
            &&& report.vm_checks[0].status is Fail <==> inspected.consoles.len() == 0
            &&& report.vm_checks[1].status is Warn <==> !inspected.has_audio
            &&& report.vm_checks[2].status is Warn <==> !inspected.has_clipboard
            &&& inspected.has_clipboard ==> (report.vm_checks[3].status is Warn <==> agent_status(
                inspected@.chardevs,
            ) is GuestDisconnected)
        },
{
    let host = check_views(report.host_checks@);
    let machine = check_views(report.vm_checks@);
    assert(host.len() == report.host_checks.len());
    assert(machine.len() == report.vm_checks.len());
    assert(host[0] == report.host_checks[0]@ && host[1] == report.host_checks[1]@ && host[2]
        == report.host_checks[2]@ && host[3] == report.host_checks[3]@);
    assert(forall|i: int| 0 <= i < machine.len() ==> machine[i] == #[trigger] report.vm_checks@[i]@);
    if machine.len() > 0 {
        assert(machine[0] == report.vm_checks@[0]@);
    }
    if let Some(Ok(inspected)) = inspection {
        assert(inspected@.consoles.len() == inspected.consoles.len());
        assert(machine[1] == report.vm_checks@[1]@);
        assert(machine[2] == report.vm_checks@[2]@);
        if inspected.has_clipboard {
            assert(machine[3] == report.vm_checks@[3]@);
        }
    }
}

/// Extra diagnostics are printed exactly while they are switched on, each with its message.
pub proof fn diagnostics_follow_the_switch(
    verbosity: &mut Verbosity,
    enabled: bool,
    now: Verbosity,
    message: &str,
    line: Option<String>,
)
    requires
        call_ensures(set_verbose, (verbosity, enabled), ()),
        call_ensures(verbose, (&now, message), line),
    ensures
        final(verbosity).spec_enabled() == enabled,
        line is Some <==> now.spec_enabled(),
        line matches Some(text) ==> text@.len() == message@.len() + 6 && text@.skip(6) == message@,
{
    reveal_strlit("[qd2] ");
    if line is Some {
        assert(line->0@.skip(6) =~= message@);
    }
}

proof fn warnings_stand_in_lines(warnings: Seq<Seq<char>>, at: int)
    requires
        0 <= at < warnings.len(),
    ensures
        occurs(warning_lines(warnings), warnings[at]),
    decreases warnings.len(),
{
    let fewer = warnings.drop_last();
    let before = warning_lines(fewer);
    let text = warning_lines(warnings);
    let last = warnings.last();
    assert(text == before + ("\n  - "@ + last));
    if at == warnings.len() - 1 {
        stands_behind(text, before + "\n  - "@, last);
        assert(text.take(((before + "\n  - "@).len() + last.len()) as int) =~= before + "\n  - "@
            + last);
    } else {
        warnings_stand_in_lines(fewer, at);
        let needle = warnings[at];
        let place = choose|place: int| crate::text::scan::occurs_at(before, needle, place);
        assert(text.subrange(place, place + needle.len()) =~= before.subrange(
            place,
            place + needle.len(),
        ));
        assert(crate::text::scan::occurs_at(text, needle, place));
    }
}

/// The check of a search shows every warning of it, one after the other, and how many machines it
/// found.
pub proof fn searches_show_their_warnings(discovery: Discovery, check: DoctorCheck, at: int)
    requires
        call_ensures(discovery_check, (&discovery,), check),
    ensures
        0 <= at < discovery.warnings.len() ==> occurs(check.detail@, discovery.warnings@[at]@),
        discovery.vms.len() > 0 ==> occurs(check.detail@, decimal(discovery.vms@.len())),
{
    let view = discovery@;
    let detail = check.detail@;
    assert(view.vms.len() == discovery.vms.len());
    assert(view.warnings.len() == discovery.warnings.len());
    if discovery.vms.len() > 0 {
        let count = decimal(discovery.vms@.len());
        stands_behind(detail, "Found "@, count);
        assert(detail.take(("Found "@.len() + count.len()) as int) =~= "Found "@ + count);
    }
    if 0 <= at < discovery.warnings.len() {
        let warning = view.warnings[at];
        assert(warning == discovery.warnings@[at]@);
        warnings_stand_in_lines(view.warnings, at);
        let lines = warning_lines(view.warnings);
        let found = if view.vms.len() == 0 {
            "No QEMU D-Bus VMs were found on "@ + view.bus_label + "."@
        } else {
            "Found "@ + decimal(view.vms.len()) + " VM(s) on "@ + view.bus_label + "."@
        };
        let before = found + "\nDiscovery warnings:"@;
        assert(detail == before + lines);
        let place = choose|place: int| crate::text::scan::occurs_at(lines, warning, place);
        let there = before.len() + place;
        assert(detail.subrange(there, there + warning.len()) =~= lines.subrange(
            place,
            place + warning.len(),
        ));
        assert(crate::text::scan::occurs_at(detail, warning, there));
    }
}

}
