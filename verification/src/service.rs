//! The Windows service: the watcher's rules, with mounts that WinFsp's
//! launcher starts in the session of the user.

use vstd::prelude::*;
use vstd::slice::slice_subrange;

use crate::automount::{drive_str, drive_text, letter_str, letter_text, part_name, part_str};
use crate::mount::{opening_for, Opening};
use crate::numeric::lemma_digits_read_back;
use crate::probe::{before_nul, len_before_nul};
use crate::text::{dec, dec_text, same_str, views};
use crate::utf16::{decode16, utf16_str, valid16};
use crate::watch::named_part;

verus! {

/// The name of the service.
pub fn service_name() -> (s: &'static str)
    ensures
        s@ == "ExtFsWatcher"@,
{
    "ExtFsWatcher"
}

/// The class under which the launcher knows the mounts.
pub fn launcher_service_class() -> (s: &'static str)
    ensures
        s@ == "ext4-mount"@,
{
    "ext4-mount"
}

/// What stands in front of the service's messages.
pub fn tag() -> (t: &'static str)
    ensures
        t@ == "[service]"@,
{
    "[service]"
}

/// What is said where the build has no service, or `None` where it has one.
pub fn run(available: bool) -> (hint: Option<&'static str>)
    ensures
        if available {
            hint is None
        } else {
            hint matches Some(h) && h@
                == "[service] this build was compiled without the `service` feature; rebuild with `--features service` on Windows to use the SCM dispatcher."@
        },
{
    if available {
        None
    } else {
        Some(
            "[service] this build was compiled without the `service` feature; rebuild with `--features service` on Windows to use the SCM dispatcher.",
        )
    }
}

// ---------------------------------------------------------------------------
// The life of the service
// ---------------------------------------------------------------------------

/// Where the service is in its life.
#[derive(Clone, Copy, Debug, PartialEq, Eq, Structural)]
pub enum Phase {
    Starting,
    Running,
    Stopped,
    /// Stopped by a failure.
    Failed,
}

/// The state that is reported.
#[derive(Clone, Copy, Debug, PartialEq, Eq, Structural)]
pub enum ReportedState {
    StartPending,
    Running,
    Stopped,
}

/// The exit code that is reported.
#[derive(Clone, Copy, Debug, PartialEq, Eq, Structural)]
pub enum ReportedExit {
    Win32(u32),
    ServiceSpecific(u32),
}

/// What is reported of the service.
#[derive(Clone, Copy, Debug, PartialEq, Eq, Structural)]
pub struct StatusReport {
    pub state: ReportedState,
    pub accepts_stop: bool,
    pub accepts_shutdown: bool,
    pub exit: ReportedExit,
    pub wait_hint_secs: u64,
}

/// What is reported in each phase. Only a running service can be stopped.
pub open spec fn report_of(phase: Phase) -> StatusReport {
    StatusReport {
        state: match phase {
            Phase::Starting => ReportedState::StartPending,
            Phase::Running => ReportedState::Running,
            _ => ReportedState::Stopped,
        },
        accepts_stop: phase == Phase::Running,
        accepts_shutdown: phase == Phase::Running,
        exit: if phase == Phase::Failed {
            ReportedExit::ServiceSpecific(1)
        } else {
            ReportedExit::Win32(0)
        },
        wait_hint_secs: if phase == Phase::Starting {
            10
        } else {
            0
        },
    }
}

/// What is reported in a phase.
pub fn status_report(phase: Phase) -> (report: StatusReport)
    ensures
        report == report_of(phase),
{
    let state = match phase {
        Phase::Starting => ReportedState::StartPending,
        Phase::Running => ReportedState::Running,
        _ => ReportedState::Stopped,
    };
    let exit = if phase == Phase::Failed {
        ReportedExit::ServiceSpecific(1)
    } else {
        ReportedExit::Win32(0)
    };
    let wait_hint_secs: u64 = if phase == Phase::Starting {
        10
    } else {
        0
    };
    StatusReport {
        state,
        accepts_stop: phase == Phase::Running,
        accepts_shutdown: phase == Phase::Running,
        exit,
        wait_hint_secs,
    }
}

/// What the service does, one action after the other.
#[derive(Clone, Copy, Debug, PartialEq, Eq, Structural)]
pub enum ServiceAction {
    /// It says who answers the service control manager.
    Register,
    /// It reports a phase.
    Report(Phase),
    /// It sets up the window that hears of disks.
    OpenPump,
    /// It handles messages until it is asked to end.
    Pump,
    /// It closes the window and ends all mounts.
    EndMounts,
    /// It is over.
    Finish,
}

/// What follows an action that succeeded. The service reports that it runs
/// only once it hears of disks, so that none is missed in between.
pub open spec fn action_after(done: ServiceAction) -> ServiceAction {
    match done {
        ServiceAction::Register => ServiceAction::Report(Phase::Starting),
        ServiceAction::Report(Phase::Starting) => ServiceAction::OpenPump,
        ServiceAction::OpenPump => ServiceAction::Report(Phase::Running),
        ServiceAction::Report(Phase::Running) => ServiceAction::Pump,
        ServiceAction::Pump => ServiceAction::EndMounts,
        ServiceAction::EndMounts => ServiceAction::Report(Phase::Stopped),
        _ => ServiceAction::Finish,
    }
}

/// What follows an action. One that fails ends the service, and the failure is
/// reported; a report of a failure is the last thing that is tried.
pub fn next_action(done: ServiceAction, succeeded: bool) -> (next: ServiceAction)
    ensures
        next == if succeeded {
            action_after(done)
        } else if done == ServiceAction::Report(Phase::Failed) {
            ServiceAction::Finish
        } else {
            ServiceAction::Report(Phase::Failed)
        },
{
    if !succeeded {
        return match done {
            ServiceAction::Report(Phase::Failed) => ServiceAction::Finish,
            _ => ServiceAction::Report(Phase::Failed),
        };
    }
    match done {
        ServiceAction::Register => ServiceAction::Report(Phase::Starting),
        ServiceAction::Report(Phase::Starting) => ServiceAction::OpenPump,
        ServiceAction::OpenPump => ServiceAction::Report(Phase::Running),
        ServiceAction::Report(Phase::Running) => ServiceAction::Pump,
        ServiceAction::Pump => ServiceAction::EndMounts,
        ServiceAction::EndMounts => ServiceAction::Report(Phase::Stopped),
        _ => ServiceAction::Finish,
    }
}

/// The service can be stopped while, and only while, it handles messages: the
/// report before the pump is the one that accepts a stop, and it comes behind
/// the setup of the window.
pub proof fn law_service_is_stoppable_while_it_runs(phase: Phase)
    ensures
        report_of(phase).accepts_stop <==> action_after(ServiceAction::Report(phase))
            == ServiceAction::Pump,
        report_of(phase).accepts_stop <==> action_after(ServiceAction::OpenPump)
            == ServiceAction::Report(phase),
{
}

/// What the service control manager asks.
#[derive(Clone, Copy, Debug, PartialEq, Eq, Structural)]
pub enum Control {
    Stop,
    Shutdown,
    Interrogate,
    Other,
}

/// What is done about it: whether the service ends, and whether the request is
/// one that it knows.
#[derive(Clone, Copy, Debug, PartialEq, Eq, Structural)]
pub struct ControlReply {
    pub quits: bool,
    pub known: bool,
}

/// What is done about a request of the service control manager.
pub fn on_control(control: Control) -> (reply: ControlReply)
    ensures
        reply.quits == (control == Control::Stop || control == Control::Shutdown),
        reply.known == (control != Control::Other),
{
    ControlReply {
        quits: control == Control::Stop || control == Control::Shutdown,
        known: control != Control::Other,
    }
}

/// The message about a failure that ends the service.
pub fn fatal(reason: &str) -> (m: String)
    ensures
        m@ == "[service] fatal: "@ + reason@,
{
    let mut m = "[service] fatal: ".to_owned();
    m.append(reason);
    m
}

// ---------------------------------------------------------------------------
// A disk that arrives
// ---------------------------------------------------------------------------

/// The number that stands for no session.
pub const NO_SESSION: u32 = 0xFFFF_FFFF;

/// The session of the user at the console, if any.
pub fn active_console_session(id: u32) -> (out: Option<u32>)
    ensures
        out == if id == NO_SESSION {
            None::<u32>
        } else {
            Some(id)
        },
{
    if id == NO_SESSION {
        None
    } else {
        Some(id)
    }
}

/// The message about a disk that is passed over because no user is there to
/// see it.
pub fn deferred(disk: &str) -> (m: String)
    ensures
        m@ == "[service] "@ + disk@ + ": no active console session, deferring mount"@,
{
    let mut m = "[service] ".to_owned();
    m.append(disk);
    m.append(": no active console session, deferring mount");
    m
}

/// The arguments that start a mount. The drive is named twice: the launcher
/// calls the mount by its letter, and hands the drive on to the command line
/// `mount %2 --drive %1 --part %3`.
pub open spec fn start_arguments(letter: char, disk: Seq<char>, n: usize) -> Seq<Seq<char>> {
    seq![
        "start"@,
        "ext4-mount"@,
        letter_text(letter),
        drive_text(letter),
        disk,
        dec(n as nat),
    ]
}

/// The arguments that start a mount.
pub fn start_args(letter: char, disk: &str, n: usize) -> (args: Vec<String>)
    ensures
        views(args@) == start_arguments(letter, disk@, n),
{
    let mut args: Vec<String> = Vec::new();
    args.push("start".to_owned());
    args.push(launcher_service_class().to_owned());
    args.push(letter_str(letter));
    args.push(drive_str(letter));
    args.push(disk.to_owned());
    args.push(dec_text(n as u64));
    proof {
        assert(views(args@) =~= start_arguments(letter, disk@, n));
    }
    args
}

/// The arguments that end a mount.
pub open spec fn stop_arguments(letter: char) -> Seq<Seq<char>> {
    seq!["stop"@, "ext4-mount"@, letter_text(letter)]
}

/// The arguments that end a mount.
pub fn stop_args(letter: char) -> (args: Vec<String>)
    ensures
        views(args@) == stop_arguments(letter),
{
    let mut args: Vec<String> = Vec::new();
    args.push("stop".to_owned());
    args.push(launcher_service_class().to_owned());
    args.push(letter_str(letter));
    proof {
        assert(views(args@) =~= stop_arguments(letter));
    }
    args
}

/// The command line that the launcher makes of the arguments behind the name
/// of the mount.
pub open spec fn launched(arguments: Seq<Seq<char>>) -> Seq<Seq<char>> {
    seq!["mount"@, arguments[4], "--drive"@, arguments[3], "--part"@, arguments[5]]
}

/// A mount is ended under the name that it was started under, its command line
/// names the drive, the disk and the partition, and partition zero there opens
/// the whole disk.
pub proof fn law_launched_mounts(letter: char, disk: Seq<char>, n: usize, writable: bool)
    ensures
        start_arguments(letter, disk, n)[1] == stop_arguments(letter)[1],
        start_arguments(letter, disk, n)[2] == stop_arguments(letter)[2],
        launched(start_arguments(letter, disk, n)) == seq![
            "mount"@,
            disk,
            "--drive"@,
            drive_text(letter),
            "--part"@,
            dec(n as nat),
        ],
        opening_for(named_part(launched(start_arguments(letter, disk, n))), writable) == if n == 0 {
            Opening::Direct { writable }
        } else {
            Opening::Partition { n, writable }
        },
{
    lemma_digits_read_back(n as nat, 10);
}

/// The message about a mount that is being started.
pub fn starting(disk: &str, n: usize, letter: char) -> (m: String)
    ensures
        m@ == "[service] ext4 detected on "@ + part_name(disk@, n)
            + " -> launchctl start ext4-mount "@ + letter_text(letter) + " "@ + disk@ + " "@ + dec(
            n as nat,
        ),
{
    let mut m = "[service] ext4 detected on ".to_owned();
    m.append(part_str(disk, n).as_str());
    m.append(" -> launchctl start ext4-mount ");
    m.append(letter_str(letter).as_str());
    m.append(" ");
    m.append(disk);
    m.append(" ");
    m.append(dec_text(n as u64).as_str());
    m
}

/// The message about a mount that was ended because its disk is gone.
pub fn removed(disk: &str, n: usize, letter: char) -> (m: String)
    ensures
        m@ == "[service] "@ + part_name(disk@, n) + " removed -> launchctl stop ext4-mount "@
            + letter_text(letter),
{
    let mut m = "[service] ".to_owned();
    m.append(part_str(disk, n).as_str());
    m.append(" removed -> launchctl stop ext4-mount ");
    m.append(letter_str(letter).as_str());
    m
}

/// The message about a mount that was ended because the service ends.
pub fn shut_down(disk: &str, n: usize, letter: char) -> (m: String)
    ensures
        m@ == "[service] "@ + part_name(disk@, n) + " -> launchctl stop ext4-mount "@ + letter_text(
            letter,
        ) + " (shutdown)"@,
{
    let mut m = "[service] ".to_owned();
    m.append(part_str(disk, n).as_str());
    m.append(" -> launchctl stop ext4-mount ");
    m.append(letter_str(letter).as_str());
    m.append(" (shutdown)");
    m
}

/// The message about a mount that could not be ended.
pub fn stop_failed(letter: char, reason: &str) -> (m: String)
    ensures
        m@ == "[service] launchctl stop "@ + letter_text(letter) + ": "@ + reason@,
{
    let mut m = "[service] launchctl stop ".to_owned();
    m.append(letter_str(letter).as_str());
    m.append(": ");
    m.append(reason);
    m
}

/// The message about a mount that could not be ended while the service ends.
pub fn stop_failed_at_end(disk: &str, n: usize, letter: char, reason: &str) -> (m: String)
    ensures
        m@ == "[service] launchctl stop "@ + letter_text(letter) + ": "@ + reason@ + " ("@
            + part_name(disk@, n) + ")"@,
{
    let mut m = stop_failed(letter, reason);
    m.append(" (");
    m.append(part_str(disk, n).as_str());
    m.append(")");
    m
}

// ---------------------------------------------------------------------------
// Finding the launcher
// ---------------------------------------------------------------------------

/// The name of the launcher's program for a processor architecture.
pub open spec fn launchctl_name(arch: Seq<char>) -> Seq<char> {
    if arch == "aarch64"@ {
        "launchctl-a64.exe"@
    } else if arch == "x86"@ {
        "launchctl-x86.exe"@
    } else {
        "launchctl-x64.exe"@
    }
}

/// The name of the launcher's program for a processor architecture. What is
/// not ARM and not 32-bit x86 gets the one for 64-bit x86.
pub fn launchctl_exe_name(arch: &str) -> (name: &'static str)
    ensures
        name@ == launchctl_name(arch@),
{
    if same_str(arch, "aarch64") {
        "launchctl-a64.exe"
    } else if same_str(arch, "x86") {
        "launchctl-x86.exe"
    } else {
        "launchctl-x64.exe"
    }
}

/// The type of a registry value that is text.
pub const REG_SZ: u32 = 1;

/// A failed call on the registry.
pub open spec fn registry_failure(call: Seq<char>, code: u32) -> Seq<char> {
    call + " failed: code "@ + dec(code as nat)
}

fn registry_failed(call: &str, code: u32) -> (e: String)
    ensures
        e@ == registry_failure(call@, code),
{
    let mut e = call.to_owned();
    e.append(" failed: code ");
    e.append(dec_text(code as u64).as_str());
    e
}

/// Settles the opening of WinFsp's registry key.
pub fn key_opened(code: u32) -> (out: Result<(), String>)
    ensures
        if code != 0 {
            out matches Err(e) && e@ == registry_failure(
                "RegOpenKeyExW(HKLM\\SOFTWARE\\WinFsp)"@,
                code,
            )
        } else {
            out is Ok
        },
{
    if code != 0 {
        return Err(registry_failed("RegOpenKeyExW(HKLM\\SOFTWARE\\WinFsp)", code));
    }
    Ok(())
}

/// Settles the question for the type and the size of the install directory:
/// how many units the buffer for it has. One more than the value has, in case
/// the value does not end in a NUL.
pub fn install_dir_sized(code: u32, value_type: u32, size: u32) -> (out: Result<u32, String>)
    ensures
        if code != 0 {
            out matches Err(e) && e@ == registry_failure(
                "RegQueryValueExW(InstallDir) size query"@,
                code,
            )
        } else if value_type != REG_SZ {
            out matches Err(e) && e@ == "InstallDir is type "@ + dec(value_type as nat)
                + ", expected REG_SZ"@
        } else {
            out matches Ok(n) && n == size / 2 + 1
        },
{
    if code != 0 {
        return Err(registry_failed("RegQueryValueExW(InstallDir) size query", code));
    }
    if value_type != REG_SZ {
        let mut e = "InstallDir is type ".to_owned();
        e.append(dec_text(value_type as u64).as_str());
        e.append(", expected REG_SZ");
        return Err(e);
    }
    Ok(size / 2 + 1)
}

/// Settles the read of the install directory: the text before the first NUL.
pub fn winfsp_install_dir(code: u32, buf: &[u16]) -> (out: Result<String, String>)
    ensures
        if code != 0 {
            out matches Err(e) && e@ == registry_failure("RegQueryValueExW(InstallDir)"@, code)
        } else if valid16(before_nul(buf@)) {
            out matches Ok(s) && s@ == decode16(before_nul(buf@))
        } else {
            out matches Err(e) && e@ == "InstallDir not valid UTF-16"@
        },
{
    if code != 0 {
        return Err(registry_failed("RegQueryValueExW(InstallDir)", code));
    }
    let n: usize = len_before_nul(buf);
    let part = slice_subrange(buf, 0, n);
    proof {
        assert(part@ =~= buf@.take(n as int));
    }
    match utf16_str(part) {
        Some(s) => Ok(s),
        None => Err("InstallDir not valid UTF-16".to_owned()),
    }
}

/// Settles whether the launcher's program is where it should be.
pub fn launcher_found(present: bool, shown: &str) -> (out: Result<(), String>)
    ensures
        if present {
            out is Ok
        } else {
            out matches Err(e) && e@ == "launchctl not found at "@ + shown@
        },
{
    if present {
        return Ok(());
    }
    let mut e = "launchctl not found at ".to_owned();
    e.append(shown);
    Err(e)
}

/// Settles a run of the launcher's program, from whether it exited well and
/// the status that it exited with.
pub fn launcher_exited(shown: &str, verb: &str, success: bool, status: &str) -> (out: Result<
    (),
    String,
>)
    ensures
        if success {
            out is Ok
        } else {
            out matches Err(e) && e@ == shown@ + " "@ + verb@ + " exited with "@ + status@
        },
{
    if success {
        return Ok(());
    }
    let mut e = shown.to_owned();
    e.append(" ");
    e.append(verb);
    e.append(" exited with ");
    e.append(status);
    Err(e)
}

/// A service that is never disturbed registers, reports that it starts, opens its
/// window, reports that it runs, handles messages, ends all mounts, reports that
/// it stopped, and is over; after a failure it is over too.
pub proof fn law_service_runs_its_course()
    ensures
        action_after(ServiceAction::Register) == ServiceAction::Report(Phase::Starting),
        action_after(ServiceAction::Report(Phase::Starting)) == ServiceAction::OpenPump,
        action_after(ServiceAction::OpenPump) == ServiceAction::Report(Phase::Running),
        action_after(ServiceAction::Report(Phase::Running)) == ServiceAction::Pump,
        action_after(ServiceAction::Pump) == ServiceAction::EndMounts,
        action_after(ServiceAction::EndMounts) == ServiceAction::Report(Phase::Stopped),
        action_after(ServiceAction::Report(Phase::Stopped)) == ServiceAction::Finish,
        action_after(ServiceAction::Report(Phase::Failed)) == ServiceAction::Finish,
        action_after(ServiceAction::Finish) == ServiceAction::Finish,
{
}

/// What the service control manager is told of a phase: the state, with an exit
/// code of zero unless the service failed, and with ten seconds of patience only
/// while it starts. Nothing but a running service can be stopped.
pub proof fn law_phases_are_reported(phase: Phase)
    ensures
        report_of(phase).state == ReportedState::StartPending <==> phase == Phase::Starting,
        report_of(phase).state == ReportedState::Running <==> phase == Phase::Running,
        report_of(phase).state == ReportedState::Stopped <==> phase == Phase::Stopped || phase
            == Phase::Failed,
        report_of(phase).accepts_stop <==> phase == Phase::Running,
        report_of(phase).accepts_shutdown <==> phase == Phase::Running,
        phase == Phase::Failed ==> report_of(phase).exit == ReportedExit::ServiceSpecific(1),
        phase != Phase::Failed ==> report_of(phase).exit == ReportedExit::Win32(0),
        report_of(phase).wait_hint_secs == if phase == Phase::Starting {
            10u64
        } else {
            0
        },
{
}

/// A mount is started under its letter, with the drive, the disk and the number
/// of the partition, and stopped under the same letter; so what is stopped is
/// what was started.
pub proof fn law_stopped_is_what_was_started(letter: char, disk: Seq<char>, n: usize)
    ensures
        ({
            let start = start_arguments(letter, disk, n);
            let stop = stop_arguments(letter);
            &&& start.len() == 6
            &&& start[0] == "start"@
            &&& start[1] == "ext4-mount"@
            &&& start[2] == seq![letter]
            &&& start[3] == seq![letter, ':']
            &&& start[4] == disk
            &&& start[5] == dec(n as nat)
            &&& stop.len() == 3
            &&& stop[0] == "stop"@
            &&& stop.skip(1) == start.subrange(1, 3)
        }),
{
    reveal_strlit(":");
    assert(drive_text(letter) =~= seq![letter, ':']);
    let start = start_arguments(letter, disk, n);
    let stop = stop_arguments(letter);
    assert(stop.skip(1) =~= start.subrange(1, 3));
}

/// Each architecture has its own launcher; the most common one is taken for any
/// that is not known.
pub proof fn law_launchers_go_by_architecture(arch: Seq<char>, code: u32, call: Seq<char>)
    ensures
        launchctl_name("aarch64"@) == "launchctl-a64.exe"@,
        launchctl_name("x86"@) == "launchctl-x86.exe"@,
        arch != "aarch64"@ && arch != "x86"@ ==> launchctl_name(arch) == "launchctl-x64.exe"@,
        registry_failure(call, code) == call + " failed: code "@ + dec(code as nat),
{
    reveal_strlit("aarch64");
    reveal_strlit("x86");
    assert("aarch64"@.len() != "x86"@.len());
}

/// The numbers in which Windows speaks of sessions and of its registry.
pub proof fn law_numbers_of_the_system()
    ensures
        NO_SESSION == u32::MAX,
        REG_SZ == 1,
{
}

}
