use ext4_win_driver::automount::{
    arrival_plan, class_usable, device_message, no_letter, on_class, on_subscription, on_window,
    probe_failed, pump_step, starts_fit, ArrivalPlan, DeviceMessage, MountTable, ProbeTarget,
    PumpStep, SetupStep,
};
use ext4_win_driver::mount::Partition;
use ext4_win_driver::service;
use ext4_win_driver::service::{
    active_console_session, install_dir_sized, key_opened, launchctl_exe_name, launcher_exited,
    launcher_found, next_action, on_control, start_args, status_report, stop_args,
    winfsp_install_dir, Control, Phase, ReportedExit, ReportedState, ServiceAction,
};
use ext4_win_driver::watch;
use ext4_win_driver::watch::{mount_args, passes_over};

fn part(start_lba: u64) -> Partition {
    Partition { start_lba, num_sectors: 1, kind: "k".to_string(), name: None }
}

#[test]
fn mounts_are_kept_once_per_partition() {
    let mut t: MountTable<char> = MountTable::new();
    assert_eq!(t.insert("d1", 1, 'E'), None);
    assert_eq!(t.insert("d1", 2, 'F'), None);
    assert_eq!(t.insert("d2", 1, 'G'), None);
    assert_eq!(t.insert("d1", 1, 'H'), Some('E'));
    let mut gone: Vec<(usize, char)> =
        t.remove_disk("d1").into_iter().map(|k| (k.part, k.value)).collect();
    gone.sort();
    assert_eq!(gone, vec![(1, 'H'), (2, 'F')]);
    assert!(t.remove_disk("d1").is_empty());
    assert!(!t.is_shutting_down());
    let rest: Vec<(String, usize, char)> =
        t.drain().into_iter().map(|k| (k.disk, k.part, k.value)).collect();
    assert_eq!(rest, vec![("d2".to_string(), 1, 'G')]);
    assert!(t.is_shutting_down());
    assert!(t.drain().is_empty());
    let mut u: MountTable<char> = MountTable::new();
    u.begin_shutdown();
    assert!(u.is_shutting_down());
}

#[test]
fn arrivals_are_planned() {
    let list = vec![part(2048), part(8)];
    assert!(starts_fit(&list));
    match arrival_plan("[watch]", "d", Ok(&list)) {
        ArrivalPlan::Probe(t) => assert_eq!(
            t,
            vec![ProbeTarget { n: 1, offset: 1048576 }, ProbeTarget { n: 2, offset: 4096 }]
        ),
        _ => panic!("partitions are probed"),
    }
    assert!(matches!(
        arrival_plan("[watch]", "d", Err("reading d: no MBR signature (0x0000)")),
        ArrivalPlan::WholeDisk
    ));
    match arrival_plan("[service]", "d", Err("access denied")) {
        ArrivalPlan::Report(m) => {
            assert_eq!(m, "[service] partition::list(d) failed: access denied")
        }
        _ => panic!("the failure is reported"),
    }
    assert!(matches!(arrival_plan("", "", Err("no MBR signatur")), ArrivalPlan::Report(_)));
    assert!(matches!(arrival_plan("", "", Err("")), ArrivalPlan::Report(_)));
    assert!(!starts_fit(&[part(u64::MAX)]));
    assert_eq!(probe_failed("[watch]", "d", 2, "x"), "[watch] probe d part 2: x");
    assert_eq!(
        no_letter("[service]", "d", 2),
        "[service] d#part2: ext4 detected but no free drive letter"
    );
}

#[test]
fn window_messages_are_sorted() {
    assert_eq!(device_message(537, 0x8000), DeviceMessage::Arrival);
    assert_eq!(device_message(537, 0x8004), DeviceMessage::Removal);
    assert_eq!(device_message(537, 0x1_0000_8000), DeviceMessage::Arrival);
    assert_eq!(device_message(537, 7), DeviceMessage::OtherChange);
    assert_eq!(device_message(16, 0x8000), DeviceMessage::Foreign);
    assert_eq!(pump_step(0), PumpStep::Quit);
    assert_eq!(pump_step(-1), PumpStep::Fail);
    assert_eq!(pump_step(1), PumpStep::Dispatch);
    assert_eq!(pump_step(-2), PumpStep::Dispatch);
    assert!(class_usable(1, None));
    assert!(class_usable(0, Some(1410)));
    assert!(!class_usable(0, Some(5)));
    assert!(!class_usable(0, None));
}

#[test]
fn the_watcher_says_what_it_does() {
    assert_eq!(watch::run(true), None);
    assert_eq!(
        watch::run(false),
        Some("[watch] is Windows-only — this build is non-Windows, exiting.")
    );
    assert_eq!(watch::tag(), "[watch]");
    assert!(passes_over(None));
    assert!(passes_over(Some(true)));
    assert!(!passes_over(Some(false)));
    assert_eq!(mount_args("d", 0, 'E'), vec!["mount", "d", "--drive", "E:"]);
    assert_eq!(mount_args("d", 12, 'E'), vec!["mount", "d", "--drive", "E:", "--part", "12"]);
    assert_eq!(watch::mounting("d", 1, 'E'), "[watch] ext4 detected on d#part1 -> mounting on E:");
    assert_eq!(
        watch::spawn_failed("d", 0, 'E', "x"),
        "[watch] spawn `ext4 mount d --drive E:` failed: x"
    );
    assert_eq!(
        watch::spawn_failed("d", 3, 'E', "x"),
        "[watch] spawn `ext4 mount d --drive E: --part 3` failed: x"
    );
    assert_eq!(watch::removed("d", 1, 'E'), "[watch] d#part1 removed -> unmounted from E:");
    assert_eq!(
        watch::shut_down("d", 1, 'E'),
        "[watch] d#part1 -> child unmounted from E: (shutdown)"
    );
}

fn setup_fails(step: SetupStep, destroys: bool, want: &str) {
    match step {
        SetupStep::Fail { destroy_window, message } => {
            assert_eq!(destroy_window, destroys);
            assert_eq!(message, want);
        }
        _ => panic!("the setup goes on"),
    }
}

#[test]
fn the_window_is_set_up_step_by_step() {
    assert!(matches!(on_class(1, None, ""), SetupStep::CreateWindow));
    assert!(matches!(on_class(0, Some(1410), "exists"), SetupStep::CreateWindow));
    setup_fails(on_class(0, Some(5), "denied"), false, "RegisterClassW failed: denied");
    assert!(matches!(on_window(true, ""), SetupStep::Subscribe));
    setup_fails(on_window(false, "x"), false, "CreateWindowExW(HWND_MESSAGE) failed: x");
    assert!(matches!(on_subscription(true, ""), SetupStep::Ready));
    setup_fails(on_subscription(false, "x"), true, "RegisterDeviceNotificationW failed: x");
}

#[test]
fn the_service_takes_its_actions_in_order() {
    let mut action = ServiceAction::Register;
    let mut taken = Vec::new();
    while action != ServiceAction::Finish {
        taken.push(action);
        action = next_action(action, true);
    }
    assert_eq!(
        taken,
        vec![
            ServiceAction::Register,
            ServiceAction::Report(Phase::Starting),
            ServiceAction::OpenPump,
            ServiceAction::Report(Phase::Running),
            ServiceAction::Pump,
            ServiceAction::EndMounts,
            ServiceAction::Report(Phase::Stopped),
        ]
    );
    let failed = ServiceAction::Report(Phase::Failed);
    for done in taken {
        assert_eq!(next_action(done, false), failed);
    }
    assert_eq!(next_action(failed, false), ServiceAction::Finish);
    assert_eq!(next_action(failed, true), ServiceAction::Finish);
}

#[test]
fn the_service_reports_its_life() {
    assert_eq!(service::run(true), None);
    assert_eq!(
        service::run(false),
        Some("[service] this build was compiled without the `service` feature; rebuild with `--features service` on Windows to use the SCM dispatcher.")
    );
    assert_eq!(service::service_name(), "ExtFsWatcher");
    assert_eq!(service::launcher_service_class(), "ext4-mount");
    assert_eq!(service::tag(), "[service]");
    let s = status_report(Phase::Starting);
    assert_eq!((s.state, s.accepts_stop, s.wait_hint_secs), (ReportedState::StartPending, false, 10));
    let s = status_report(Phase::Running);
    assert!(s.accepts_stop && s.accepts_shutdown);
    assert_eq!((s.state, s.wait_hint_secs), (ReportedState::Running, 0));
    let s = status_report(Phase::Stopped);
    assert_eq!((s.state, s.exit), (ReportedState::Stopped, ReportedExit::Win32(0)));
    let s = status_report(Phase::Failed);
    assert_eq!((s.state, s.exit), (ReportedState::Stopped, ReportedExit::ServiceSpecific(1)));
    for (c, quits, known) in [
        (Control::Stop, true, true),
        (Control::Shutdown, true, true),
        (Control::Interrogate, false, true),
        (Control::Other, false, false),
    ] {
        let r = on_control(c);
        assert_eq!((r.quits, r.known), (quits, known));
    }
    assert_eq!(service::fatal("x"), "[service] fatal: x");
}

#[test]
fn the_launcher_is_called_by_letter() {
    assert_eq!(active_console_session(0xFFFF_FFFF), None);
    assert_eq!(active_console_session(1), Some(1));
    assert_eq!(
        service::deferred("d"),
        "[service] d: no active console session, deferring mount"
    );
    assert_eq!(start_args('E', "d", 2), vec!["start", "ext4-mount", "E", "E:", "d", "2"]);
    assert_eq!(start_args('E', "d", 0)[5], "0");
    assert_eq!(stop_args('E'), vec!["stop", "ext4-mount", "E"]);
    assert_eq!(
        service::starting("d", 2, 'E'),
        "[service] ext4 detected on d#part2 -> launchctl start ext4-mount E d 2"
    );
    assert_eq!(
        service::removed("d", 2, 'E'),
        "[service] d#part2 removed -> launchctl stop ext4-mount E"
    );
    assert_eq!(
        service::shut_down("d", 2, 'E'),
        "[service] d#part2 -> launchctl stop ext4-mount E (shutdown)"
    );
    assert_eq!(service::stop_failed('E', "x"), "[service] launchctl stop E: x");
    assert_eq!(
        service::stop_failed_at_end("d", 2, 'E', "x"),
        "[service] launchctl stop E: x (d#part2)"
    );
}

#[test]
fn the_launcher_is_found() {
    assert_eq!(launchctl_exe_name("x86_64"), "launchctl-x64.exe");
    assert_eq!(launchctl_exe_name("aarch64"), "launchctl-a64.exe");
    assert_eq!(launchctl_exe_name("x86"), "launchctl-x86.exe");
    assert_eq!(launchctl_exe_name("riscv64"), "launchctl-x64.exe");
    assert_eq!(key_opened(0), Ok(()));
    assert_eq!(
        key_opened(2),
        Err("RegOpenKeyExW(HKLM\\SOFTWARE\\WinFsp) failed: code 2".to_string())
    );
    assert_eq!(install_dir_sized(0, 1, 9), Ok(5));
    assert_eq!(install_dir_sized(0, 1, u32::MAX), Ok(0x8000_0000));
    assert_eq!(
        install_dir_sized(2, 1, 9),
        Err("RegQueryValueExW(InstallDir) size query failed: code 2".to_string())
    );
    assert_eq!(
        install_dir_sized(0, 4, 9),
        Err("InstallDir is type 4, expected REG_SZ".to_string())
    );
    let dir: Vec<u16> = "C:\\WinFsp\\\0\0".encode_utf16().collect();
    assert_eq!(winfsp_install_dir(0, &dir), Ok("C:\\WinFsp\\".to_string()));
    assert_eq!(
        winfsp_install_dir(0, &[0x41, 0xD800]),
        Err("InstallDir not valid UTF-16".to_string())
    );
    assert_eq!(
        winfsp_install_dir(5, &dir),
        Err("RegQueryValueExW(InstallDir) failed: code 5".to_string())
    );
    assert_eq!(launcher_found(true, "x"), Ok(()));
    assert_eq!(launcher_found(false, "x"), Err("launchctl not found at x".to_string()));
    assert_eq!(launcher_exited("x", "start", true, ""), Ok(()));
    assert_eq!(
        launcher_exited("x", "stop", false, "exit code: 1"),
        Err("x stop exited with exit code: 1".to_string())
    );
}
