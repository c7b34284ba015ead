use fpatch::cli::{parse_args, Args, CliError, Operation};
use fpatch::configs::{PatchType, PatchedFile};
use fpatch::daemon::{daemon_init, daemon_step, match_sources, DaemonAction, DaemonEvent, DaemonPhase};
use fpatch::fuse::{entry_name, FsError};
use fpatch::mount::cleanup_targets;

#[test]
fn cleanup_picks_app_sourced_mounts() {
    let text = b"fpatch /tmp/a.txt fuse ro 0 0\nproc /proc proc rw 0 0\nfpatch /home/u/.local/share/fpatch/mp fuse ro 0 0\n".to_vec();
    let targets = cleanup_targets(&text, &b"fpatch".to_vec());
    assert_eq!(targets.len(), 2);
    assert_eq!(targets[0], b"/tmp/a.txt".to_vec());
    assert_eq!(targets[1], b"/home/u/.local/share/fpatch/mp".to_vec());
}

#[test]
fn cleanup_stops_at_empty_line() {
    let text = b"fpatch /a x\n\nfpatch /b x\n".to_vec();
    let targets = cleanup_targets(&text, &b"fpatch".to_vec());
    assert_eq!(targets.len(), 1);
    assert_eq!(targets[0], b"/a".to_vec());
}

#[test]
fn cleanup_twice_equals_once() {
    // Detach every reported mount, write the table that leaves, and run the
    // scan again: nothing is left to detach.
    let text = b"fpatch /a x\nsysfs /sys sysfs rw 0 0\nfpatch /b y\n".to_vec();
    let first = cleanup_targets(&text, &b"fpatch".to_vec());
    assert_eq!(first.len(), 2);
    let after = b"sysfs /sys sysfs rw 0 0\n".to_vec();
    let second = cleanup_targets(&after, &b"fpatch".to_vec());
    assert_eq!(second.len(), 0);
}

#[test]
fn match_sources_by_hash_prefix() {
    let p1 = PatchedFile { patch_type: PatchType::Replace, path: b"/tmp/a.txt".to_vec(), content: b"B".to_vec() };
    let p2 = PatchedFile { patch_type: PatchType::Append, path: b"/tmp/b.txt".to_vec(), content: b"C".to_vec() };
    let names = vec![entry_name(&p2.path), entry_name(&p1.path)];
    let picked = match_sources(&names, &vec![p1, p2]).unwrap();
    assert_eq!(picked.len(), 2);
    assert_eq!(picked[0], names[1]);
    assert_eq!(picked[1], names[0]);
}

#[test]
fn match_sources_misses_are_fatal() {
    let p1 = PatchedFile { patch_type: PatchType::Replace, path: b"/tmp/a.txt".to_vec(), content: b"B".to_vec() };
    let names = vec![entry_name(&b"/other".to_vec())];
    assert!(matches!(match_sources(&names, &vec![p1]), Err(FsError::NotFound)));
}

#[test]
fn startup_cleans_then_spawns() {
    let (phase, acts) = daemon_init();
    assert!(matches!(phase, DaemonPhase::AwaitReady));
    assert_eq!(acts, vec![DaemonAction::RunCleanup, DaemonAction::SpawnFuse]);
}

#[test]
fn ready_spawns_publisher_then_publishes() {
    let (p1, a1) = daemon_step(DaemonPhase::AwaitReady, DaemonEvent::FuseReady);
    assert!(matches!(p1, DaemonPhase::Publishing));
    assert_eq!(a1, vec![DaemonAction::SpawnPublisher]);
    let (p2, a2) = daemon_step(p1, DaemonEvent::PublisherExited { ok: true });
    assert!(matches!(p2, DaemonPhase::Serving));
    assert_eq!(a2, vec![DaemonAction::PublishProxies]);
}

#[test]
fn failed_publisher_tears_down() {
    let (p, a) = daemon_step(DaemonPhase::Publishing, DaemonEvent::PublisherExited { ok: false });
    assert!(matches!(p, DaemonPhase::Cooldown));
    assert_eq!(a, vec![DaemonAction::KillFuse, DaemonAction::RunCleanup, DaemonAction::Sleep]);
}

#[test]
fn config_change_restarts_iteration() {
    // A patch-set change while serving: kill, restore, clean, wait; the
    // elapsed delay spawns a fresh server.
    let (p1, a1) = daemon_step(DaemonPhase::Serving, DaemonEvent::ConfigChanged);
    assert!(matches!(p1, DaemonPhase::Cooldown));
    assert_eq!(
        a1,
        vec![
            DaemonAction::KillFuse,
            DaemonAction::RestoreProxies,
            DaemonAction::RunCleanup,
            DaemonAction::Sleep
        ]
    );
    let (p2, a2) = daemon_step(p1, DaemonEvent::CooldownElapsed);
    assert!(matches!(p2, DaemonPhase::AwaitReady));
    assert_eq!(a2, vec![DaemonAction::SpawnFuse]);
}

#[test]
fn server_crash_recovers() {
    // The server dying while serving reverts the targets and retries.
    let (p, a) = daemon_step(DaemonPhase::Serving, DaemonEvent::FuseExited);
    assert!(matches!(p, DaemonPhase::Cooldown));
    assert_eq!(
        a,
        vec![DaemonAction::RestoreProxies, DaemonAction::RunCleanup, DaemonAction::Sleep]
    );
}

#[test]
fn shutdown_always_exits_through_cleanup() {
    for phase in [
        DaemonPhase::AwaitReady,
        DaemonPhase::Publishing,
        DaemonPhase::Serving,
        DaemonPhase::Cooldown,
    ] {
        let (next, acts) = daemon_step(phase, DaemonEvent::Shutdown);
        assert!(matches!(next, DaemonPhase::Exited));
        assert!(acts.len() >= 2);
        assert_eq!(acts[acts.len() - 2], DaemonAction::RunCleanup);
        assert_eq!(acts[acts.len() - 1], DaemonAction::Exit);
    }
}

#[test]
fn ignored_events_change_nothing() {
    let (p, a) = daemon_step(DaemonPhase::AwaitReady, DaemonEvent::CooldownElapsed);
    assert!(matches!(p, DaemonPhase::AwaitReady));
    assert!(a.is_empty());
    let (p2, a2) = daemon_step(DaemonPhase::Exited, DaemonEvent::FuseReady);
    assert!(matches!(p2, DaemonPhase::Exited));
    assert!(a2.is_empty());
}

#[test]
fn no_subcommand_is_supervisor() {
    let args = vec![b"fpatch".to_vec()];
    assert!(matches!(parse_args(&args), Ok(Args { op: None })));
}

#[test]
fn mount_fuse_subcommand() {
    let args = vec![b"fpatch".to_vec(), b"mount-fuse".to_vec()];
    assert!(matches!(parse_args(&args), Ok(Args { op: Some(Operation::MountFuse) })));
}

#[test]
fn pipe_back_subcommand_takes_pid() {
    let args = vec![b"fpatch".to_vec(), b"pipe-back".to_vec(), b"1234".to_vec()];
    match parse_args(&args) {
        Ok(Args { op: Some(Operation::PipeBack(pb)) }) => assert_eq!(pb.pid, 1234),
        other => panic!("unexpected: {:?}", other),
    }
}

#[test]
fn pipe_back_accepts_negative_pid() {
    let args = vec![b"fpatch".to_vec(), b"pipe-back".to_vec(), b"-5".to_vec()];
    match parse_args(&args) {
        Ok(Args { op: Some(Operation::PipeBack(pb)) }) => assert_eq!(pb.pid, -5),
        other => panic!("unexpected: {:?}", other),
    }
}

#[test]
fn bad_invocations_are_refused() {
    let unknown = vec![b"fpatch".to_vec(), b"frobnicate".to_vec()];
    assert!(matches!(parse_args(&unknown), Err(CliError::UnknownCommand)));
    let missing = vec![b"fpatch".to_vec(), b"pipe-back".to_vec()];
    assert!(matches!(parse_args(&missing), Err(CliError::BadArity)));
    let extra = vec![b"fpatch".to_vec(), b"mount-fuse".to_vec(), b"x".to_vec()];
    assert!(matches!(parse_args(&extra), Err(CliError::BadArity)));
    let bad_pid = vec![b"fpatch".to_vec(), b"pipe-back".to_vec(), b"12x".to_vec()];
    assert!(matches!(parse_args(&bad_pid), Err(CliError::BadPid)));
    let huge_pid = vec![b"fpatch".to_vec(), b"pipe-back".to_vec(), b"99999999999".to_vec()];
    assert!(matches!(parse_args(&huge_pid), Err(CliError::BadPid)));
}

#[test]
fn pid_parse_bounds() {
    assert_eq!(fpatch::cli::parse_i32(&b"2147483647".to_vec()), Some(2147483647));
    assert_eq!(fpatch::cli::parse_i32(&b"2147483648".to_vec()), None);
    assert_eq!(fpatch::cli::parse_i32(&b"-2147483648".to_vec()), Some(-2147483648));
    assert_eq!(fpatch::cli::parse_i32(&b"-2147483649".to_vec()), None);
    assert_eq!(fpatch::cli::parse_i32(&b"0".to_vec()), Some(0));
    assert_eq!(fpatch::cli::parse_i32(&b"".to_vec()), None);
    assert_eq!(fpatch::cli::parse_i32(&b"-".to_vec()), None);
}
