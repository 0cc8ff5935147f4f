use kfilesync::error::DomainError;
use kfilesync::model::device::{Certificate, Device, DeviceId, DeviceState, DiscoveredData, PairedData, RevokedData};
use kfilesync::model::file_entry::{ConflictResolution, EntryType, FileEntry};
use kfilesync::model::share::{Share, ShareId, SharePermission, SyncMode};
use kfilesync::model::version::VersionVector;
use kfilesync::service::chunking::compute_chunk_size;
use kfilesync::service::conflict_resolver::{can_shorten, ConflictResolver};
use kfilesync::service::policy_enforcer::{PolicyEnforcer, SyncDirection};
use kfilesync::service::specification::{
    ignore_path_allowed, IgnoreSpec,
    AndSpec, PermissionSpec, ShareMemberSpec, Specification, SyncContext, TrustedDeviceSpec,
};
use kfilesync::service::sync_plan::SyncPlanGenerator;

fn dev(s: &str) -> DeviceId {
    DeviceId(s.to_string())
}

fn entry(path: &str, by: &str, at: u64, version: &[(&str, u64)]) -> FileEntry {
    let mut e = FileEntry::new_at(ShareId("s".into()), path.into(), EntryType::File, &dev(by), at);
    let mut v = VersionVector::new();
    for (d, n) in version {
        v.set(dev(d), *n);
    }
    e.version = v;
    e
}

fn paired(id: &str) -> Device {
    Device {
        id: dev(id),
        state: DeviceState::Paired(PairedData {
            certificate: Certificate::mock("c"),
            paired_at: 1,
            alias: "Peer".into(),
            address: "10.0.0.9".into(),
            last_seen_at: None,
        }),
    }
}

fn discovered(id: &str) -> Device {
    Device { id: dev(id), state: DeviceState::Discovered(DiscoveredData { alias: "x".into(), address: "10.0.0.3".into() }) }
}

#[test]
fn chunk_size_thresholds() {
    assert_eq!(compute_chunk_size(0), 0);
    assert_eq!(compute_chunk_size(131_072), 0);
    assert_eq!(compute_chunk_size(131_073), 131_072);
    assert_eq!(compute_chunk_size(268_435_456), 131_072);
    assert_eq!(compute_chunk_size(268_435_457), 1_048_576);
    assert_eq!(compute_chunk_size(1_073_741_825), 4_194_304);
    assert_eq!(compute_chunk_size(17_179_869_185), 16_777_216);
}

#[test]
fn conflict_deletion_loses_to_modification() {
    let mut local = entry("a.txt", "d1", 100, &[("d1", 2)]);
    local.deleted = true;
    let remote = entry("a.txt", "d2", 50, &[("d2", 1)]);
    assert!(matches!(ConflictResolver::resolve(&local, &remote), ConflictResolution::KeepRemote));
    assert!(matches!(ConflictResolver::resolve(&remote, &local), ConflictResolution::KeepLocal));
}

#[test]
fn conflict_newer_side_keeps_name() {
    let local = entry("docs/report.pdf", "localdevice1", 200, &[("a", 1)]);
    let remote = entry("docs/report.pdf", "remotedevice2", 100, &[("b", 1)]);
    match ConflictResolver::resolve(&local, &remote) {
        ConflictResolution::KeepBoth { conflict_copy_path } => {
            assert_eq!(conflict_copy_path, "docs/report.sync-conflict-19700101-000140-remotede.pdf")
        }
        other => panic!("unexpected {:?}", other),
    }
    match ConflictResolver::resolve(&remote, &local) {
        ConflictResolution::KeepBoth { conflict_copy_path } => {
            assert_eq!(conflict_copy_path, "docs/report.sync-conflict-19700101-000140-remotede.pdf")
        }
        other => panic!("unexpected {:?}", other),
    }
}

#[test]
fn conflict_tie_broken_by_device_id() {
    let local = entry("notes", "bbb", 100, &[("a", 1)]);
    let remote = entry("notes", "aaa", 100, &[("b", 1)]);
    match ConflictResolver::resolve(&local, &remote) {
        ConflictResolution::KeepBoth { conflict_copy_path } => {
            assert_eq!(conflict_copy_path, "notes.sync-conflict-19700101-000140-aaa")
        }
        other => panic!("unexpected {:?}", other),
    }
    let same = entry("notes", "aaa", 100, &[("b", 1)]);
    assert!(matches!(ConflictResolver::resolve(&same, &remote), ConflictResolution::KeepLocal));
}

#[test]
fn device_ids_cut_on_char_boundary() {
    assert!(can_shorten("0123456789abcdef"));
    assert!(can_shorten("short"));
    assert!(!can_shorten("abcdefgé1234"));
}

#[test]
fn plan_pulls_pushes_and_conflicts() {
    let local = vec![
        entry("only_local", "me", 1, &[("me", 1)]),
        entry("both_same", "me", 1, &[("me", 1)]),
        entry("remote_newer", "me", 1, &[("me", 1)]),
        entry("local_newer", "me", 5, &[("me", 2)]),
        entry("conflict", "me", 9, &[("me", 1)]),
    ];
    let remote = vec![
        entry("only_remote", "peer", 1, &[("peer", 1)]),
        entry("both_same", "me", 1, &[("me", 1)]),
        entry("remote_newer", "peer", 3, &[("me", 1), ("peer", 1)]),
        entry("local_newer", "me", 1, &[("me", 1)]),
        entry("conflict", "peer", 4, &[("peer", 1)]),
    ];
    let plan = SyncPlanGenerator::generate(&local, &remote, &dev("me"), &SharePermission::ReadWrite);
    let pulls: Vec<&str> = plan.to_pull.iter().map(|a| a.path.as_str()).collect();
    let pushes: Vec<&str> = plan.to_push.iter().map(|a| a.path.as_str()).collect();
    assert_eq!(pulls, vec!["only_remote", "remote_newer"]);
    assert_eq!(pushes, vec!["local_newer", "only_local"]);
    assert_eq!(plan.unchanged, vec!["both_same".to_string()]);
    assert_eq!(plan.conflicts.len(), 1);
    assert_eq!(plan.conflicts[0].path, "conflict");
}

#[test]
fn read_only_plan_never_pushes() {
    let local = vec![entry("mine", "me", 1, &[("me", 1)])];
    let remote = vec![entry("theirs", "peer", 1, &[("peer", 1)])];
    let plan = SyncPlanGenerator::generate(&local, &remote, &dev("me"), &SharePermission::ReadOnly);
    assert!(plan.to_push.is_empty());
    assert_eq!(plan.to_pull.len(), 1);
    let plan = SyncPlanGenerator::generate(&local, &remote, &dev("me"), &SharePermission::SendOnly);
    assert!(plan.to_pull.is_empty());
    assert_eq!(plan.to_push.len(), 1);
}

#[test]
fn deleted_entries_are_not_moved_alone() {
    let mut gone = entry("gone", "me", 1, &[("me", 1)]);
    gone.deleted = true;
    let plan = SyncPlanGenerator::generate(&[gone], &[], &dev("me"), &SharePermission::ReadWrite);
    assert!(plan.to_push.is_empty());
}

#[test]
fn identical_indexes_leave_everything_unchanged() {
    let idx = vec![entry("a", "me", 1, &[("me", 1)]), entry("b", "me", 2, &[("me", 3)])];
    let plan = SyncPlanGenerator::generate(&idx, &idx, &dev("me"), &SharePermission::ReadWrite);
    assert!(plan.to_pull.is_empty() && plan.to_push.is_empty() && plan.conflicts.is_empty());
    assert_eq!(plan.unchanged.len(), 2);
}

fn share_with(peer: &str, p: SharePermission, mode: SyncMode) -> Share {
    let s = Share::create_at(ShareId("s1".into()), "S".into(), "/p".into(), mode, dev("me"), 1);
    s.authorize_member_at(dev(peer), p, dev("me"), 2).unwrap()
}

#[test]
fn policy_check_transfer() {
    let pe = PolicyEnforcer::new();
    assert!(pe.check_transfer(&dev("p"), Some(&paired("p"))).is_ok());
    assert!(matches!(pe.check_transfer(&dev("p"), None), Err(DomainError::DeviceNotFound(m)) if m == "p"));
    assert!(matches!(pe.check_transfer(&dev("p"), Some(&discovered("p"))), Err(DomainError::DeviceNotTrusted(m)) if m == "p"));
}

#[test]
fn policy_check_sync_errors() {
    let pe = PolicyEnforcer::new();
    let sid = ShareId("s1".into());
    let share = share_with("p", SharePermission::ReadOnly, SyncMode::TwoWay);
    assert!(pe.check_sync(&dev("p"), &sid, SyncDirection::Pull, Some(&paired("p")), Some(&share)).is_ok());
    match pe.check_sync(&dev("p"), &sid, SyncDirection::Push, Some(&paired("p")), Some(&share)) {
        Err(DomainError::PermissionDenied(m)) => assert_eq!(m, "Sync action Push denied for device p on share s1 "),
        other => panic!("unexpected {:?}", other),
    }
    assert!(matches!(pe.check_sync(&dev("p"), &sid, SyncDirection::Pull, Some(&paired("p")), None), Err(DomainError::ShareNotFound(_))));
    match pe.check_sync(&dev("q"), &sid, SyncDirection::Pull, Some(&paired("q")), Some(&share)) {
        Err(DomainError::PermissionDenied(m)) => assert_eq!(m, "Device q is not a member of share s1"),
        other => panic!("unexpected {:?}", other),
    }
    let send_only = share_with("p", SharePermission::ReadWrite, SyncMode::SendOnly);
    match pe.check_sync(&dev("p"), &sid, SyncDirection::Push, Some(&paired("p")), Some(&send_only)) {
        Err(DomainError::PermissionDenied(m)) => assert_eq!(m, "Share is SendOnly: peers cannot push"),
        other => panic!("unexpected {:?}", other),
    }
    let receive_only = share_with("p", SharePermission::ReadWrite, SyncMode::ReceiveOnly);
    match pe.check_sync(&dev("p"), &sid, SyncDirection::Pull, Some(&paired("p")), Some(&receive_only)) {
        Err(DomainError::PermissionDenied(m)) => assert_eq!(m, "Share is ReceiveOnly: peers cannot pull"),
        other => panic!("unexpected {:?}", other),
    }
}

#[test]
fn composed_specification_agrees_with_policy() {
    let share = share_with("p", SharePermission::SendOnly, SyncMode::TwoWay);
    let device = paired("p");
    let rule = AndSpec(TrustedDeviceSpec, AndSpec(ShareMemberSpec, PermissionSpec));
    let push = SyncContext {
        device: &device,
        share: &share,
        action: kfilesync::service::specification::SyncDirection::Push,
    };
    let pull = SyncContext {
        device: &device,
        share: &share,
        action: kfilesync::service::specification::SyncDirection::Pull,
    };
    assert!(rule.is_satisfied_by(&push));
    assert!(!rule.is_satisfied_by(&pull));
    let revoked = Device {
        id: dev("p"),
        state: DeviceState::Revoked(RevokedData {
            revoked_at: 3,
            certificate: Certificate::mock("c"),
            alias: "x".into(),
            address: "y".into(),
        }),
    };
    let ctx = SyncContext {
        device: &revoked,
        share: &share,
        action: kfilesync::service::specification::SyncDirection::Push,
    };
    assert!(!rule.is_satisfied_by(&ctx));
}

fn sv(v: &[&str]) -> Vec<String> {
    v.iter().map(|s| s.to_string()).collect()
}

#[test]
fn default_ignore_rules_apply() {
    let spec = IgnoreSpec::new("/share".into(), vec![]).unwrap();
    assert!(spec.is_ignored(".DS_Store", false));
    assert!(spec.is_ignored("docs/Thumbs.db", false));
    assert!(spec.is_ignored(".lansync-tmp/part.bin", false));
    assert!(spec.is_ignored("x/.lansync-tmp", true));
    assert!(!spec.is_ignored("x/.lansync-tmp", false));
    assert!(!spec.is_ignored("docs/a.txt", false));
    assert!(PolicyEnforcer::check_file_ignored("desktop.ini", false, &spec));
}

#[test]
fn share_ignore_lines_add_to_the_defaults() {
    let spec = IgnoreSpec::new("/share".into(), sv(&["*.log", "!keep.log", "build/"])).unwrap();
    assert!(spec.is_ignored("logs/a.log", false));
    assert!(!spec.is_ignored("keep.log", false));
    assert!(spec.is_ignored("build/out/x.o", false));
    assert!(spec.is_ignored(".DS_Store", false));
    let from_file = IgnoreSpec::from_lines("/share".into(), sv(&["\u{feff}*.tmp", "# comment", ""])).unwrap();
    assert!(from_file.is_ignored("a.tmp", false));
    assert!(!from_file.is_ignored("a.txt", false));
    assert!(IgnoreSpec::new("/share".into(), sv(&["{a"])).is_err());
    assert!(IgnoreSpec::from_lines("/share".into(), sv(&["ok", "{a"])).is_err());
}

#[test]
fn ignore_matching_needs_share_relative_paths() {
    assert!(ignore_path_allowed("/share", "a.txt"));
    assert!(ignore_path_allowed("/share", "./docs/a.txt"));
    assert!(!ignore_path_allowed("/share", "/etc/passwd"));
    assert!(!ignore_path_allowed("/share", ".//x"));
    assert!(!ignore_path_allowed("docs", "docs//x"));
    assert!(ignore_path_allowed("docs", "docs/x"));
    assert!(!ignore_path_allowed("/share", "C:x"));
}

#[test]
fn conflict_copy_of_unrepresentable_time_uses_the_epoch() {
    let local = entry("a.txt", "localdev", u64::MAX, &[("a", 1)]);
    let remote = entry("a.txt", "remotedv", 1u64 << 62, &[("b", 1)]);
    match ConflictResolver::resolve(&local, &remote) {
        ConflictResolution::KeepBoth { conflict_copy_path } => {
            assert_eq!(conflict_copy_path, "a.sync-conflict-19700101-000000-remotedv.txt")
        }
        other => panic!("unexpected {:?}", other),
    }
}
