use kfilesync::application::identity::{pairing_address, pairing_request, PairingSessions};
use kfilesync::application::share_service::ShareAppService;
use kfilesync::application::sync_flow::{check_relative_path, index_shortenable, peer_address, plan_resolvable, HttpSyncFlow, PathPart};
use kfilesync::application::transfer_service::{ChunkOutcome, ChunkVerdict, TransferAppService};
use kfilesync::dto::{TransferRequestDto, TransferRequestItemDto};
use kfilesync::error::DomainError;
use kfilesync::model::device::{Certificate, Device, DeviceId, DeviceState, DiscoveredData, PairedData};
use kfilesync::model::file_entry::{ConflictResolution, EntryType, FileEntry, SyncAction, SyncConflict, SyncPlan};
use kfilesync::model::pairing::PairingSession;
use kfilesync::model::share::{Share, ShareId, SharePermission, SyncMode};
use kfilesync::model::transfer::{
    ChunkInfo, FileId, FileRequest, JobId, TransferError, TransferItemStatus, TransferJob, TransferState, TransferType,
};
use kfilesync::model::version::VersionVector;
use kfilesync::ports::SkipChunkInfo;
use kfilesync::server::{accept_share_invite, apply_uploaded_chunk, invite_sender_check, locate_chunk, receive_job, InviteOutcome};
use kfilesync::application::indexer::{contains_text, IndexerService};
use kfilesync::discovery::discovery_order;
use kfilesync::application::recovery::{plan_recovery, recovery_action, recovery_details, tombstone_cutoff, RecoveryAction};

fn dev(s: &str) -> DeviceId {
    DeviceId(s.to_string())
}

fn paired(id: &str) -> Device {
    Device {
        id: dev(id),
        state: DeviceState::Paired(PairedData {
            certificate: Certificate::mock("c"),
            paired_at: 1,
            alias: "Peer".into(),
            address: "10.0.0.9".into(),
            last_seen_at: None,
        }),
    }
}

fn discovered(id: &str) -> Device {
    Device { id: dev(id), state: DeviceState::Discovered(DiscoveredData { alias: "x".into(), address: "10.0.0.3".into() }) }
}

fn entry(share: &str, path: &str, size: u64, sha: Option<&str>, by: &str) -> FileEntry {
    let mut e = FileEntry::new_at(ShareId(share.into()), path.into(), EntryType::File, &dev(by), 10);
    e.size = size;
    e.sha256 = sha.map(|s| s.to_string());
    e
}

fn action(e: FileEntry) -> SyncAction {
    SyncAction { path: e.path.clone(), entry: e, missing_blocks: vec![] }
}

#[test]
fn peer_address_needs_paired_device() {
    assert_eq!(peer_address(&dev("p"), Some(&paired("p"))).unwrap(), "10.0.0.9");
    assert!(matches!(peer_address(&dev("p"), None), Err(DomainError::DeviceNotFound(m)) if m == "p"));
    assert!(matches!(peer_address(&dev("p"), Some(&discovered("p"))), Err(DomainError::DeviceNotTrusted(m)) if m == "p"));
}

#[test]
fn relative_path_rules() {
    assert!(check_relative_path("a/b", false, &vec![PathPart::Normal, PathPart::Normal]).is_ok());
    assert!(matches!(check_relative_path("/etc", true, &vec![]), Err(DomainError::PermissionDenied(m)) if m == "absolute path not allow: /etc"));
    assert!(matches!(
        check_relative_path("a/../b", false, &vec![PathPart::Normal, PathPart::ParentDir, PathPart::Normal]),
        Err(DomainError::PermissionDenied(m)) if m == "path traversal denied: a/../b"
    ));
    assert!(matches!(check_relative_path("x", false, &vec![PathPart::RootDir]), Err(DomainError::PermissionDenied(m)) if m == "absolute/root path denied: x"));
    assert!(HttpSyncFlow::validate_relative_path("docs/a.txt").is_ok());
    assert!(HttpSyncFlow::validate_relative_path("../secret").is_err());
    assert!(HttpSyncFlow::validate_relative_path("/etc/passwd").is_err());
}

#[test]
fn peer_permission_defaults_to_read_only() {
    let s = Share::create_at(ShareId("s".into()), "S".into(), "/p".into(), SyncMode::TwoWay, dev("me"), 1);
    assert_eq!(HttpSyncFlow::permission_for_peer(&s, &dev("stranger")), SharePermission::ReadOnly);
    let s = s.authorize_member_at(dev("p"), SharePermission::SendOnly, dev("me"), 2).unwrap();
    assert_eq!(HttpSyncFlow::permission_for_peer(&s, &dev("p")), SharePermission::SendOnly);
}

#[test]
fn plan_under_peer_permission() {
    let flow = HttpSyncFlow::new(dev("me"));
    let s = Share::create_at(ShareId("s".into()), "S".into(), "/p".into(), SyncMode::TwoWay, dev("me"), 1);
    let local = vec![entry("s", "mine", 1, None, "me")];
    let remote = vec![entry("s", "theirs", 1, None, "peer")];
    assert!(index_shortenable(&local) && index_shortenable(&remote));
    let plan = flow.generate_plan(&local, &remote, &s, &dev("peer"));
    assert_eq!(plan.to_pull.len(), 1);
    assert!(plan.to_push.is_empty());
}

#[test]
fn jobs_for_plan_actions() {
    let actions = vec![action(entry("s7", "a", 5, Some("h"), "p")), action(entry("s7", "b", 6, None, "p"))];
    let reqs = HttpSyncFlow::make_file_requests(&actions);
    assert_eq!(reqs[0].sha256, "h");
    assert_eq!(reqs[1].sha256, "");
    let job = HttpSyncFlow::job_for_actions(&actions, TransferType::SyncPull, &dev("peer")).unwrap();
    assert_eq!(job.share_id.as_deref(), Some("s7"));
    assert_eq!(job.items.len(), 2);
    assert_eq!(job.items[1].file_path, "b");
    assert!(matches!(job.job_type, TransferType::SyncPull));
    assert!(HttpSyncFlow::job_for_actions(&vec![], TransferType::SyncPush, &dev("peer")).is_none());
}

#[test]
fn conflict_follow_up_jobs() {
    let mk = |res: ConflictResolution| SyncConflict {
        path: "f".into(),
        local: entry("L", "f", 1, None, "me"),
        remote: entry("R", "f", 8, Some("rh"), "peer"),
        resolution: res,
    };
    let keep_both = HttpSyncFlow::conflict_job(&mk(ConflictResolution::KeepBoth { conflict_copy_path: "f.copy".into() }), &dev("peer")).unwrap();
    assert_eq!(keep_both.items[0].file_path, "f.copy");
    assert_eq!(keep_both.items[0].sha256, "rh");
    assert_eq!(keep_both.share_id.as_deref(), Some("L"));
    let keep_remote = HttpSyncFlow::conflict_job(&mk(ConflictResolution::KeepRemote), &dev("peer")).unwrap();
    assert_eq!(keep_remote.items[0].file_path, "f");
    assert_eq!(keep_remote.share_id.as_deref(), Some("R"));
    assert!(HttpSyncFlow::conflict_job(&mk(ConflictResolution::KeepLocal), &dev("peer")).is_none());
    assert!(HttpSyncFlow::conflict_job(&mk(ConflictResolution::Pending), &dev("peer")).is_none());
}

#[test]
fn entries_after_sync() {
    let remote = entry("s", "f", 3, None, "peer");
    let pulled = HttpSyncFlow::pulled_entry(None, &remote);
    assert_eq!(pulled.version.get(&dev("peer")), 1);
    let local = entry("s", "f", 9, None, "me");
    let merged = HttpSyncFlow::pulled_entry(Some(local), &remote);
    assert_eq!((merged.size, merged.version.get(&dev("me")), merged.version.get(&dev("peer"))), (9, 1, 1));
    assert!(HttpSyncFlow::pushed_entry(None, &remote).is_none());
    let c = SyncConflict {
        path: "f".into(),
        local: entry("s", "f", 1, None, "a"),
        remote: entry("s", "f", 1, None, "b"),
        resolution: ConflictResolution::Pending,
    };
    let stored = entry("s", "f", 4, None, "z");
    let e = HttpSyncFlow::conflict_entry(Some(stored), &c).unwrap();
    assert_eq!((e.size, e.version.get(&dev("a")), e.version.get(&dev("b")), e.version.get(&dev("z"))), (4, 1, 1, 0));
}

#[test]
fn sync_events() {
    let plan = SyncPlan {
        to_pull: vec![],
        to_push: vec![action(entry("s3", "a", 1, None, "me")), action(entry("s3", "b", 1, None, "me"))],
        conflicts: vec![SyncConflict {
            path: "c".into(),
            local: entry("s3", "c", 1, None, "me"),
            remote: entry("s3", "c", 1, None, "p"),
            resolution: ConflictResolution::Pending,
        }],
        unchanged: vec![],
    };
    let done = HttpSyncFlow::completion_event(&plan).unwrap();
    assert_eq!((done.files_synced, done.share_id.0.as_str()), (2, "s3"));
    let ev = HttpSyncFlow::conflict_events(&plan);
    assert_eq!(ev.len(), 1);
    assert_eq!(ev[0].path, "c");
    let empty = SyncPlan { to_pull: vec![], to_push: vec![], conflicts: vec![], unchanged: vec![] };
    assert!(HttpSyncFlow::completion_event(&empty).is_none());
}

#[test]
fn share_service_helpers() {
    let svc = ShareAppService::new(dev("me"));
    let s = svc.new_share("sid".into(), "Photos".into(), "/photos".into(), SyncMode::SendOnly);
    assert_eq!(s.created_by.0, "me");
    let inv = svc.invite_for(&s, SharePermission::ReceiveOnly);
    assert_eq!((inv.share_id.as_str(), inv.permission.as_str(), inv.invited_by.as_str()), ("sid", "receive_only", "me"));
    assert!(matches!(ShareAppService::invite_rejected(&dev("bob")), DomainError::Network(m) if m == "Peer bob rejected the invite"));
}

fn send_job() -> TransferJob {
    TransferJob::from_files_with(
        TransferType::Send,
        dev("peer"),
        vec![FileRequest { file_path: "a".into(), file_size: 300_000, sha256: "s".into() }],
        JobId("j".into()),
        "sess".into(),
        vec![FileId("f".into())],
        100,
    )
}

#[test]
fn transfer_service_send_steps() {
    let svc = TransferAppService::new(dev("me"));
    let job = send_job();
    let req = svc.transfer_request(&job);
    assert_eq!((req.sender_device_id.as_str(), req.items[0].chunk_count, req.items[0].chunk_size), ("me", 3, 131_072));
    assert!(TransferAppService::check_sendable(&job).is_ok());
    assert!(TransferAppService::peer_rejection("accepted").is_none());
    assert!(matches!(TransferAppService::peer_rejection("busy"), Some(DomainError::Network(m)) if m == "Peer rejected transfer: busy"));
    let active = TransferAppService::activate(job).unwrap();
    assert!(matches!(active.state, TransferState::Active { .. }));
    let still = TransferAppService::activate(active).unwrap();
    assert!(matches!(still.state, TransferState::Active { .. }));
    let skips = vec![
        SkipChunkInfo { file_id: "f".into(), chunks_already_done: 1 },
        SkipChunkInfo { file_id: "g".into(), chunks_already_done: 5 },
        SkipChunkInfo { file_id: "f".into(), chunks_already_done: 2 },
    ];
    assert_eq!(TransferAppService::chunks_already_sent(&skips, "f", 0), 2);
    assert_eq!(TransferAppService::chunks_already_sent(&skips, "h", 7), 7);
    let p = TransferAppService::progress_update(&still.job_id, &still.items[0], 2);
    assert_eq!((p.chunks_done, p.total_chunks, p.bytes_done, p.total_bytes), (3, 3, 300_000, 300_000));
    let p = TransferAppService::progress_update(&still.job_id, &still.items[0], 0);
    assert_eq!(p.bytes_done, 131_072);
    let fin = TransferAppService::finish_send(still).unwrap();
    assert!(matches!(fin.state, TransferState::Active { .. }));
}

#[test]
fn transfer_service_receive_checks() {
    let chunk = ChunkInfo { index: 0, offset: 0, size: 3, hash: "6437b3ac38465133ffb63b75273a8db548c558465d79db03fd359c6cd5bd9d85".into() };
    assert!(!TransferAppService::chunk_rejected(&chunk, b"abc"));
    assert!(TransferAppService::chunk_rejected(&chunk, b"abx"));
    let unhashed = ChunkInfo { index: 0, offset: 0, size: 3, hash: String::new() };
    assert!(!TransferAppService::chunk_rejected(&unhashed, b"abx"));
    assert!(matches!(TransferAppService::chunk_verification_error("f1", 12), DomainError::IntegrityError(m) if m == "Chunk verification failed: file=f1, chunk=12"));
    assert!(matches!(
        TransferAppService::hash_mismatch_error("p", "aa", "bb"),
        DomainError::IntegrityError(m) if m == "File hash mismath for p: expected aa, got bb"
    ));
    let mut recv = send_job();
    recv.job_type = TransferType::Receive;
    assert!(matches!(TransferAppService::check_sendable(&recv), Err(DomainError::InvalidStateTransition(_))));
}

#[test]
fn retries_back_off_exponentially() {
    let failed = |retries: u32| {
        let mut j = send_job();
        j.state = TransferState::Failed { error: TransferError::Timeout, retries };
        j
    };
    assert!(!TransferAppService::retry_due(&failed(0), 100));
    assert!(TransferAppService::retry_due(&failed(0), 101));
    assert!(!TransferAppService::retry_due(&failed(3), 107));
    assert!(TransferAppService::retry_due(&failed(3), 108));
    assert!(TransferAppService::retry_due(&failed(4), 116));
    assert!(!TransferAppService::retry_due(&failed(5), 10_000));
    assert!(!TransferAppService::retry_due(&send_job(), 10_000));
    let j = TransferAppService::retried(failed(1), 500);
    assert!(matches!(j.state, TransferState::Active { started_at: 500 }));
}

#[test]
fn pairing_sessions_table() {
    let mut t = PairingSessions::new();
    t.insert(PairingSession::new(dev("a"), "111111".into(), 100));
    t.insert(PairingSession::new(dev("b"), "222222".into(), 50));
    t.insert(PairingSession::new(dev("a"), "333333".into(), 200));
    assert!(matches!(t.confirm(&dev("a"), "111111", 10), Err(DomainError::InvalidPinCode)));
    assert!(t.confirm(&dev("a"), "333333", 10).is_ok());
    assert!(matches!(t.confirm(&dev("a"), "333333", 10), Err(DomainError::NotFound(m)) if m == "No active pairing session for device a"));
    t.sweep(60);
    assert!(matches!(t.confirm(&dev("b"), "222222", 10), Err(DomainError::NotFound(_))));
}

#[test]
fn pairing_helpers() {
    assert_eq!(pairing_address(&dev("x"), Some(&discovered("x"))).unwrap(), "10.0.0.3");
    assert!(matches!(pairing_address(&dev("x"), Some(&paired("x"))), Err(DomainError::InvalidStateTransition("Device is not in Discovered state"))));
    assert!(matches!(pairing_address(&dev("x"), None), Err(DomainError::DeviceNotFound(_))));
    let r = pairing_request(&dev("0123456789abcdef"), "Me".into(), "linux".into());
    assert_eq!(r.fingerprint, "0123-4567-89ab-cdef");
}

#[test]
fn server_invite_handling() {
    assert!(invite_sender_check(Some(&paired("s"))).is_ok());
    assert_eq!(invite_sender_check(None).unwrap_err(), "Sender not found");
    assert_eq!(invite_sender_check(Some(&discovered("s"))).unwrap_err(), "Sender is not Paired");
    let out = accept_share_invite(None, &dev("me"), SharePermission::ReadOnly, dev("s"), ShareId("x".into()), "X".into(), "/dl/X".into(), 9);
    match out {
        InviteOutcome::Save(sh) => {
            assert_eq!(sh.members.len(), 2);
            assert_eq!(sh.get_permission(&dev("me")), Some(SharePermission::ReadOnly));
            assert_eq!(sh.created_by.0, "s");
            let again = accept_share_invite(Some(sh), &dev("me"), SharePermission::ReadOnly, dev("s"), ShareId("x".into()), "X".into(), "/dl".into(), 10);
            assert!(matches!(again, InviteOutcome::AlreadyMember));
        }
        other => panic!("unexpected {:?}", other),
    }
    let own = accept_share_invite(None, &dev("me"), SharePermission::ReadOnly, dev("me"), ShareId("x".into()), "X".into(), "/dl".into(), 9);
    assert!(matches!(own, InviteOutcome::Failed(DomainError::BusinessRuleViolation(_))));
}

#[test]
fn server_receive_and_upload() {
    let req = TransferRequestDto {
        job_id: "j".into(),
        session_id: "s".into(),
        sender_device_id: "peer".into(),
        items: vec![TransferRequestItemDto {
            file_id: "f".into(),
            file_path: "out/a".into(),
            file_size: 10,
            sha256: String::new(),
            chunk_count: 3,
            chunk_size: 4,
        }],
        timestamp: 0,
        nonce: String::new(),
    };
    let job = receive_job(&req, 77);
    assert!(matches!(job.state, TransferState::Active { started_at: 77 }));
    assert_eq!(job.items[0].chunk_manifest.chunks.len(), 3);
    assert_eq!(job.items[0].status, TransferItemStatus::Pending);
    assert_eq!(locate_chunk(&job, "f", 2), Some((0, 2)));
    assert_eq!(locate_chunk(&job, "f", 3), None);
    assert_eq!(locate_chunk(&job, "g", 0), None);
    let job = apply_uploaded_chunk(job, &FileId("f".into()), 0, 80).unwrap();
    assert!(matches!(job.state, TransferState::Active { .. }));
    let job = apply_uploaded_chunk(job, &FileId("f".into()), 2, 81).unwrap();
    assert!(matches!(job.state, TransferState::Completed { completed_at: 81 }));
    assert!(apply_uploaded_chunk(job, &FileId("f".into()), 1, 82).is_err());
}

#[test]
fn completed_job_is_not_activated_again() {
    let j = TransferAppService::activate(send_job()).unwrap();
    let j = j.record_chunk_done(&FileId("f".into()), 2).unwrap();
    assert!(matches!(j.state, TransferState::Verifying));
    let j = TransferAppService::finish_send(j).unwrap();
    assert!(matches!(j.state, TransferState::Completed { .. }));
    let v = VersionVector::new();
    assert_eq!(v.get(&dev("x")), 0);
}

#[test]
fn indexer_decisions() {
    assert!(contains_text("a/b.lansync-tmp/c", ".lansync-tmp"));
    assert!(!contains_text("abc", "abcd"));
    assert!(contains_text("abc", ""));
    assert!(IndexerService::is_sync_artifact("docs/x.sync-conflict-20240101-000000-abc.txt"));
    assert!(!IndexerService::is_sync_artifact("docs/x.txt"));
    assert!(IndexerService::is_ignore_file(".syncignore"));
    assert!(!IndexerService::is_ignore_file("a/.syncignore"));
    let idx = IndexerService::new(dev("me"));
    let chunks = vec![ChunkInfo { index: 0, offset: 0, size: 7, hash: "h".into() }];
    let fresh = idx.content_entry(None, ShareId("s".into()), "f".into(), 7, "sha".into(), chunks, 50, 60);
    assert_eq!((fresh.size, fresh.modified_at, fresh.version.get(&dev("me"))), (7, 60, 1));
    assert_eq!(fresh.blocks.0[0].hash, "h");
    let chunks = vec![ChunkInfo { index: 0, offset: 0, size: 9, hash: "h2".into() }];
    let updated = idx.content_entry(Some(fresh), ShareId("s".into()), "f".into(), 9, "sha2".into(), chunks, 70, 80);
    assert_eq!((updated.size, updated.modified_at, updated.version.get(&dev("me"))), (9, 70, 2));
    let gone = idx.deletion_entry(Some(updated)).unwrap();
    assert!(gone.deleted);
    assert_eq!(gone.version.get(&dev("me")), 3);
    assert!(idx.deletion_entry(None).is_none());
}

#[test]
fn discovery_strategies_tried_by_priority() {
    assert_eq!(discovery_order(&vec![3, 1, 2]), vec![1, 2, 0]);
    assert_eq!(discovery_order(&vec![2, 1, 2, 1]), vec![1, 3, 0, 2]);
    assert!(discovery_order(&vec![]).is_empty());
}

#[test]
fn crash_recovery_decisions() {
    let pending = send_job();
    assert_eq!(recovery_action(&pending, 3700), RecoveryAction::Keep);
    assert_eq!(recovery_action(&pending, 3701), RecoveryAction::Cancel);
    let active = TransferAppService::activate(send_job()).unwrap();
    assert_eq!(recovery_action(&active, 0), RecoveryAction::Pause);
    let cancelled = send_job().cancel().unwrap();
    assert_eq!(recovery_action(&cancelled, 1_000_000), RecoveryAction::Keep);
    assert_eq!(recovery_details(3, 1), "recovered=3, cancelled=1");
    assert_eq!(tombstone_cutoff(100), 0);
    assert_eq!(tombstone_cutoff(2_592_100), 100);
}

#[test]
fn pairing_session_removal() {
    let mut t = PairingSessions::new();
    t.insert(PairingSession::new(dev("a"), "111111".into(), 100));
    t.remove(&dev("a"));
    t.remove(&dev("zz"));
    assert!(matches!(t.confirm(&dev("a"), "111111", 10), Err(DomainError::NotFound(_))));
}

#[test]
fn plain_relative_paths_refused_only_for_parent_segments() {
    assert!(HttpSyncFlow::validate_relative_path("").is_ok());
    assert!(HttpSyncFlow::validate_relative_path("a/..b/c").is_ok());
    assert!(HttpSyncFlow::validate_relative_path("./a/b").is_ok());
    match HttpSyncFlow::validate_relative_path("a/../b") {
        Err(DomainError::PermissionDenied(m)) => assert_eq!(m, "path traversal denied: a/../b"),
        _ => panic!("expected a traversal refusal"),
    }
    match HttpSyncFlow::validate_relative_path("a/..") {
        Err(DomainError::PermissionDenied(m)) => assert_eq!(m, "path traversal denied: a/.."),
        _ => panic!("expected a traversal refusal"),
    }
    assert!(HttpSyncFlow::validate_relative_path("/srv/x").is_err());
}

#[test]
fn plans_naming_escaping_paths_are_refused() {
    let ok = SyncPlan {
        to_pull: vec![action(entry("s", "docs/a.txt", 1, None, "p"))],
        to_push: vec![action(entry("s", "b.txt", 1, None, "p"))],
        conflicts: vec![],
        unchanged: vec![],
    };
    assert!(HttpSyncFlow::validate_plan(&ok).is_ok());
    let bad_push = SyncPlan {
        to_pull: vec![action(entry("s", "docs/a.txt", 1, None, "p"))],
        to_push: vec![action(entry("s", "../b.txt", 1, None, "p"))],
        conflicts: vec![],
        unchanged: vec![],
    };
    match HttpSyncFlow::validate_plan(&bad_push) {
        Err(DomainError::PermissionDenied(m)) => assert_eq!(m, "path traversal denied: ../b.txt"),
        _ => panic!("expected a refusal"),
    }
    let bad_copy = SyncPlan {
        to_pull: vec![],
        to_push: vec![],
        conflicts: vec![SyncConflict {
            path: "n.txt".into(),
            local: entry("s", "n.txt", 1, None, "a"),
            remote: entry("s", "n.txt", 1, None, "b"),
            resolution: ConflictResolution::KeepBoth { conflict_copy_path: "/tmp/n.txt".into() },
        }],
        unchanged: vec![],
    };
    assert!(HttpSyncFlow::validate_plan(&bad_copy).is_err());
}

#[test]
fn chunk_steps_visit_each_missing_chunk_in_order() {
    let files = vec![
        FileRequest { file_path: "big".into(), file_size: 300_000, sha256: String::new() },
        FileRequest { file_path: "small".into(), file_size: 10, sha256: String::new() },
    ];
    let job = TransferJob::create_from_files(TransferType::Send, dev("peer"), files);
    assert_eq!(job.items[0].chunk_manifest.chunks.len(), 3);
    let floors = vec![1u32, 0u32];
    let mut from = (0usize, 0usize);
    let mut seen = Vec::new();
    while let Some((i, k)) = TransferAppService::next_chunk(&job.items, &floors, from.0, from.1) {
        seen.push((i, k));
        from = (i, k + 1);
    }
    assert_eq!(seen, vec![(0, 1), (0, 2), (1, 0)]);
    assert_eq!(TransferAppService::next_chunk(&job.items, &vec![3, 1], 0, 0), None);
}

#[test]
fn paths_climbing_through_odd_names_are_refused() {
    match HttpSyncFlow::validate_relative_path("x:y/../../etc") {
        Err(DomainError::PermissionDenied(m)) => assert_eq!(m, "path traversal denied: x:y/../../etc"),
        other => panic!("expected a refusal, got {:?}", other.is_ok()),
    }
    let plan = SyncPlan {
        to_pull: vec![action(entry("s", "ok.txt", 1, None, "p")), action(entry("s", "a\\b/../../c", 1, None, "p"))],
        to_push: vec![],
        conflicts: vec![],
        unchanged: vec![],
    };
    assert!(HttpSyncFlow::validate_plan(&plan).is_err());
}

#[test]
fn chunk_outcomes_decide_the_next_step() {
    let job = TransferAppService::activate(send_job()).unwrap();
    let item = job.items[0].clone();
    match TransferAppService::after_chunk(job.clone(), &item, 0, ChunkOutcome::Moved).unwrap() {
        ChunkVerdict::Recorded { job: j, progress } => {
            assert_eq!(j.items[0].chunks_done, 1);
            assert_eq!(progress.chunks_done, 1);
            assert_eq!(progress.bytes_done, 131_072);
        }
        _ => panic!("expected the chunk to be recorded"),
    }
    assert!(matches!(
        TransferAppService::after_chunk(job.clone(), &item, 0, ChunkOutcome::LinkFailed).unwrap(),
        ChunkVerdict::Failed { error: TransferError::ConnectionLost, .. }
    ));
    assert!(matches!(
        TransferAppService::after_chunk(job, &item, 0, ChunkOutcome::Corrupt).unwrap(),
        ChunkVerdict::Failed { error: TransferError::VerificationFailed, .. }
    ));
    assert!(TransferAppService::after_chunk(send_job(), &item, 0, ChunkOutcome::Moved).is_err());
}

#[test]
fn start_up_recovery_plan() {
    let active = TransferAppService::activate(send_job()).unwrap();
    let stale = send_job();
    let done = send_job().cancel().unwrap();
    let plan = plan_recovery(vec![active, stale, done], 100 + 3601);
    assert_eq!((plan.recovered, plan.cancelled), (1, 1));
    assert_eq!(plan.updated.len(), 2);
    assert!(matches!(plan.updated[0].state, TransferState::Paused { checkpoint: None }));
    assert!(matches!(plan.updated[1].state, TransferState::Cancelled));
    assert_eq!(plan.details.as_deref(), Some("recovered=1, cancelled=1"));
    let quiet = plan_recovery(vec![send_job()], 100);
    assert!(quiet.updated.is_empty() && quiet.details.is_none());
}

#[test]
fn only_losing_authors_of_conflicts_must_be_cuttable() {
    let odd = entry("s", "f", 1, None, "abcdefg\u{e9}");
    assert!(!index_shortenable(&[odd.clone()]));
    assert!(plan_resolvable(&[odd.clone()], &[entry("s", "g", 1, None, "zzz")]));
    assert!(!plan_resolvable(&[odd.clone()], &[entry("s", "f", 1, None, "zzz")]));
    assert!(plan_resolvable(&[odd], &[entry("s", "f", 1, None, "aaa")]));
}
