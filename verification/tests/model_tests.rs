use kfilesync::error::DomainError;
use kfilesync::model::device::{Certificate, DeviceId, DeviceState, DiscoveredData, PairedData};
use kfilesync::model::file_entry::{BlockInfo, BlockList, EntryType, FileEntry};
use kfilesync::model::pairing::{format_pin, generate_pin, session_expiry, session_is_live, PairingSession};
use kfilesync::model::share::{Share, ShareId, SharePermission, ShareStatus, SyncMode};
use kfilesync::model::transfer::{
    build_chunks, FileId, FileRequest, JobId, TransferError, TransferItemStatus, TransferJob, TransferState,
    TransferType,
};
use kfilesync::model::version::VersionVector;

fn dev(s: &str) -> DeviceId {
    DeviceId(s.to_string())
}

fn vv(pairs: &[(&str, u64)]) -> VersionVector {
    let mut v = VersionVector::new();
    for (d, n) in pairs {
        v.set(dev(d), *n);
    }
    v
}

#[test]
fn version_vector_increment_counts_per_device() {
    let v = VersionVector::new().increment(&dev("a")).increment(&dev("a")).increment(&dev("b"));
    assert_eq!(v.get(&dev("a")), 2);
    assert_eq!(v.get(&dev("b")), 1);
    assert_eq!(v.get(&dev("c")), 0);
}

#[test]
fn version_vector_ancestry_and_conflict() {
    let a = vv(&[("x", 1)]);
    let b = vv(&[("x", 2), ("y", 1)]);
    let c = vv(&[("y", 3)]);
    assert!(a.is_ancestor_of(&b));
    assert!(!b.is_ancestor_of(&a));
    assert!(a.is_ancestor_of(&a));
    assert!(!a.conflicts_with(&b));
    assert!(a.conflicts_with(&c));
    assert!(c.conflicts_with(&a));
}

#[test]
fn version_vector_merge_takes_maximum() {
    let a = vv(&[("x", 3), ("y", 1)]);
    let b = vv(&[("y", 5), ("z", 2)]);
    let m = a.merge(&b);
    assert_eq!(m.get(&dev("x")), 3);
    assert_eq!(m.get(&dev("y")), 5);
    assert_eq!(m.get(&dev("z")), 2);
    assert!(a.is_ancestor_of(&m));
    assert!(b.is_ancestor_of(&m));
    let m2 = b.merge(&a);
    assert!(m.is_ancestor_of(&m2) && m2.is_ancestor_of(&m));
}

#[test]
fn version_vector_from_entries_later_pair_wins() {
    let v = VersionVector::from_entries(vec![(dev("a"), 1), (dev("a"), 7)]);
    assert_eq!(v.get(&dev("a")), 7);
    assert_eq!(v.entries().len(), 1);
}

#[test]
fn share_create_has_creator_as_read_write_member() {
    let s = Share::create_at(ShareId("s1".into()), "Docs".into(), "/tmp/docs".into(), SyncMode::TwoWay, dev("me"), 10);
    assert!(s.has_member(&dev("me")));
    assert_eq!(s.get_permission(&dev("me")), Some(SharePermission::ReadWrite));
    assert_eq!(s.members.len(), 1);
    assert!(matches!(s.status, ShareStatus::Active));
}

#[test]
fn share_authorize_then_remove_restores_members() {
    let s = Share::create_at(ShareId("s1".into()), "Docs".into(), "/p".into(), SyncMode::TwoWay, dev("me"), 10);
    let s = s.authorize_member_at(dev("peer"), SharePermission::ReadOnly, dev("me"), 11).unwrap();
    assert_eq!(s.get_permission(&dev("peer")), Some(SharePermission::ReadOnly));
    let s = s.remove_member(&dev("peer")).unwrap();
    assert_eq!(s.members.len(), 1);
    assert!(!s.has_member(&dev("peer")));
    assert!(s.has_member(&dev("me")));
}

#[test]
fn share_authorize_twice_is_error() {
    let s = Share::create_at(ShareId("s1".into()), "Docs".into(), "/p".into(), SyncMode::TwoWay, dev("me"), 10);
    match s.authorize_member(dev("me"), SharePermission::ReadOnly, dev("me")) {
        Err(DomainError::BusinessRuleViolation(m)) => assert_eq!(m, "Device me is already a member"),
        _ => panic!("expected a business rule violation"),
    }
}

#[test]
fn share_cannot_remove_creator_or_stranger() {
    let s = Share::create_at(ShareId("s1".into()), "Docs".into(), "/p".into(), SyncMode::TwoWay, dev("me"), 10);
    match s.remove_member(&dev("me")) {
        Err(DomainError::BusinessRuleViolation(m)) => assert_eq!(m, "Cannot remove the creator of the share"),
        _ => panic!("creator removal must fail"),
    }
    let s = Share::create_at(ShareId("s1".into()), "Docs".into(), "/p".into(), SyncMode::TwoWay, dev("me"), 10);
    match s.remove_member(&dev("ghost")) {
        Err(DomainError::BusinessRuleViolation(m)) => assert_eq!(m, "Device ghost is not a member"),
        _ => panic!("stranger removal must fail"),
    }
}

#[test]
fn share_update_permission_and_pause_resume() {
    let s = Share::create_at(ShareId("s1".into()), "Docs".into(), "/p".into(), SyncMode::TwoWay, dev("me"), 10);
    let s = s.authorize_member_at(dev("peer"), SharePermission::ReadOnly, dev("me"), 11).unwrap();
    let s = s.update_permission(&dev("peer"), SharePermission::SendOnly).unwrap();
    assert_eq!(s.get_permission(&dev("peer")), Some(SharePermission::SendOnly));
    assert!(matches!(s.update_permission(&dev("nobody"), SharePermission::ReadOnly), Err(DomainError::BusinessRuleViolation(_))));
    let s = Share::create_at(ShareId("s1".into()), "Docs".into(), "/p".into(), SyncMode::TwoWay, dev("me"), 10);
    let s = s.pause().unwrap();
    assert!(matches!(s.status, ShareStatus::Paused));
    let s = s.resume().unwrap();
    assert!(matches!(s.status, ShareStatus::Active));
    assert!(matches!(s.resume(), Err(DomainError::InvalidStateTransition("Share must be Paused to resume"))));
}

#[test]
fn permission_rights() {
    assert!(SharePermission::ReadWrite.can_push() && SharePermission::ReadWrite.can_pull());
    assert!(!SharePermission::ReadOnly.can_push() && SharePermission::ReadOnly.can_pull());
    assert!(SharePermission::SendOnly.can_push() && !SharePermission::SendOnly.can_pull());
    assert!(!SharePermission::ReceiveOnly.can_push() && SharePermission::ReceiveOnly.can_pull());
}

#[test]
fn file_entry_life_cycle() {
    let e = FileEntry::new_at(ShareId("s".into()), "a.txt".into(), EntryType::File, &dev("d1"), 100);
    assert_eq!(e.version.get(&dev("d1")), 1);
    assert_eq!(e.size, 0);
    let blocks = BlockList(vec![BlockInfo { index: 0, size: 5, hash: "h".into() }]);
    let e = e.update_content_at(5, "sha".into(), blocks, &dev("d2"), 200);
    assert_eq!(e.size, 5);
    assert_eq!(e.modified_at, 200);
    assert_eq!(e.version.get(&dev("d2")), 1);
    assert_eq!(e.sha256.as_deref(), Some("sha"));
    let e = e.mark_deleted_at(&dev("d2"), 300);
    assert!(e.deleted);
    assert_eq!(e.deleted_at, Some(300));
    assert_eq!(e.version.get(&dev("d2")), 2);
}

#[test]
fn file_entry_apply_remote_version_merges() {
    let local = FileEntry::new_at(ShareId("s".into()), "a".into(), EntryType::File, &dev("d1"), 1);
    let remote = FileEntry::new_at(ShareId("s".into()), "a".into(), EntryType::File, &dev("d2"), 2);
    let merged = local.apply_remote_version(&remote);
    assert_eq!(merged.version.get(&dev("d1")), 1);
    assert_eq!(merged.version.get(&dev("d2")), 1);
    assert_eq!(merged.modified_at, 1);
}

#[test]
fn device_state_pairing_and_revoke() {
    let st = DeviceState::Discovered(DiscoveredData { alias: "Bob".into(), address: "10.0.0.2".into() });
    let paired = st.confirm_pairing(Certificate::mock("c"), 50).unwrap();
    match &paired {
        DeviceState::Paired(PairedData { paired_at, alias, .. }) => {
            assert_eq!(*paired_at, 50);
            assert_eq!(alias, "Bob");
        }
        _ => panic!("expected paired"),
    }
    let revoked = paired.revoke(60).unwrap();
    assert!(matches!(revoked, DeviceState::Revoked(_)));
    assert!(matches!(revoked.confirm_pairing(Certificate::mock("c"), 70), Err(DomainError::InvalidStateTransition(_))));
}

#[test]
fn certificate_requires_pem_header() {
    assert!(Certificate::from_pem("  -----BEGIN CERTIFICATE-----\nabc".into()).is_ok());
    match Certificate::from_pem("garbage".into()) {
        Err(DomainError::BusinessRuleViolation(m)) => {
            assert_eq!(m, "Certificate must be a valid PEM-encoded string starting with '-----BEGIN'")
        }
        _ => panic!("expected rejection"),
    }
}

#[test]
fn pairing_session_verify() {
    let s = PairingSession::new(dev("t"), "123456".into(), 100);
    assert!(s.verify("123456", 100).is_ok());
    assert!(matches!(s.verify("000000", 100), Err(DomainError::InvalidPinCode)));
    assert!(matches!(s.verify("123456", 101), Err(DomainError::SessionExpired)));
    assert!(session_is_live(&s, 99));
    assert!(!session_is_live(&s, 100));
    assert_eq!(session_expiry(1000), 1300);
}

#[test]
fn pin_is_six_digits() {
    assert_eq!(format_pin(42), "000042");
    assert_eq!(format_pin(999_999), "999999");
    let p = generate_pin();
    assert_eq!(p.len(), 6);
    assert!(p.chars().all(|c| c.is_ascii_digit()));
}

#[test]
fn chunk_layout_small_and_chunked() {
    let one = build_chunks(1000, 0);
    assert_eq!(one.len(), 1);
    assert_eq!(one[0].size, 1000);
    let many = build_chunks(10, 4);
    assert_eq!(many.len(), 3);
    assert_eq!((many[2].offset, many[2].size), (8, 2));
    assert!(build_chunks(0, 4).is_empty());
}

fn sample_job() -> TransferJob {
    let files = vec![
        FileRequest { file_path: "a".into(), file_size: 300_000, sha256: String::new() },
        FileRequest { file_path: "b".into(), file_size: 10, sha256: "x".into() },
    ];
    TransferJob::from_files_with(
        TransferType::Send,
        dev("peer"),
        files,
        JobId("job".into()),
        "sess".into(),
        vec![FileId("f1".into()), FileId("f2".into())],
        5,
    )
}

#[test]
fn transfer_job_chunks_per_file_size() {
    let j = sample_job();
    assert_eq!(j.items[0].chunk_manifest.chunk_size, 131_072);
    assert_eq!(j.items[0].chunk_manifest.chunks.len(), 3);
    assert_eq!(j.items[1].chunk_manifest.chunk_size, 0);
    assert_eq!(j.items[1].chunk_manifest.chunks.len(), 1);
    assert!(matches!(j.state, TransferState::Pending));
}

#[test]
fn transfer_job_full_life_cycle() {
    let j = sample_job().accept_at(10).unwrap();
    assert!(matches!(j.state, TransferState::Active { started_at: 10 }));
    let j = j.record_chunk_done(&FileId("f1".into()), 0).unwrap();
    assert_eq!(j.items[0].chunks_done, 1);
    assert_eq!(j.items[0].status, TransferItemStatus::Transferring);
    let j = j.record_chunk_done(&FileId("f1".into()), 2).unwrap();
    assert_eq!(j.items[0].status, TransferItemStatus::Verifying);
    assert!(matches!(j.state, TransferState::Active { .. }));
    let j = j.record_chunk_done(&FileId("f2".into()), 0).unwrap();
    assert!(matches!(j.state, TransferState::Verifying));
    let j = j.complete_at(99).unwrap();
    assert!(matches!(j.state, TransferState::Completed { completed_at: 99 }));
    let p = j.progress();
    assert_eq!(p.total_bytes, 300_010);
    assert_eq!(p.transferred_bytes, 300_010);
    assert_eq!(p.completed_files, 2);
    assert_eq!(p.total_files, 2);
}

#[test]
fn transfer_progress_partial() {
    let j = sample_job().accept_at(1).unwrap().record_chunk_done(&FileId("f1".into()), 0).unwrap();
    let p = j.progress();
    assert_eq!(p.transferred_bytes, 131_072);
    assert_eq!(p.completed_files, 0);
}

#[test]
fn transfer_invalid_transitions() {
    let j = sample_job();
    let j = j.complete().unwrap_err();
    assert!(matches!(j, DomainError::InvalidStateTransition("Job must be in Verifying state to be completed")));
    assert!(matches!(sample_job().pause(None), Err(DomainError::InvalidStateTransition("Only Active jobs can be paused"))));
    assert!(matches!(sample_job().resume(), Err(DomainError::InvalidStateTransition("Only Paused jobs can be resumed"))));
    assert!(matches!(sample_job().record_chunk_done(&FileId("f1".into()), 0), Err(DomainError::InvalidStateTransition(_))));
    assert!(matches!(sample_job().fail(TransferError::Timeout), Err(DomainError::InvalidStateTransition(_))));
}

#[test]
fn transfer_fail_counts_retries_and_cancel_always_works() {
    let j = sample_job().accept_at(1).unwrap().fail(TransferError::ConnectionLost).unwrap();
    assert!(matches!(j.state, TransferState::Failed { retries: 0, .. }));
    let j = j.fail(TransferError::Timeout).unwrap();
    assert!(matches!(j.state, TransferState::Failed { retries: 1, .. }));
    let j = j.cancel().unwrap();
    assert!(matches!(j.state, TransferState::Cancelled));
    let j = sample_job().accept_at(1).unwrap().pause(None).unwrap().resume_at(7).unwrap();
    assert!(matches!(j.state, TransferState::Active { started_at: 7 }));
    let j = j.begin_verify().unwrap();
    assert!(matches!(j.state, TransferState::Verifying));
}

#[test]
fn create_from_files_gives_fresh_ids() {
    let files = vec![FileRequest { file_path: "a".into(), file_size: 1, sha256: String::new() }];
    let a = TransferJob::create_from_files(TransferType::SyncPull, dev("p"), files.clone());
    let b = TransferJob::create_from_files(TransferType::SyncPull, dev("p"), files);
    assert_ne!(a.job_id.0, b.job_id.0);
    assert_eq!(a.job_id.0.len(), 36);
    assert_eq!(a.items.len(), 1);
}

#[test]
fn certificate_header_may_follow_unicode_white_space() {
    assert!(Certificate::from_pem("\u{3000}\t\n\u{2028}-----BEGIN CERTIFICATE-----".into()).is_ok());
    assert!(Certificate::from_pem("\u{200b}-----BEGIN CERTIFICATE-----".into()).is_err());
    assert!(Certificate::from_pem("".into()).is_err());
}

#[test]
fn stored_version_vector_keeps_the_last_counter_of_each_device() {
    let v = VersionVector::from_entries(vec![(dev("a"), 1), (dev("b"), 2), (dev("a"), 5), (dev("c"), 0)]);
    assert_eq!(v.get(&dev("a")), 5);
    assert_eq!(v.get(&dev("b")), 2);
    assert_eq!(v.get(&dev("c")), 0);
    assert_eq!(v.get(&dev("z")), 0);
    assert_eq!(v.entries().len(), 3);
}
