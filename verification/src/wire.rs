use vstd::prelude::*;
use crate::model::file_entry::{ConflictResolution, ConflictResolutionView, EntryType};
use crate::model::share::{SharePermission, ShareStatus, SyncMode};
use crate::model::transfer::{TransferState, TransferType};
use crate::text::{str_eq, strip_char_prefix};

verus! {

/// The stored name of a sync mode.
pub open spec fn sync_mode_name(m: SyncMode) -> Seq<char> {
    match m {
        SyncMode::TwoWay => "two_way"@,
        SyncMode::SendOnly => "send_only"@,
        SyncMode::ReceiveOnly => "receive_only"@,
    }
}

/// The sync mode a stored name stands for; any unknown name is TwoWay.
pub open spec fn sync_mode_parse(s: Seq<char>) -> SyncMode {
    if s == "send_only"@ {
        SyncMode::SendOnly
    } else if s == "receive_only"@ {
        SyncMode::ReceiveOnly
    } else {
        SyncMode::TwoWay
    }
}

pub fn sync_mode_to_str(m: SyncMode) -> (res: &'static str)
    ensures
        res@ == sync_mode_name(m),
{
    match m {
        SyncMode::TwoWay => "two_way",
        SyncMode::SendOnly => "send_only",
        SyncMode::ReceiveOnly => "receive_only",
    }
}

pub fn sync_mode_from_str(s: &str) -> (res: SyncMode)
    ensures
        res == sync_mode_parse(s@),
{
    if str_eq(s, "send_only") {
        SyncMode::SendOnly
    } else if str_eq(s, "receive_only") {
        SyncMode::ReceiveOnly
    } else {
        SyncMode::TwoWay
    }
}

/// Reading back a stored sync mode gives the mode that was stored.
pub proof fn lemma_sync_mode_round_trip(m: SyncMode)
    ensures
        sync_mode_parse(sync_mode_name(m)) == m,
{
    reveal_strlit("two_way");
    reveal_strlit("send_only");
    reveal_strlit("receive_only");
    assert("two_way"@.len() == 7 && "send_only"@.len() == 9 && "receive_only"@.len() == 12);
}

/// The wire and stored name of a permission.
pub open spec fn permission_name(p: SharePermission) -> Seq<char> {
    match p {
        SharePermission::ReadOnly => "read_only"@,
        SharePermission::ReadWrite => "read_write"@,
        SharePermission::SendOnly => "send_only"@,
        SharePermission::ReceiveOnly => "receive_only"@,
    }
}

/// The permission a name stands for; any unknown name is ReadWrite.
pub open spec fn permission_parse(s: Seq<char>) -> SharePermission {
    if s == "read_only"@ {
        SharePermission::ReadOnly
    } else if s == "send_only"@ {
        SharePermission::SendOnly
    } else if s == "receive_only"@ {
        SharePermission::ReceiveOnly
    } else {
        SharePermission::ReadWrite
    }
}

pub fn permission_to_str(p: SharePermission) -> (res: &'static str)
    ensures
        res@ == permission_name(p),
{
    match p {
        SharePermission::ReadOnly => "read_only",
        SharePermission::ReadWrite => "read_write",
        SharePermission::SendOnly => "send_only",
        SharePermission::ReceiveOnly => "receive_only",
    }
}

pub fn permission_from_str(s: &str) -> (res: SharePermission)
    ensures
        res == permission_parse(s@),
{
    if str_eq(s, "read_only") {
        SharePermission::ReadOnly
    } else if str_eq(s, "send_only") {
        SharePermission::SendOnly
    } else if str_eq(s, "receive_only") {
        SharePermission::ReceiveOnly
    } else {
        SharePermission::ReadWrite
    }
}

/// A permission sent by name is read back as the same permission.
pub proof fn lemma_permission_round_trip(p: SharePermission)
    ensures
        permission_parse(permission_name(p)) == p,
{
    reveal_strlit("read_only");
    reveal_strlit("read_write");
    reveal_strlit("send_only");
    reveal_strlit("receive_only");
    assert("read_only"@.len() == 9 && "read_write"@.len() == 10 && "send_only"@.len() == 9);
    assert("receive_only"@.len() == 12);
    assert("read_only"@[0] != "send_only"@[0]);
}

/// The stored text of a share status.
pub open spec fn status_text(s: ShareStatus) -> Seq<char> {
    match s {
        ShareStatus::Active => "active"@,
        ShareStatus::Paused => "paused"@,
        ShareStatus::Error(e) => "error:"@ + e@,
    }
}

/// Whether `r` is what the stored text `t` reads back as: `active` and
/// `paused` are those states, `error:` followed by a message is that error,
/// and any other text is the error "Unknown status".
pub open spec fn status_read_as(t: Seq<char>, r: ShareStatus) -> bool {
    if t == "active"@ {
        r == ShareStatus::Active
    } else if t == "paused"@ {
        r == ShareStatus::Paused
    } else if 6 <= t.len() && t.subrange(0, 6) == "error:"@ {
        r matches ShareStatus::Error(e) && e@ == t.subrange(6, t.len() as int)
    } else {
        r matches ShareStatus::Error(e) && e@ == "Unknown status"@
    }
}

/// Two statuses with the same state and the same message text.
pub open spec fn same_status(a: ShareStatus, b: ShareStatus) -> bool {
    match (a, b) {
        (ShareStatus::Error(x), ShareStatus::Error(y)) => x@ == y@,
        _ => a == b,
    }
}

pub fn share_status_to_string(s: &ShareStatus) -> (res: String)
    ensures
        res@ == status_text(*s),
{
    match s {
        ShareStatus::Active => "active".to_string(),
        ShareStatus::Paused => "paused".to_string(),
        ShareStatus::Error(e) => {
            let mut t = "error:".to_string();
            t.append(e.as_str());
            t
        },
    }
}

pub fn share_status_from_str(t: &str) -> (res: ShareStatus)
    ensures
        status_read_as(t@, res),
{
    proof {
        reveal_strlit("error:");
    }
    if str_eq(t, "active") {
        ShareStatus::Active
    } else if str_eq(t, "paused") {
        ShareStatus::Paused
    } else {
        match strip_char_prefix(t, "error:") {
            Some(rest) => ShareStatus::Error(rest.to_string()),
            None => ShareStatus::Error("Unknown status".to_string()),
        }
    }
}

/// Reading back a stored share status gives the status that was stored,
/// error message included.
pub proof fn lemma_status_round_trip(s: ShareStatus, r: ShareStatus)
    requires
        status_read_as(status_text(s), r),
    ensures
        same_status(r, s),
{
    reveal_strlit("active");
    reveal_strlit("paused");
    reveal_strlit("error:");
    match s {
        ShareStatus::Error(e) => {
            let t = status_text(s);
            assert(t[0] == 'e');
            assert(t[0] != "active"@[0]);
            assert(t[0] != "paused"@[0]);
            assert("active"@[0] == 'a');
            assert("paused"@[0] == 'p');
            assert(t.subrange(0, 6) =~= "error:"@);
            assert(t.subrange(6, t.len() as int) =~= e@);
        },
        _ => {
            assert("active"@.len() == 6 && "paused"@.len() == 6);
            assert("active"@[0] != "paused"@[0]);
        },
    }
}

/// The stored name of a transfer type.
pub open spec fn transfer_type_name(t: TransferType) -> Seq<char> {
    match t {
        TransferType::Send => "Send"@,
        TransferType::Receive => "Receive"@,
        TransferType::SyncPull => "SyncPull"@,
        TransferType::SyncPush => "SyncPush"@,
    }
}

/// The transfer type a stored name stands for; any unknown name is Send.
pub open spec fn transfer_type_parse(s: Seq<char>) -> TransferType {
    if s == "Receive"@ {
        TransferType::Receive
    } else if s == "SyncPull"@ {
        TransferType::SyncPull
    } else if s == "SyncPush"@ {
        TransferType::SyncPush
    } else {
        TransferType::Send
    }
}

pub fn transfer_type_to_str(t: TransferType) -> (res: &'static str)
    ensures
        res@ == transfer_type_name(t),
{
    match t {
        TransferType::Send => "Send",
        TransferType::Receive => "Receive",
        TransferType::SyncPull => "SyncPull",
        TransferType::SyncPush => "SyncPush",
    }
}

pub fn transfer_type_from_str(s: &str) -> (res: TransferType)
    ensures
        res == transfer_type_parse(s@),
{
    if str_eq(s, "Receive") {
        TransferType::Receive
    } else if str_eq(s, "SyncPull") {
        TransferType::SyncPull
    } else if str_eq(s, "SyncPush") {
        TransferType::SyncPush
    } else {
        TransferType::Send
    }
}

/// Reading back a stored transfer type gives the type that was stored.
pub proof fn lemma_transfer_type_round_trip(t: TransferType)
    ensures
        transfer_type_parse(transfer_type_name(t)) == t,
{
    reveal_strlit("Send");
    reveal_strlit("Receive");
    reveal_strlit("SyncPull");
    reveal_strlit("SyncPush");
    assert("Send"@.len() == 4 && "Receive"@.len() == 7 && "SyncPull"@.len() == 8 && "SyncPush"@.len() == 8);
    assert("SyncPull"@[6] != "SyncPush"@[6]);
}

/// The status column kept beside a stored transfer job.
pub open spec fn transfer_status_label(s: TransferState) -> Seq<char> {
    match s {
        TransferState::Pending => "pending"@,
        TransferState::Active { .. } => "active"@,
        TransferState::Paused { .. } => "paused"@,
        TransferState::Verifying => "verifying"@,
        TransferState::Completed { .. } => "completed"@,
        TransferState::Failed { .. } => "failed"@,
        TransferState::Cancelled => "cancelled"@,
    }
}

pub fn transfer_status_to_str(s: &TransferState) -> (res: &'static str)
    ensures
        res@ == transfer_status_label(*s),
{
    match s {
        TransferState::Pending => "pending",
        TransferState::Active { .. } => "active",
        TransferState::Paused { .. } => "paused",
        TransferState::Verifying => "verifying",
        TransferState::Completed { .. } => "completed",
        TransferState::Failed { .. } => "failed",
        TransferState::Cancelled => "cancelled",
    }
}

/// The stored name of an entry type.
pub open spec fn entry_type_name(t: EntryType) -> Seq<char> {
    match t {
        EntryType::File => "file"@,
        EntryType::Directory => "directory"@,
        EntryType::Symlink => "symlink"@,
    }
}

/// The entry type a stored name stands for; any unknown name is File.
pub open spec fn entry_type_parse(s: Seq<char>) -> EntryType {
    if s == "directory"@ {
        EntryType::Directory
    } else if s == "symlink"@ {
        EntryType::Symlink
    } else {
        EntryType::File
    }
}

pub fn entry_type_to_str(t: EntryType) -> (res: &'static str)
    ensures
        res@ == entry_type_name(t),
{
    match t {
        EntryType::File => "file",
        EntryType::Directory => "directory",
        EntryType::Symlink => "symlink",
    }
}

pub fn entry_type_from_str(s: &str) -> (res: EntryType)
    ensures
        res == entry_type_parse(s@),
{
    if str_eq(s, "directory") {
        EntryType::Directory
    } else if str_eq(s, "symlink") {
        EntryType::Symlink
    } else {
        EntryType::File
    }
}

/// Reading back a stored entry type gives the type that was stored.
pub proof fn lemma_entry_type_round_trip(t: EntryType)
    ensures
        entry_type_parse(entry_type_name(t)) == t,
{
    reveal_strlit("file");
    reveal_strlit("directory");
    reveal_strlit("symlink");
    assert("file"@.len() == 4 && "directory"@.len() == 9 && "symlink"@.len() == 7);
}

/// The text of an optional string field.
pub open spec fn field_text(o: Option<&str>) -> Option<Seq<char>> {
    match o {
        Some(t) => Some(t@),
        None => None,
    }
}

/// A stored resolution read from its JSON fields `type` and
/// `conflict_copy_path`: an unknown or missing type is Pending, and a
/// KeepBoth without a path keeps an empty one.
pub open spec fn resolution_decode(tag: Option<Seq<char>>, path: Option<Seq<char>>) -> ConflictResolutionView {
    match tag {
        Some(t) => if t == "keep_local"@ {
            ConflictResolutionView::KeepLocal
        } else if t == "keep_remote"@ {
            ConflictResolutionView::KeepRemote
        } else if t == "keep_both"@ {
            ConflictResolutionView::KeepBoth {
                conflict_copy_path: match path {
                    Some(p) => p,
                    None => Seq::empty(),
                },
            }
        } else {
            ConflictResolutionView::Pending
        },
        None => ConflictResolutionView::Pending,
    }
}

/// A resolution stored as a bare name, from before it was stored as JSON.
pub open spec fn resolution_decode_plain(s: Seq<char>) -> ConflictResolutionView {
    if s == "keep_local"@ {
        ConflictResolutionView::KeepLocal
    } else if s == "keep_remote"@ {
        ConflictResolutionView::KeepRemote
    } else {
        ConflictResolutionView::Pending
    }
}

/// The resolution that the fields of a stored JSON object stand for.
pub fn resolution_from_fields(type_tag: Option<&str>, copy_path: Option<&str>) -> (res: ConflictResolution)
    ensures
        res@ == resolution_decode(field_text(type_tag), field_text(copy_path)),
{
    match type_tag {
        Some(t) => {
            if str_eq(t, "keep_local") {
                ConflictResolution::KeepLocal
            } else if str_eq(t, "keep_remote") {
                ConflictResolution::KeepRemote
            } else if str_eq(t, "keep_both") {
                let path = match copy_path {
                    Some(p) => p.to_string(),
                    None => String::new(),
                };
                ConflictResolution::KeepBoth { conflict_copy_path: path }
            } else {
                ConflictResolution::Pending
            }
        },
        None => ConflictResolution::Pending,
    }
}

/// The resolution a stored text that is not JSON stands for.
pub fn resolution_from_plain(s: &str) -> (res: ConflictResolution)
    ensures
        res@ == resolution_decode_plain(s@),
{
    if str_eq(s, "keep_local") {
        ConflictResolution::KeepLocal
    } else if str_eq(s, "keep_remote") {
        ConflictResolution::KeepRemote
    } else {
        ConflictResolution::Pending
    }
}

} // verus!
