use vstd::prelude::*;
use vstd::utf8::*;
use chrono::TimeZone;
use vstd::string::StringSliceAdditionalSpecFns;
use crate::model::file_entry::{ConflictResolution, ConflictResolutionView, FileEntry, FileEntryView};
use crate::text::{lemma_text_lt_asymmetric, lemma_text_lt_irreflexive, lemma_text_lt_total, str_lt, text_lt};

verus! {

broadcast use vstd::utf8::encode_utf8_decode_utf8;

/// The file stem of a path (`std::path::Path::file_stem`) as text, `None`
/// when the path has none. Path splitting follows the target platform, fixed
/// when the crate is built, so for a given build this depends on the path
/// alone; the same holds of the two names below.
pub uninterp spec fn path_file_stem_text(path: Seq<char>) -> Option<Seq<char>>;

/// The extension of a path (`std::path::Path::extension`) as text, `None` when it has none.
pub uninterp spec fn path_extension_text(path: Seq<char>) -> Option<Seq<char>>;

/// The parent of a path (`std::path::Path::parent`) as text, `None` when it has none.
pub uninterp spec fn path_parent_text(path: Seq<char>) -> Option<Seq<char>>;

/// The UTC time `secs` seconds after the epoch rendered by chrono's `format`
/// with the given pattern; `None` when chrono has no such time.
pub uninterp spec fn utc_formatted(secs: i64, pattern: Seq<char>) -> Option<Seq<char>>;

/// The text of an optional string.
pub open spec fn opt_text(o: Option<String>) -> Option<Seq<char>> {
    match o {
        Some(s) => Some(s@),
        None => None,
    }
}

/// Optional text, empty when absent.
pub open spec fn or_empty(o: Option<Seq<char>>) -> Seq<char> {
    match o {
        Some(t) => t,
        None => Seq::empty(),
    }
}

/// Calls `std::path::Path::file_stem`; the result is named `path_file_stem_text`.
#[verifier::external_body]
fn file_stem_text(path: &str) -> (res: Option<String>)
    ensures
        opt_text(res) == path_file_stem_text(path@),
{
    std::path::Path::new(path).file_stem().and_then(|s| s.to_str()).map(|s| s.to_string())
}

/// Calls `std::path::Path::extension`; the result is named `path_extension_text`.
#[verifier::external_body]
fn extension_text(path: &str) -> (res: Option<String>)
    ensures
        opt_text(res) == path_extension_text(path@),
{
    std::path::Path::new(path).extension().and_then(|s| s.to_str()).map(|s| s.to_string())
}

/// Calls `std::path::Path::parent`; the result is named `path_parent_text`.
#[verifier::external_body]
fn parent_text(path: &str) -> (res: Option<String>)
    ensures
        opt_text(res) == path_parent_text(path@),
{
    std::path::Path::new(path).parent().and_then(|s| s.to_str()).map(|s| s.to_string())
}

/// Calls chrono's `Utc.timestamp_opt(secs, 0).single()` and, when there is
/// such a time, `format(pattern)`; the result is named `utc_formatted`. The
/// epoch itself is a valid time. Rendering panics on a malformed pattern, so
/// only the two patterns the library uses are admitted.
#[verifier::external_body]
fn utc_format(secs: i64, pattern: &str) -> (res: Option<String>)
    requires
        pattern@ == "%Y%m%d"@ || pattern@ == "%H%M%S"@,
    ensures
        opt_text(res) == utc_formatted(secs, pattern@),
        secs == 0 ==> res is Some,
{
    match chrono::Utc.timestamp_opt(secs, 0).single() {
        Some(dt) => Some(dt.format(pattern).to_string()),
        None => None,
    }
}

/// A timestamp rendered with `pattern`; the timestamp is read as a signed
/// number of seconds, and a time chrono cannot represent renders as the epoch.
pub open spec fn utc_text(timestamp: u64, pattern: Seq<char>) -> Seq<char> {
    match utc_formatted(timestamp as i64, pattern) {
        Some(t) => t,
        None => or_empty(utc_formatted(0, pattern)),
    }
}

/// `utc_text`, computed.
fn render_utc(timestamp: u64, pattern: &str) -> (res: String)
    requires
        pattern@ == "%Y%m%d"@ || pattern@ == "%H%M%S"@,
    ensures
        res@ == utc_text(timestamp, pattern@),
{
    #[verifier::truncate]
    let secs = timestamp as i64;
    match utc_format(secs, pattern) {
        Some(t) => t,
        None => match utc_format(0, pattern) {
            Some(t) => t,
            None => String::new(),
        },
    }
}

/// Optional text, empty when absent, computed.
fn text_or_empty(o: Option<String>) -> (res: String)
    ensures
        res@ == or_empty(opt_text(o)),
{
    match o {
        Some(t) => t,
        None => String::new(),
    }
}

/// A device id is shortened to its first 8 bytes; that cut must fall on a character boundary.
pub open spec fn short_device_ok(device: Seq<char>) -> bool {
    encode_utf8(device).len() > 8 ==> is_char_boundary(encode_utf8(device), 8)
}

/// The first 8 bytes of a device id, or the whole id when it is not longer.
pub open spec fn short_device(device: Seq<char>) -> Seq<char> {
    if encode_utf8(device).len() > 8 {
        decode_utf8(encode_utf8(device).subrange(0, 8))
    } else {
        device
    }
}

/// `<parent>/<stem>.sync-conflict-<YYYYMMDD>-<HHMMSS>-<device8>[.<ext>]`
pub open spec fn conflict_path(path: Seq<char>, timestamp: u64, device: Seq<char>) -> Seq<char> {
    let stem = or_empty(path_file_stem_text(path));
    let ext = or_empty(path_extension_text(path));
    let date = utc_text(timestamp, "%Y%m%d"@);
    let time = utc_text(timestamp, "%H%M%S"@);
    let base = stem + ".sync-conflict-"@ + date + "-"@ + time + "-"@ + short_device(device);
    let name = if ext.len() == 0 {
        base
    } else {
        base + "."@ + ext
    };
    let parent = or_empty(path_parent_text(path));
    if parent.len() == 0 {
        name
    } else {
        parent + "/"@ + name
    }
}

/// The resolution rule: a modification beats a deletion; otherwise the newer
/// side keeps the name and the other becomes a conflict copy; equal times are
/// broken by the larger device id; identical origin keeps the local side.
pub open spec fn spec_resolve(local: FileEntryView, remote: FileEntryView) -> ConflictResolutionView {
    if local.deleted && !remote.deleted {
        ConflictResolutionView::KeepRemote
    } else if !local.deleted && remote.deleted {
        ConflictResolutionView::KeepLocal
    } else if local.deleted && remote.deleted {
        ConflictResolutionView::KeepLocal
    } else if local.modified_at > remote.modified_at {
        ConflictResolutionView::KeepBoth {
            conflict_copy_path: conflict_path(remote.path, remote.modified_at, remote.modified_by),
        }
    } else if remote.modified_at > local.modified_at {
        ConflictResolutionView::KeepBoth {
            conflict_copy_path: conflict_path(local.path, local.modified_at, local.modified_by),
        }
    } else if text_lt(remote.modified_by, local.modified_by) {
        ConflictResolutionView::KeepBoth {
            conflict_copy_path: conflict_path(remote.path, remote.modified_at, remote.modified_by),
        }
    } else if text_lt(local.modified_by, remote.modified_by) {
        ConflictResolutionView::KeepBoth {
            conflict_copy_path: conflict_path(local.path, local.modified_at, local.modified_by),
        }
    } else {
        ConflictResolutionView::KeepLocal
    }
}

/// The device ids that `spec_resolve` shortens can be cut after 8 bytes.
pub open spec fn resolve_ok(local: FileEntryView, remote: FileEntryView) -> bool {
    !local.deleted && !remote.deleted ==> {
        if local.modified_at > remote.modified_at {
            short_device_ok(remote.modified_by)
        } else if remote.modified_at > local.modified_at {
            short_device_ok(local.modified_by)
        } else if text_lt(remote.modified_by, local.modified_by) {
            short_device_ok(remote.modified_by)
        } else if text_lt(local.modified_by, remote.modified_by) {
            short_device_ok(local.modified_by)
        } else {
            true
        }
    }
}

pub struct ConflictResolver;

impl ConflictResolver {
    /// Deterministic resolution of a conflicting pair of entries.
    pub fn resolve(local: &FileEntry, remote: &FileEntry) -> (res: ConflictResolution)
        requires
            resolve_ok(local@, remote@),
        ensures
            res@ == spec_resolve(local@, remote@),
    {
        if local.deleted && !remote.deleted {
            return ConflictResolution::KeepRemote;
        }
        if !local.deleted && remote.deleted {
            return ConflictResolution::KeepLocal;
        }
        if local.deleted && remote.deleted {
            return ConflictResolution::KeepLocal;
        }
        if local.modified_at > remote.modified_at {
            let p = Self::generate_conflict_path(&remote.path, remote.modified_at, &remote.modified_by.0);
            return ConflictResolution::KeepBoth { conflict_copy_path: p };
        } else if remote.modified_at > local.modified_at {
            let p = Self::generate_conflict_path(&local.path, local.modified_at, &local.modified_by.0);
            return ConflictResolution::KeepBoth { conflict_copy_path: p };
        }
        if str_lt(&remote.modified_by.0, &local.modified_by.0) {
            let p = Self::generate_conflict_path(&remote.path, remote.modified_at, &remote.modified_by.0);
            ConflictResolution::KeepBoth { conflict_copy_path: p }
        } else if str_lt(&local.modified_by.0, &remote.modified_by.0) {
            let p = Self::generate_conflict_path(&local.path, local.modified_at, &local.modified_by.0);
            ConflictResolution::KeepBoth { conflict_copy_path: p }
        } else {
            ConflictResolution::KeepLocal
        }
    }

    /// Name of the copy that keeps the losing side of a conflict.
    fn generate_conflict_path(original_path: &str, timestamp: u64, device_id: &str) -> (res: String)
        requires
            short_device_ok(device_id@),
        ensures
            res@ == conflict_path(original_path@, timestamp, device_id@),
    {
        let stem = text_or_empty(file_stem_text(original_path));
        let extension = text_or_empty(extension_text(original_path));
        let date_str = render_utc(timestamp, "%Y%m%d");
        let time_str = render_utc(timestamp, "%H%M%S");
        let device_short: &str = if device_id.as_bytes().len() > 8 {
            let (head, _rest) = device_id.split_at(8);
            assert(head.spec_bytes() == encode_utf8(device_id@).subrange(0, 8));
            assert(head@ == decode_utf8(head.spec_bytes()));
            assert(head@ == short_device(device_id@));
            head
        } else {
            device_id
        };
        let mut name = String::new();
        name.append(stem.as_str());
        name.append(".sync-conflict-");
        name.append(date_str.as_str());
        name.append("-");
        name.append(time_str.as_str());
        name.append("-");
        name.append(device_short);
        if !extension.as_str().is_empty() {
            name.append(".");
            name.append(extension.as_str());
        }
        proof {
            let base = or_empty(path_file_stem_text(original_path@)) + ".sync-conflict-"@ + utc_text(timestamp, "%Y%m%d"@)
                + "-"@ + utc_text(timestamp, "%H%M%S"@) + "-"@ + short_device(device_id@);
            let ext = or_empty(path_extension_text(original_path@));
            assert(device_short@ == short_device(device_id@));
            if ext.len() == 0 {
                assert(name@ =~= base);
            } else {
                assert(name@ =~= base + "."@ + ext);
            }
        }
        let parent = text_or_empty(parent_text(original_path));
        if parent.as_str().is_empty() {
            name
        } else {
            let mut full = String::new();
            full.append(parent.as_str());
            full.append("/");
            full.append(name.as_str());
            assert(full@ =~= parent@ + "/"@ + name@);
            full
        }
    }
}


/// Whether a conflict copy name can be made from `device`: its id can be cut
/// after 8 bytes.
pub fn can_shorten(device: &str) -> (res: bool)
    ensures
        res == short_device_ok(device@),
{
    device.as_bytes().len() <= 8 || device.is_char_boundary(8)
}

/// Between two live entries the older one loses, and at equal times the one
/// with the smaller device id: the loser is kept as a conflict copy named
/// after it and the winner keeps the name. The decision does not depend on
/// which side is local: swapping the entries gives the same conflict copy.
/// Only two entries with the same time and the same author are settled by
/// keeping the local one, without a copy.
pub proof fn lemma_resolution_names_the_loser(l: FileEntryView, r: FileEntryView)
    requires
        !l.deleted,
        !r.deleted,
    ensures
        (spec_resolve(l, r) == ConflictResolutionView::KeepLocal) <==> (l.modified_at == r.modified_at
            && l.modified_by == r.modified_by),
        !(l.modified_at == r.modified_at && l.modified_by == r.modified_by) ==> {
            &&& spec_resolve(l, r) is KeepBoth
            &&& spec_resolve(l, r) == spec_resolve(r, l)
        },
        (l.modified_at < r.modified_at || (l.modified_at == r.modified_at && text_lt(l.modified_by, r.modified_by)))
            ==> spec_resolve(l, r) == (ConflictResolutionView::KeepBoth {
            conflict_copy_path: conflict_path(l.path, l.modified_at, l.modified_by),
        }),
{
    if l.modified_at == r.modified_at {
        if l.modified_by == r.modified_by {
            lemma_text_lt_irreflexive(l.modified_by);
        } else {
            lemma_text_lt_total(l.modified_by, r.modified_by);
            if text_lt(l.modified_by, r.modified_by) {
                lemma_text_lt_asymmetric(l.modified_by, r.modified_by);
            } else {
                lemma_text_lt_asymmetric(r.modified_by, l.modified_by);
            }
        }
    }
}

/// A modification beats a deletion, whichever side made it.
pub proof fn lemma_modification_beats_deletion(l: FileEntryView, r: FileEntryView)
    requires
        l.deleted != r.deleted,
    ensures
        spec_resolve(l, r) == (if l.deleted {
            ConflictResolutionView::KeepRemote
        } else {
            ConflictResolutionView::KeepLocal
        }),
        spec_resolve(r, l) == (if r.deleted {
            ConflictResolutionView::KeepRemote
        } else {
            ConflictResolutionView::KeepLocal
        }),
{
}

} // verus!
