use vstd::prelude::*;
use crate::error::DomainError;
use crate::model::device::DeviceId;
use crate::model::share::{Share, ShareId, SharePermission, ShareStatus, SyncMode};
use crate::ports::ShareInvite;
use crate::wire::{permission_name, permission_to_str};

verus! {

/// Share management on behalf of this device: creating shares and inviting peers.
pub struct ShareAppService {
    pub local_device_id: DeviceId,
}

impl ShareAppService {
    pub fn new(local_device_id: DeviceId) -> (res: Self)
        ensures
            res.local_device_id == local_device_id,
    {
        ShareAppService { local_device_id }
    }

    /// A new share created by this device, whose only member it is.
    pub fn new_share(&self, share_id: String, share_name: String, local_path: String, sync_mode: SyncMode) -> (res: Share)
        ensures
            res.share_id@ == share_id@,
            res.share_name == share_name,
            res.local_path == local_path,
            res.sync_mode == sync_mode,
            res.status == ShareStatus::Active,
            res.created_by == self.local_device_id,
            res.members@.len() == 1,
            res.members@[0].device_id == self.local_device_id,
            res.members@[0].permission == SharePermission::ReadWrite,
    {
        Share::create(ShareId(share_id), share_name, local_path, sync_mode, self.local_device_id.clone())
    }

    /// The invitation sent to a peer for `share` with `permission`, from this device.
    pub fn invite_for(&self, share: &Share, permission: SharePermission) -> (res: ShareInvite)
        ensures
            res.share_id@ == share.share_id@,
            res.share_name == share.share_name,
            res.permission@ == permission_name(permission),
            res.invited_by@ == self.local_device_id@,
    {
        ShareInvite {
            share_id: share.share_id.0.clone(),
            share_name: share.share_name.clone(),
            permission: permission_to_str(permission).to_string(),
            invited_by: self.local_device_id.0.clone(),
        }
    }

    /// The error reported when `peer` turns an invitation down or cannot be reached.
    pub fn invite_rejected(peer: &DeviceId) -> (res: DomainError)
        ensures
            res matches DomainError::Network(m) && m@ == "Peer "@ + peer@ + " rejected the invite"@,
    {
        let mut m = "Peer ".to_string();
        m.append(peer.0.as_str());
        m.append(" rejected the invite");
        DomainError::Network(m)
    }
}

} // verus!
