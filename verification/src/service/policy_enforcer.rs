use vstd::prelude::*;
use crate::error::DomainError;
use crate::model::device::{Device, DeviceId, DeviceState};
use crate::model::share::{Share, ShareId, SyncMode, is_member, permission_of};
use crate::service::specification::{
    AndSpec, IgnoreSpec, PermissionSpec, ShareMemberSpec, Specification, SyncContext, TrustedDeviceSpec,
    gitignore_verdict, ignore_path_ok, spec_permission_allows,
};
pub use crate::service::specification::SyncDirection;

verus! {


/// Whether a paired, member peer may sync the share in `action`'s direction.
pub open spec fn sync_allowed(device: &Device, share: &Share, action: SyncDirection) -> bool {
    &&& device.state is Paired
    &&& is_member(share.members@, device.id@)
    &&& spec_permission_allows(share, device.id@, action == SyncDirection::Push)
}

/// Access decisions for transfers and syncs, given what the repositories hold.
pub struct PolicyEnforcer;

impl PolicyEnforcer {
    pub fn new() -> Self {
        PolicyEnforcer
    }

    /// A transfer with `peer` needs the device (`device`, as looked up) to be known and paired.
    pub fn check_transfer(&self, peer: &DeviceId, device: Option<&Device>) -> (res: Result<(), DomainError>)
        ensures
            match device {
                None => res matches Err(DomainError::DeviceNotFound(s)) && s@ == peer@,
                Some(d) => if d.state is Paired {
                    res is Ok
                } else {
                    res matches Err(DomainError::DeviceNotTrusted(s)) && s@ == peer@
                },
            },
    {
        match device {
            None => Err(DomainError::DeviceNotFound(peer.0.clone())),
            Some(d) => {
                if !matches!(d.state, DeviceState::Paired(_)) {
                    return Err(DomainError::DeviceNotTrusted(peer.0.clone()));
                }
                Ok(())
            },
        }
    }

    /// A sync of `share_id` with `peer` in direction `action`, given the device
    /// and the share as looked up: the device must be known and paired, the
    /// share known, the peer a member, the share's mode must allow the
    /// direction (no pushes into a SendOnly share, no pulls from a ReceiveOnly
    /// one) and so must the peer's permission.
    pub fn check_sync(
        &self,
        peer: &DeviceId,
        share_id: &ShareId,
        action: SyncDirection,
        device: Option<&Device>,
        share: Option<&Share>,
    ) -> (res: Result<(), DomainError>)
        ensures
            res is Ok <==> (device matches Some(d) && share matches Some(s) && sync_allowed(d, s, action)),
            match (device, share) {
                (None, _) => res matches Err(DomainError::DeviceNotFound(m)) && m@ == peer@,
                (Some(d), _) if !(d.state is Paired) => res matches Err(DomainError::DeviceNotTrusted(m)) && m@ == peer@,
                (Some(d), None) => res matches Err(DomainError::ShareNotFound(m)) && m@ == share_id@,
                (Some(d), Some(s)) => if !is_member(s.members@, d.id@) {
                    res matches Err(DomainError::PermissionDenied(m))
                        && m@ == "Device "@ + peer@ + " is not a member of share "@ + share_id@
                } else if s.sync_mode == SyncMode::SendOnly && action == SyncDirection::Push {
                    res matches Err(DomainError::PermissionDenied(m)) && m@ == "Share is SendOnly: peers cannot push"@
                } else if s.sync_mode == SyncMode::ReceiveOnly && action == SyncDirection::Pull {
                    res matches Err(DomainError::PermissionDenied(m)) && m@ == "Share is ReceiveOnly: peers cannot pull"@
                } else if !sync_allowed(d, s, action) {
                    res matches Err(DomainError::PermissionDenied(m)) && m@ == "Sync action "@ + (if action
                        == SyncDirection::Push {
                        "Push"@
                    } else {
                        "Pull"@
                    }) + " denied for device "@ + peer@ + " on share "@ + share_id@ + " "@
                } else {
                    res is Ok
                },
            },
    {
        let d = match device {
            None => {
                return Err(DomainError::DeviceNotFound(peer.0.clone()));
            },
            Some(d) => d,
        };
        if !matches!(d.state, DeviceState::Paired(_)) {
            return Err(DomainError::DeviceNotTrusted(peer.0.clone()));
        }
        let s = match share {
            None => {
                return Err(DomainError::ShareNotFound(share_id.0.clone()));
            },
            Some(s) => s,
        };
        if !s.has_member(&d.id) {
            let mut m = String::new();
            m.append("Device ");
            m.append(peer.0.as_str());
            m.append(" is not a member of share ");
            m.append(share_id.0.as_str());
            assert(m@ =~= "Device "@ + peer@ + " is not a member of share "@ + share_id@);
            return Err(DomainError::PermissionDenied(m));
        }
        match s.sync_mode {
            SyncMode::SendOnly => {
                if action == SyncDirection::Push {
                    return Err(DomainError::PermissionDenied("Share is SendOnly: peers cannot push".to_string()));
                }
            },
            SyncMode::ReceiveOnly => {
                if action == SyncDirection::Pull {
                    return Err(DomainError::PermissionDenied("Share is ReceiveOnly: peers cannot pull".to_string()));
                }
            },
            SyncMode::TwoWay => {},
        }
        match s.get_permission(&d.id) {
            Some(permission) => {
                let allowed = match action {
                    SyncDirection::Push => permission.can_push(),
                    SyncDirection::Pull => permission.can_pull(),
                };
                if !allowed {
                    let mut m = String::new();
                    m.append("Sync action ");
                    m.append(match action {
                        SyncDirection::Push => "Push",
                        SyncDirection::Pull => "Pull",
                    });
                    m.append(" denied for device ");
                    m.append(peer.0.as_str());
                    m.append(" on share ");
                    m.append(share_id.0.as_str());
                    m.append(" ");
                    assert(m@ =~= "Sync action "@ + (if action == SyncDirection::Push {
                        "Push"@
                    } else {
                        "Pull"@
                    }) + " denied for device "@ + peer@ + " on share "@ + share_id@ + " "@);
                    return Err(DomainError::PermissionDenied(m));
                }
            },
            None => {
                let mut m = String::new();
                m.append("No permission found for device ");
                m.append(peer.0.as_str());
                m.append(" on share ");
                m.append(share_id.0.as_str());
                return Err(DomainError::PermissionDenied(m));
            },
        }
        Ok(())
    }

    /// Whether the `.syncignore` rules `ignore_spec` exclude `path` (relative
    /// to the share's folder).
    pub fn check_file_ignored(path: &str, is_dir: bool, ignore_spec: &IgnoreSpec) -> (res: bool)
        requires
            ignore_path_ok(ignore_spec.base(), path@),
        ensures
            res == gitignore_verdict(ignore_spec.base(), ignore_spec.rule_lines(), path@, is_dir),
    {
        ignore_spec.is_ignored(path, is_dir)
    }
}


/// The composed rule "trusted, then member, then permitted" accepts a sync
/// context exactly when the enforcer allows that sync.
pub proof fn lemma_policy_matches_specification<'a>(ctx: SyncContext<'a>)
    ensures
        AndSpec(TrustedDeviceSpec, AndSpec(ShareMemberSpec, PermissionSpec)).spec_satisfied(&ctx)
            == sync_allowed(ctx.device, ctx.share, ctx.action),
{
}

} // verus!
