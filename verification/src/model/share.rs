use vstd::prelude::*;
use crate::clock::unix_now;
use crate::error::DomainError;
use crate::model::device::DeviceId;

verus! {

/// Identity of a share.
#[derive(Debug, Eq, Hash)]
pub struct ShareId(pub String);

impl View for ShareId {
    type V = Seq<char>;

    open spec fn view(&self) -> Seq<char> {
        self.0@
    }
}

impl Clone for ShareId {
    fn clone(&self) -> (res: Self)
        ensures
            res == *self,
    {
        ShareId(self.0.clone())
    }
}

impl PartialEq for ShareId {
    fn eq(&self, other: &Self) -> (res: bool) {
        self.0 == other.0
    }
}

impl vstd::std_specs::cmp::PartialEqSpecImpl for ShareId {
    open spec fn obeys_eq_spec() -> bool {
        true
    }

    open spec fn eq_spec(&self, other: &ShareId) -> bool {
        self.0@ == other.0@
    }
}

#[derive(Debug, Clone, Copy, PartialEq, Eq, Structural)]
pub enum SyncMode {
    TwoWay,
    SendOnly,
    ReceiveOnly,
}

#[derive(Debug)]
pub enum ShareStatus {
    Active,
    Paused,
    Error(String),
}

impl Clone for ShareStatus {
    fn clone(&self) -> (res: Self)
        ensures
            res == *self,
    {
        match self {
            ShareStatus::Active => ShareStatus::Active,
            ShareStatus::Paused => ShareStatus::Paused,
            ShareStatus::Error(e) => ShareStatus::Error(e.clone()),
        }
    }
}

#[derive(Debug, Clone, Copy, PartialEq, Eq, Structural)]
pub enum SharePermission {
    ReadOnly,
    ReadWrite,
    SendOnly,
    ReceiveOnly,
}

pub open spec fn spec_can_push(p: SharePermission) -> bool {
    p == SharePermission::ReadWrite || p == SharePermission::SendOnly
}

pub open spec fn spec_can_pull(p: SharePermission) -> bool {
    p == SharePermission::ReadWrite || p == SharePermission::ReadOnly || p == SharePermission::ReceiveOnly
}

impl SharePermission {
    /// Whether a holder may send changes.
    pub fn can_push(&self) -> (res: bool)
        ensures
            res == spec_can_push(*self),
    {
        match self {
            SharePermission::ReadWrite | SharePermission::SendOnly => true,
            _ => false,
        }
    }

    /// Whether a holder may receive changes.
    pub fn can_pull(&self) -> (res: bool)
        ensures
            res == spec_can_pull(*self),
    {
        match self {
            SharePermission::ReadWrite | SharePermission::ReadOnly | SharePermission::ReceiveOnly => true,
            _ => false,
        }
    }
}

/// A device admitted to a share.
#[derive(Debug)]
pub struct ShareMember {
    pub device_id: DeviceId,
    pub permission: SharePermission,
    pub authorized_by: DeviceId,
    pub authorized_at: u64,
}

impl Clone for ShareMember {
    fn clone(&self) -> (res: Self)
        ensures
            res == *self,
    {
        ShareMember {
            device_id: self.device_id.clone(),
            permission: self.permission,
            authorized_by: self.authorized_by.clone(),
            authorized_at: self.authorized_at,
        }
    }
}

/// A synchronised folder and the devices allowed to take part.
#[derive(Debug)]
pub struct Share {
    pub share_id: ShareId,
    pub share_name: String,
    pub local_path: String,
    pub sync_mode: SyncMode,
    pub status: ShareStatus,
    pub members: Vec<ShareMember>,
    pub created_by: DeviceId,
    pub created_at: u64,
}

impl Clone for Share {
    fn clone(&self) -> (res: Self)
        ensures
            res.share_id == self.share_id,
            res.share_name == self.share_name,
            res.local_path == self.local_path,
            res.sync_mode == self.sync_mode,
            res.status == self.status,
            res.members@ == self.members@,
            res.created_by == self.created_by,
            res.created_at == self.created_at,
    {
        let mut members: Vec<ShareMember> = Vec::new();
        let mut i: usize = 0;
        while i < self.members.len()
            invariant
                i <= self.members@.len(),
                members@ == self.members@.subrange(0, i as int),
            decreases self.members@.len() - i,
        {
            members.push(self.members[i].clone());
            assert(members@ =~= self.members@.subrange(0, i + 1));
            i = i + 1;
        }
        assert(members@ =~= self.members@);
        Share {
            share_id: self.share_id.clone(),
            share_name: self.share_name.clone(),
            local_path: self.local_path.clone(),
            sync_mode: self.sync_mode,
            status: self.status.clone(),
            members,
            created_by: self.created_by.clone(),
            created_at: self.created_at,
        }
    }
}

/// Whether some member is the device `d`.
pub open spec fn is_member(members: Seq<ShareMember>, d: Seq<char>) -> bool {
    exists|i: int| 0 <= i < members.len() && #[trigger] members[i].device_id@ == d
}

/// Position of the first member that is `d` (the length when there is none).
pub open spec fn first_member_index(members: Seq<ShareMember>, d: Seq<char>) -> int
    decreases members.len(),
{
    if members.len() == 0 {
        0
    } else if members[0].device_id@ == d {
        0
    } else {
        1 + first_member_index(members.drop_first(), d)
    }
}

/// The permission of the first member that is `d`.
pub open spec fn permission_of(members: Seq<ShareMember>, d: Seq<char>) -> Option<SharePermission> {
    let i = first_member_index(members, d);
    if i < members.len() {
        Some(members[i].permission)
    } else {
        None
    }
}

/// The members with every entry for `d` removed.
pub open spec fn without_member(members: Seq<ShareMember>, d: Seq<char>) -> Seq<ShareMember> {
    members.filter(|m: ShareMember| m.device_id@ != d)
}

pub proof fn lemma_first_member_index(members: Seq<ShareMember>, d: Seq<char>, i: int)
    requires
        0 <= i <= members.len(),
        forall|j: int| 0 <= j < i ==> #[trigger] members[j].device_id@ != d,
        i == members.len() || members[i].device_id@ == d,
    ensures
        first_member_index(members, d) == i,
    decreases i,
{
    if i > 0 {
        let t = members.drop_first();
        assert forall|j: int| 0 <= j < i - 1 implies #[trigger] t[j].device_id@ != d by {
            assert(t[j] == members[j + 1]);
        }
        lemma_first_member_index(t, d, i - 1);
    }
}

proof fn lemma_first_member_index_bounds(members: Seq<ShareMember>, d: Seq<char>)
    ensures
        0 <= first_member_index(members, d) <= members.len(),
        first_member_index(members, d) < members.len() <==> is_member(members, d),
        first_member_index(members, d) < members.len() ==> members[first_member_index(members, d)].device_id@ == d,
    decreases members.len(),
{
    if members.len() > 0 {
        let t = members.drop_first();
        lemma_first_member_index_bounds(t, d);
        if members[0].device_id@ != d {
            if is_member(members, d) {
                let i = choose|i: int| 0 <= i < members.len() && #[trigger] members[i].device_id@ == d;
                assert(t[i - 1] == members[i]);
            }
            if is_member(t, d) {
                let i = choose|i: int| 0 <= i < t.len() && #[trigger] t[i].device_id@ == d;
                assert(members[i + 1] == t[i]);
            }
        }
    }
}

proof fn lemma_without_member(members: Seq<ShareMember>, d: Seq<char>)
    ensures
        without_member(members, d).len() <= members.len(),
        without_member(members, d).len() == members.len() <==> !is_member(members, d),
        !is_member(without_member(members, d), d),
        forall|e: Seq<char>| e != d ==> (is_member(without_member(members, d), e) <==> is_member(members, e)),
        !is_member(members, d) ==> without_member(members, d) == members,
    decreases members.len(),
{
    reveal_with_fuel(Seq::filter, 1);
    if members.len() > 0 {
        let p = members.drop_last();
        lemma_without_member(p, d);
        let rest = without_member(p, d);
        assert forall|e: Seq<char>| is_member(members, e) <==> is_member(p, e) || members.last().device_id@ == e by {
            if is_member(members, e) {
                let i = choose|i: int| 0 <= i < members.len() && #[trigger] members[i].device_id@ == e;
                if i < p.len() {
                    assert(p[i] == members[i]);
                }
            }
            if is_member(p, e) {
                let i = choose|i: int| 0 <= i < p.len() && #[trigger] p[i].device_id@ == e;
                assert(members[i] == p[i]);
            }
            if members.last().device_id@ == e {
                assert(members[members.len() - 1].device_id@ == e);
            }
        }
        assert forall|e: Seq<char>| is_member(rest.push(members.last()), e) <==> is_member(rest, e) || members.last().device_id@ == e by {
            let r = rest.push(members.last());
            if is_member(r, e) {
                let i = choose|i: int| 0 <= i < r.len() && #[trigger] r[i].device_id@ == e;
                if i < rest.len() {
                    assert(rest[i] == r[i]);
                }
            }
            if is_member(rest, e) {
                let i = choose|i: int| 0 <= i < rest.len() && #[trigger] rest[i].device_id@ == e;
                assert(r[i] == rest[i]);
            }
            if members.last().device_id@ == e {
                assert(r[r.len() - 1].device_id@ == e);
            }
        }
        if !is_member(members, d) {
            assert(p.push(members.last()) =~= members);
        }
    }
}

/// A share that exists has its creator among its members, once that holds.
pub open spec fn creator_is_member(s: &Share) -> bool {
    is_member(s.members@, s.created_by@)
}

impl Share {
    /// A new active share whose only member is its creator, with read-write rights.
    pub fn create_at(
        share_id: ShareId,
        share_name: String,
        local_path: String,
        sync_mode: SyncMode,
        created_by: DeviceId,
        created_at: u64,
    ) -> (res: Self)
        ensures
            res.share_id == share_id,
            res.share_name == share_name,
            res.local_path == local_path,
            res.sync_mode == sync_mode,
            res.status == ShareStatus::Active,
            res.created_by == created_by,
            res.created_at == created_at,
            res.members@ == seq![ShareMember {
                device_id: created_by,
                permission: SharePermission::ReadWrite,
                authorized_by: created_by,
                authorized_at: created_at,
            }],
            creator_is_member(&res),
    {
        let mut members: Vec<ShareMember> = Vec::new();
        members.push(ShareMember {
            device_id: created_by.clone(),
            permission: SharePermission::ReadWrite,
            authorized_by: created_by.clone(),
            authorized_at: created_at,
        });
        let res = Share {
            share_id,
            share_name,
            local_path,
            sync_mode,
            status: ShareStatus::Active,
            members,
            created_by,
            created_at,
        };
        assert(res.members@[0].device_id@ == res.created_by@);
        res
    }

    /// A new share stamped with the current time; see [`Share::create_at`].
    pub fn create(
        share_id: ShareId,
        share_name: String,
        local_path: String,
        sync_mode: SyncMode,
        created_by: DeviceId,
    ) -> (res: Self)
        ensures
            res.share_id == share_id,
            res.share_name == share_name,
            res.local_path == local_path,
            res.sync_mode == sync_mode,
            res.status == ShareStatus::Active,
            res.created_by == created_by,
            res.members@ == seq![ShareMember {
                device_id: created_by,
                permission: SharePermission::ReadWrite,
                authorized_by: created_by,
                authorized_at: res.created_at,
            }],
            creator_is_member(&res),
    {
        let now = unix_now();
        Self::create_at(share_id, share_name, local_path, sync_mode, created_by, now)
    }

    /// Whether `device_id` is a member.
    pub fn has_member(&self, device_id: &DeviceId) -> (res: bool)
        ensures
            res == is_member(self.members@, device_id@),
    {
        let mut i: usize = 0;
        while i < self.members.len()
            invariant
                i <= self.members@.len(),
                forall|j: int| 0 <= j < i ==> #[trigger] self.members@[j].device_id@ != device_id@,
            decreases self.members@.len() - i,
        {
            if self.members[i].device_id == *device_id {
                assert(self.members@[i as int].device_id@ == device_id@);
                return true;
            }
            i = i + 1;
        }
        false
    }

    /// Position of the first member that is `device_id`, if any.
    fn find_member(&self, device_id: &DeviceId) -> (res: Option<usize>)
        ensures
            match res {
                Some(i) => i as int == first_member_index(self.members@, device_id@) && i < self.members@.len(),
                None => !is_member(self.members@, device_id@),
            },
    {
        let mut i: usize = 0;
        while i < self.members.len()
            invariant
                i <= self.members@.len(),
                forall|j: int| 0 <= j < i ==> #[trigger] self.members@[j].device_id@ != device_id@,
            decreases self.members@.len() - i,
        {
            if self.members[i].device_id == *device_id {
                proof {
                    lemma_first_member_index(self.members@, device_id@, i as int);
                }
                return Some(i);
            }
            i = i + 1;
        }
        None
    }

    /// The permission of `device_id`, if it is a member.
    pub fn get_permission(&self, device_id: &DeviceId) -> (res: Option<SharePermission>)
        ensures
            res == permission_of(self.members@, device_id@),
            res.is_some() == is_member(self.members@, device_id@),
    {
        proof {
            lemma_first_member_index_bounds(self.members@, device_id@);
        }
        match self.find_member(device_id) {
            Some(i) => Some(self.members[i].permission),
            None => None,
        }
    }

    /// Admits `device_id` with `permission`, granted by `authorized_by` at time `now`.
    pub fn authorize_member_at(
        self,
        device_id: DeviceId,
        permission: SharePermission,
        authorized_by: DeviceId,
        now: u64,
    ) -> (res: Result<Self, DomainError>)
        ensures
            is_member(self.members@, device_id@) <==> res is Err,
            match res {
                Ok(s) => s.members@ == self.members@.push(ShareMember {
                    device_id,
                    permission,
                    authorized_by,
                    authorized_at: now,
                }) && s.share_id == self.share_id && s.share_name == self.share_name
                    && s.local_path == self.local_path && s.sync_mode == self.sync_mode
                    && s.status == self.status && s.created_by == self.created_by
                    && s.created_at == self.created_at,
                Err(e) => e matches DomainError::BusinessRuleViolation(m)
                    && m@ == "Device "@ + device_id@ + " is already a member"@,
            },
    {
        if self.has_member(&device_id) {
            let mut m = String::new();
            m.append("Device ");
            m.append(device_id.0.as_str());
            m.append(" is already a member");
            assert(m@ =~= "Device "@ + device_id@ + " is already a member"@);
            return Err(DomainError::BusinessRuleViolation(m));
        }
        let mut s = self;
        s.members.push(ShareMember { device_id, permission, authorized_by, authorized_at: now });
        Ok(s)
    }

    /// Admits `device_id`, stamped with the current time; see [`Share::authorize_member_at`].
    pub fn authorize_member(
        self,
        device_id: DeviceId,
        permission: SharePermission,
        authorized_by: DeviceId,
    ) -> (res: Result<Self, DomainError>)
        ensures
            is_member(self.members@, device_id@) <==> res is Err,
            match res {
                Ok(s) => s.members@.len() == self.members@.len() + 1
                    && s.members@.drop_last() == self.members@
                    && s.members@.last().device_id == device_id
                    && s.members@.last().permission == permission
                    && s.members@.last().authorized_by == authorized_by
                    && s.share_id == self.share_id && s.share_name == self.share_name
                    && s.local_path == self.local_path && s.sync_mode == self.sync_mode
                    && s.status == self.status && s.created_by == self.created_by
                    && s.created_at == self.created_at,
                Err(e) => e matches DomainError::BusinessRuleViolation(m)
                    && m@ == "Device "@ + device_id@ + " is already a member"@,
            },
    {
        let now = unix_now();
        let res = self.authorize_member_at(device_id, permission, authorized_by, now);
        proof {
            if res is Ok {
                assert(res->Ok_0.members@.drop_last() =~= self.members@);
            }
        }
        res
    }

    /// Removes every membership of `device_id`. The creator cannot be removed,
    /// and a device that is not a member is an error.
    pub fn remove_member(self, device_id: &DeviceId) -> (res: Result<Self, DomainError>)
        ensures
            res is Ok <==> self.created_by@ != device_id@ && is_member(self.members@, device_id@),
            match res {
                Ok(s) => s.members@ == without_member(self.members@, device_id@)
                    && s.share_id == self.share_id && s.share_name == self.share_name
                    && s.local_path == self.local_path && s.sync_mode == self.sync_mode
                    && s.status == self.status && s.created_by == self.created_by
                    && s.created_at == self.created_at,
                Err(e) => e matches DomainError::BusinessRuleViolation(m) && if self.created_by@ == device_id@ {
                    m@ == "Cannot remove the creator of the share"@
                } else {
                    m@ == "Device "@ + device_id@ + " is not a member"@
                },
            },
    {
        if self.created_by == *device_id {
            return Err(DomainError::BusinessRuleViolation("Cannot remove the creator of the share".to_string()));
        }
        let initial_len = self.members.len();
        let mut kept: Vec<ShareMember> = Vec::new();
        let mut i: usize = 0;
        while i < self.members.len()
            invariant
                i <= self.members@.len(),
                kept@ == without_member(self.members@.subrange(0, i as int), device_id@),
            decreases self.members@.len() - i,
        {
            proof {
                let q = self.members@.subrange(0, i + 1);
                assert(q.drop_last() =~= self.members@.subrange(0, i as int));
                assert(q.last() == self.members@[i as int]);
                reveal_with_fuel(Seq::filter, 1);
            }
            if self.members[i].device_id != *device_id {
                kept.push(self.members[i].clone());
            }
            i = i + 1;
        }
        proof {
            assert(self.members@.subrange(0, self.members@.len() as int) =~= self.members@);
            lemma_without_member(self.members@, device_id@);
        }
        if kept.len() == initial_len {
            let mut m = String::new();
            m.append("Device ");
            m.append(device_id.0.as_str());
            m.append(" is not a member");
            assert(m@ =~= "Device "@ + device_id@ + " is not a member"@);
            return Err(DomainError::BusinessRuleViolation(m));
        }
        let mut s = self;
        s.members = kept;
        Ok(s)
    }

    /// Changes the permission of the first membership of `device_id`.
    pub fn update_permission(self, device_id: &DeviceId, new_permission: SharePermission) -> (res: Result<Self, DomainError>)
        ensures
            res is Ok <==> is_member(self.members@, device_id@),
            match res {
                Ok(s) => {
                    let i = first_member_index(self.members@, device_id@);
                    s.members@ == self.members@.update(i, ShareMember { permission: new_permission, ..self.members@[i] })
                        && s.share_id == self.share_id && s.share_name == self.share_name
                        && s.local_path == self.local_path && s.sync_mode == self.sync_mode
                        && s.status == self.status && s.created_by == self.created_by
                        && s.created_at == self.created_at
                },
                Err(e) => e matches DomainError::BusinessRuleViolation(m)
                    && m@ == "Device "@ + device_id@ + " is not a member"@,
            },
    {
        proof {
            lemma_first_member_index_bounds(self.members@, device_id@);
        }
        match self.find_member(device_id) {
            Some(i) => {
                let mut s = self;
                let old_member = s.members[i].clone();
                let member = ShareMember { permission: new_permission, ..old_member };
                s.members.set(i, member);
                Ok(s)
            },
            None => {
                let mut m = String::new();
                m.append("Device ");
                m.append(device_id.0.as_str());
                m.append(" is not a member");
                assert(m@ =~= "Device "@ + device_id@ + " is not a member"@);
                Err(DomainError::BusinessRuleViolation(m))
            },
        }
    }

    /// Active to Paused.
    pub fn pause(self) -> (res: Result<Self, DomainError>)
        ensures
            res is Ok <==> self.status == ShareStatus::Active,
            match res {
                Ok(s) => s == (Share { status: ShareStatus::Paused, ..self }),
                Err(e) => e == DomainError::InvalidStateTransition("Share must be Active to pause"),
            },
    {
        if !matches!(self.status, ShareStatus::Active) {
            return Err(DomainError::InvalidStateTransition("Share must be Active to pause"));
        }
        let mut s = self;
        s.status = ShareStatus::Paused;
        Ok(s)
    }

    /// Paused to Active.
    pub fn resume(self) -> (res: Result<Self, DomainError>)
        ensures
            res is Ok <==> self.status == ShareStatus::Paused,
            match res {
                Ok(s) => s == (Share { status: ShareStatus::Active, ..self }),
                Err(e) => e == DomainError::InvalidStateTransition("Share must be Paused to resume"),
            },
    {
        if !matches!(self.status, ShareStatus::Paused) {
            return Err(DomainError::InvalidStateTransition("Share must be Paused to resume"));
        }
        let mut s = self;
        s.status = ShareStatus::Active;
        Ok(s)
    }
}


/// Admitting a device that was not a member and then removing it gives back
/// the members as they were.
pub proof fn lemma_authorize_then_remove(members: Seq<ShareMember>, m: ShareMember)
    requires
        !is_member(members, m.device_id@),
    ensures
        without_member(members.push(m), m.device_id@) == members,
{
    lemma_without_member(members, m.device_id@);
    assert(members.push(m).drop_last() =~= members);
    reveal_with_fuel(Seq::filter, 1);
}

/// Removing a device leaves it no membership and keeps every other device's.
pub proof fn lemma_remove_keeps_others(members: Seq<ShareMember>, d: Seq<char>, e: Seq<char>)
    ensures
        !is_member(without_member(members, d), d),
        e != d ==> (is_member(without_member(members, d), e) <==> is_member(members, e)),
{
    lemma_without_member(members, d);
}

/// A member stays a member when another device is admitted.
pub proof fn lemma_authorize_keeps_members(members: Seq<ShareMember>, m: ShareMember, e: Seq<char>)
    requires
        is_member(members, e),
    ensures
        is_member(members.push(m), e),
{
    let i = choose|i: int| 0 <= i < members.len() && #[trigger] members[i].device_id@ == e;
    assert(members.push(m)[i] == members[i]);
}

/// The creator of a share stays a member through admitting, removing (which
/// never touches the creator) and changing permissions.
pub proof fn lemma_creator_stays_member(
    members: Seq<ShareMember>,
    creator: Seq<char>,
    m: ShareMember,
    d: Seq<char>,
    i: int,
    p: SharePermission,
)
    requires
        is_member(members, creator),
        d != creator,
        0 <= i < members.len(),
    ensures
        is_member(members.push(m), creator),
        is_member(without_member(members, d), creator),
        is_member(members.update(i, ShareMember { permission: p, ..members[i] }), creator),
{
    lemma_authorize_keeps_members(members, m, creator);
    lemma_without_member(members, d);
    let u = members.update(i, ShareMember { permission: p, ..members[i] });
    let j = choose|j: int| 0 <= j < members.len() && #[trigger] members[j].device_id@ == creator;
    assert(u[j].device_id@ == creator);
}

/// A newly admitted device holds the permission it was admitted with.
pub proof fn lemma_permission_after_authorize(members: Seq<ShareMember>, m: ShareMember)
    requires
        !is_member(members, m.device_id@),
    ensures
        permission_of(members.push(m), m.device_id@) == Some(m.permission),
{
    let s = members.push(m);
    let d = m.device_id@;
    assert forall|j: int| 0 <= j < members.len() implies #[trigger] s[j].device_id@ != d by {
        assert(s[j] == members[j]);
        if members[j].device_id@ == d {
            assert(is_member(members, d));
        }
    }
    lemma_first_member_index(s, d, members.len() as int);
}

/// After a permission change a member holds the new permission.
pub proof fn lemma_permission_after_update(members: Seq<ShareMember>, d: Seq<char>, p: SharePermission)
    requires
        is_member(members, d),
    ensures
        ({
            let i = first_member_index(members, d);
            permission_of(members.update(i, ShareMember { permission: p, ..members[i] }), d) == Some(p)
        }),
{
    lemma_first_member_index_bounds(members, d);
    let i = first_member_index(members, d);
    let u = members.update(i, ShareMember { permission: p, ..members[i] });
    assert forall|j: int| 0 <= j < i implies #[trigger] u[j].device_id@ != d by {
        assert(u[j] == members[j]);
        if members[j].device_id@ == d {
            lemma_first_before(members, d, j);
        }
    }
    lemma_first_member_index(u, d, i);
}

proof fn lemma_first_before(members: Seq<ShareMember>, d: Seq<char>, j: int)
    requires
        0 <= j < members.len(),
        members[j].device_id@ == d,
    ensures
        first_member_index(members, d) <= j,
    decreases j,
{
    if j > 0 && members[0].device_id@ != d {
        let t = members.drop_first();
        assert(t[j - 1] == members[j]);
        lemma_first_before(t, d, j - 1);
    }
}

/// Pausing an active share and resuming it gives back the same share.
pub proof fn lemma_pause_then_resume(s: Share)
    requires
        s.status == ShareStatus::Active,
    ensures
        (Share { status: ShareStatus::Active, ..(Share { status: ShareStatus::Paused, ..s }) }) == s,
{
}

} // verus!
