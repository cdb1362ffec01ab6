//! The process-wide tenant registry and the set of active callmemaybe
//! subscriptions. Both refuse duplicates; neither removes entries on its own.
use vstd::prelude::*;
use crate::ids::{TenantTimelineId, ZTenantId};

verus! {

/// Why a tenant could not be registered or found.
#[derive(Clone, Copy, Debug, PartialEq, Eq, Structural)]
pub enum RegistryError {
    /// The tenant is registered already.
    Conflict,
    /// No such tenant is registered.
    NotFound,
}

/// Maps each registered tenant to its repository, in order of registration.
pub struct TenantRegistry<R> {
    entries: Vec<(ZTenantId, R)>,
}

impl<R> TenantRegistry<R> {
    /// The registered tenants, in order of registration.
    pub closed spec fn tenants(&self) -> Seq<ZTenantId> {
        self.entries@.map_values(|e: (ZTenantId, R)| e.0)
    }

    /// The repositories, in the same order as `tenants`.
    pub closed spec fn repos(&self) -> Seq<R> {
        self.entries@.map_values(|e: (ZTenantId, R)| e.1)
    }

    /// No tenant is registered twice.
    pub open spec fn wf(&self) -> bool {
        forall|i: int, j: int|
            0 <= i < j < self.tenants().len() ==> self.tenants()[i] != self.tenants()[j]
    }

    pub fn new() -> (r: Self)
        ensures
            r.wf(),
            r.tenants() == Seq::<ZTenantId>::empty(),
    {
        let r = TenantRegistry { entries: Vec::new() };
        assert(r.tenants() =~= Seq::<ZTenantId>::empty());
        r
    }

    fn position(&self, t: ZTenantId) -> (r: Option<usize>)
        ensures
            r matches Some(i) ==> i < self.tenants().len() && self.tenants()[i as int] == t,
            r is None <==> !self.tenants().contains(t),
    {
        let mut i: usize = 0;
        while i < self.entries.len()
            invariant
                i <= self.entries@.len(),
                forall|j: int| 0 <= j < i ==> self.tenants()[j] != t,
            decreases self.entries@.len() - i,
        {
            if self.entries[i].0 == t {
                assert(self.tenants()[i as int] == t);
                return Some(i);
            }
            i += 1;
        }
        assert forall|j: int| 0 <= j < self.tenants().len() implies self.tenants()[j] != t by {}
        None
    }

    pub fn contains(&self, t: ZTenantId) -> (r: bool)
        ensures
            r == self.tenants().contains(t),
    {
        self.position(t).is_some()
    }

    /// Registers a tenant; a tenant that is registered already is refused
    /// with `Conflict` and leaves the registry as it was.
    pub fn insert(&mut self, t: ZTenantId, repo: R) -> (r: Result<(), RegistryError>)
        requires
            old(self).wf(),
        ensures
            final(self).wf(),
            r == insert_result(old(self).tenants(), t),
            final(self).tenants() == tenants_after_insert(old(self).tenants(), t),
            old(self).tenants().contains(t) ==> final(self).repos() == old(self).repos(),
            !old(self).tenants().contains(t) ==> final(self).repos() == old(self).repos().push(repo),
    {
        if self.contains(t) {
            return Err(RegistryError::Conflict);
        }
        let ghost before = self.tenants();
        self.entries.push((t, repo));
        assert(self.tenants() =~= before.push(t));
        assert(self.repos() =~= old(self).repos().push(repo));
        Ok(())
    }

    /// The repository of a registered tenant.
    pub fn get(&self, t: ZTenantId) -> (r: Result<&R, RegistryError>)
        requires
            self.wf(),
        ensures
            !self.tenants().contains(t) ==> r == Err::<&R, RegistryError>(RegistryError::NotFound),
            self.tenants().contains(t) ==> (r matches Ok(x) && exists|i: int|
                0 <= i < self.tenants().len() && self.tenants()[i] == t && *x == self.repos()[i]),
    {
        match self.position(t) {
            Some(i) => {
                assert(self.repos()[i as int] == self.entries@[i as int].1);
                Ok(&self.entries[i].1)
            },
            None => Err(RegistryError::NotFound),
        }
    }

    /// The registered tenants, in order of registration.
    pub fn list(&self) -> (r: Vec<ZTenantId>)
        ensures
            r@ == self.tenants(),
    {
        let mut r: Vec<ZTenantId> = Vec::new();
        let mut i: usize = 0;
        while i < self.entries.len()
            invariant
                i <= self.entries@.len(),
                r@ == self.tenants().subrange(0, i as int),
            decreases self.entries@.len() - i,
        {
            r.push(self.entries[i].0);
            i += 1;
            assert(r@ =~= self.tenants().subrange(0, i as int));
        }
        assert(self.tenants().subrange(0, i as int) =~= self.tenants());
        r
    }
}

/// What registering `t` answers, given the tenants registered before.
pub open spec fn insert_result(ts: Seq<ZTenantId>, t: ZTenantId) -> Result<(), RegistryError> {
    if ts.contains(t) {
        Err(RegistryError::Conflict)
    } else {
        Ok(())
    }
}

/// The tenants registered after registering `t`.
pub open spec fn tenants_after_insert(ts: Seq<ZTenantId>, t: ZTenantId) -> Seq<ZTenantId> {
    if ts.contains(t) {
        ts
    } else {
        ts.push(t)
    }
}

/// Once a tenant is created, listing the registry shows it.
pub proof fn lemma_created_tenant_is_listed(ts: Seq<ZTenantId>, t: ZTenantId)
    ensures
        tenants_after_insert(ts, t).contains(t),
{
    if !ts.contains(t) {
        assert(ts.push(t)[ts.len() as int] == t);
    }
}

/// Creating a tenant a second time is refused with `Conflict` and leaves
/// the registry as the first creation left it.
pub proof fn lemma_second_create_conflicts(ts: Seq<ZTenantId>, t: ZTenantId)
    ensures
        insert_result(tenants_after_insert(ts, t), t) == Err::<(), RegistryError>(
            RegistryError::Conflict,
        ),
        tenants_after_insert(tenants_after_insert(ts, t), t) == tenants_after_insert(ts, t),
{
    lemma_created_tenant_is_listed(ts, t);
}

/// The active callmemaybe subscriptions: at most one per timeline.
pub struct Subscriptions {
    active: Vec<(TenantTimelineId, Vec<u8>)>,
}

impl Subscriptions {
    pub closed spec fn keys(&self) -> Seq<TenantTimelineId> {
        self.active@.map_values(|e: (TenantTimelineId, Vec<u8>)| e.0)
    }

    /// The set of timelines with an active subscription.
    pub open spec fn view(&self) -> Set<TenantTimelineId> {
        self.keys().to_set()
    }

    pub open spec fn wf(&self) -> bool {
        forall|i: int, j: int| 0 <= i < j < self.keys().len() ==> self.keys()[i] != self.keys()[j]
    }

    pub fn new() -> (r: Self)
        ensures
            r.wf(),
            r@ == Set::<TenantTimelineId>::empty(),
    {
        let r = Subscriptions { active: Vec::new() };
        assert(r.keys() =~= Seq::<TenantTimelineId>::empty());
        assert(r@ =~= Set::<TenantTimelineId>::empty());
        r
    }

    pub fn is_active(&self, id: TenantTimelineId) -> (r: bool)
        ensures
            r == self@.contains(id),
    {
        let mut i: usize = 0;
        while i < self.active.len()
            invariant
                i <= self.active@.len(),
                forall|j: int| 0 <= j < i ==> self.keys()[j] != id,
            decreases self.active@.len() - i,
        {
            if self.active[i].0 == id {
                assert(self.keys()[i as int] == id);
                return true;
            }
            i += 1;
        }
        assert(!self.keys().contains(id));
        false
    }

    /// Starts a subscription unless the timeline has one already; returns
    /// whether a worker is to be launched.
    pub fn subscribe(&mut self, id: TenantTimelineId, connstr: Vec<u8>) -> (launched: bool)
        requires
            old(self).wf(),
        ensures
            final(self).wf(),
            launched == !old(self)@.contains(id),
            final(self)@ == old(self)@.insert(id),
            !launched ==> final(self).keys() == old(self).keys(),
    {
        if self.is_active(id) {
            assert(old(self)@.insert(id) =~= old(self)@);
            return false;
        }
        let ghost before = self.keys();
        self.active.push((id, connstr));
        assert(self.keys() =~= before.push(id));
        assert(self@ =~= old(self)@.insert(id)) by {
            before.lemma_push_to_set_commute(id);
        }
        true
    }
}

/// Asking for the same subscription again launches nothing and leaves the
/// subscriptions as they were: at most one is active per timeline.
pub proof fn lemma_subscribe_idempotent(active: Set<TenantTimelineId>, id: TenantTimelineId)
    ensures
        active.insert(id).contains(id),
        active.insert(id).insert(id) == active.insert(id),
{
    assert(active.insert(id).insert(id) =~= active.insert(id));
}

} // verus!
