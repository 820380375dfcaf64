//! Cluster orchestration: the manager-owned state that sequences every
//! member server through a coordinated rebalance when ring membership
//! changes.
//!
//! The manager is the single writer of the cluster status and of every
//! server status. Idle is the only state that accepts a new add or remove
//! request, so at most one rebalance runs at a time. Each cluster-state
//! advance is gated on every member having acknowledged the corresponding
//! per-server status; a server reporting an out-of-order status, a reported
//! failure, or a missed heartbeat deadline forces the absorbing StatusError
//! state, from which only an explicit administrative reset returns to Idle.

use vstd::prelude::*;

use crate::errors::ClusterError;
use crate::ops::ServerType;
use crate::status::{ClusterStatus, ServerStatus};

verus! {

/// One cluster member as the manager tracks it: its address, ring weight,
/// role in the current rebalance, and migration status.
#[derive(Clone, PartialEq, Eq, Debug)]
pub struct ServerNode {
    pub address: String,
    pub weight: usize,
    pub ty: ServerType,
    pub status: ServerStatus,
}

/// The node `n` with its migration status replaced.
pub open spec fn spec_with_status(n: ServerNode, st: ServerStatus) -> ServerNode {
    ServerNode { address: n.address, weight: n.weight, ty: n.ty, status: st }
}

/// Whether every server has reached at least rank `r` along the migration
/// chain.
pub open spec fn spec_all_reached(s: Seq<ServerNode>, r: int) -> bool {
    forall|i: int| 0 <= i < s.len() ==> #[trigger] s[i].status.spec_rank() >= r
}

/// Whether some server bears the given address.
pub open spec fn spec_member(s: Seq<ServerNode>, a: Seq<char>) -> bool {
    exists|i: int| 0 <= i < s.len() && s[i].address@ == a
}

/// The first position bearing the given address.
pub open spec fn spec_first_index(s: Seq<ServerNode>, a: Seq<char>) -> int {
    choose|i: int|
        0 <= i < s.len() && s[i].address@ == a && (forall|j: int|
            0 <= j < i ==> s[j].address@ != a)
}

/// Whether one of the listed names equals the given address.
pub open spec fn spec_name_listed(del: Seq<String>, a: Seq<char>) -> bool {
    exists|j: int| 0 <= j < del.len() && del[j]@ == a
}

/// The ring without the entries whose address is listed, in ring order.
pub open spec fn spec_ring_without(s: Seq<(String, usize)>, del: Seq<String>) -> Seq<
    (String, usize),
>
    decreases s.len(),
{
    if s.len() == 0 {
        Seq::empty()
    } else {
        let rest = spec_ring_without(s.drop_last(), del);
        if spec_name_listed(del, s.last().0@) {
            rest
        } else {
            rest.push(s.last())
        }
    }
}

/// The members kept after a completed rebalance: leaving nodes dropped, the
/// rest turned into steady members.
pub open spec fn spec_keep_members(s: Seq<ServerNode>) -> Seq<ServerNode>
    decreases s.len(),
{
    if s.len() == 0 {
        Seq::empty()
    } else {
        let rest = spec_keep_members(s.drop_last());
        if s.last().ty is Remove {
            rest
        } else {
            rest.push(
                ServerNode {
                    address: s.last().address,
                    weight: s.last().weight,
                    ty: ServerType::Running,
                    status: s.last().status,
                },
            )
        }
    }
}

/// The minimum server rank that holding a rebalance phase presumes.
pub open spec fn spec_phase_floor(c: ClusterStatus) -> int {
    match c {
        ClusterStatus::PreTransfer => 1,
        ClusterStatus::Transferring => 2,
        ClusterStatus::PreFinish => 3,
        ClusterStatus::Finishing => 4,
        _ => 0,
    }
}

/// The rank every server must have acknowledged before the cluster leaves
/// phase `c` for the next one.
pub open spec fn spec_gate_rank(c: ClusterStatus) -> int {
    match c {
        ClusterStatus::SyncNewHashRing => 1,
        ClusterStatus::PreTransfer => 2,
        ClusterStatus::Transferring => 3,
        ClusterStatus::PreFinish => 4,
        ClusterStatus::Finishing => 5,
        _ => 0,
    }
}

/// The phase that follows `c` on the happy path of a rebalance.
pub open spec fn spec_cluster_next(c: ClusterStatus) -> ClusterStatus {
    match c {
        ClusterStatus::NodesStarting => ClusterStatus::SyncNewHashRing,
        ClusterStatus::SyncNewHashRing => ClusterStatus::PreTransfer,
        ClusterStatus::PreTransfer => ClusterStatus::Transferring,
        ClusterStatus::Transferring => ClusterStatus::PreFinish,
        ClusterStatus::PreFinish => ClusterStatus::Finishing,
        ClusterStatus::Finishing => ClusterStatus::Idle,
        _ => c,
    }
}

/// The manager's cluster state: the orchestration status, the member
/// servers, and the current and in-flight hash rings.
#[derive(Clone, Debug)]
pub struct ClusterManager {
    pub status: ClusterStatus,
    pub servers: Vec<ServerNode>,
    pub hash_ring: Vec<(String, usize)>,
    pub new_hash_ring: Vec<(String, usize)>,
}

impl ClusterManager {
    /// Well-formedness: before bootstrap everything is empty; when idle all
    /// members are steady and fully integrated and no new ring is in
    /// flight; during a rebalance every server has reached the phase's
    /// floor rank.
    pub open spec fn wf(self) -> bool {
        &&& self.status is Initializing ==> self.servers@.len() == 0 && self.hash_ring@.len() == 0
            && self.new_hash_ring@.len() == 0
        &&& self.status is Idle ==> (forall|i: int|
            0 <= i < self.servers@.len() ==> (#[trigger] self.servers@[i].ty) is Running
                && self.servers@[i].status is Finished) && self.new_hash_ring@.len() == 0
        &&& self.status.spec_rebalancing() ==> spec_all_reached(
            self.servers@,
            spec_phase_floor(self.status),
        )
    }

    /// A fresh manager with no members and no ring, not yet serving.
    pub fn new() -> (r: ClusterManager)
        ensures
            r.wf(),
            r.status is Initializing,
            r.servers@.len() == 0,
            r.hash_ring@.len() == 0,
            r.new_hash_ring@.len() == 0,
    {
        ClusterManager {
            status: ClusterStatus::Initializing,
            servers: Vec::new(),
            hash_ring: Vec::new(),
            new_hash_ring: Vec::new(),
        }
    }

    /// Register the initial members and their ring and become idle. Only
    /// the fresh, not-yet-serving manager accepts this.
    pub fn bootstrap(&mut self, initial: Vec<(String, usize)>) -> (r: Result<(), ClusterError>)
        requires
            old(self).wf(),
        ensures
            final(self).wf(),
            !(old(self).status is Initializing) ==> r == Err::<(), ClusterError>(
                ClusterError::InvalidTransition,
            ) && *final(self) == *old(self),
            old(self).status is Initializing ==> r == Ok::<(), ClusterError>(()) && {
                &&& final(self).status is Idle
                &&& final(self).hash_ring@ == initial@
                &&& final(self).new_hash_ring@.len() == 0
                &&& final(self).servers@.len() == initial@.len()
                &&& forall|i: int|
                    0 <= i < initial@.len() ==> (#[trigger] final(self).servers@[i]) == (ServerNode {
                        address: initial@[i].0,
                        weight: initial@[i].1,
                        ty: ServerType::Running,
                        status: ServerStatus::Finished,
                    })
            },
    {
        if !matches!(self.status, ClusterStatus::Initializing) {
            return Err(ClusterError::InvalidTransition);
        }
        let n = initial.len();
        let mut i: usize = 0;
        while i < n
            invariant
                i <= n,
                n == initial@.len(),
                self.status is Initializing,
                self.hash_ring@.len() == 0,
                self.new_hash_ring@.len() == 0,
                self.servers@.len() == i,
                forall|j: int|
                    0 <= j < i ==> (#[trigger] self.servers@[j]) == (ServerNode {
                        address: initial@[j].0,
                        weight: initial@[j].1,
                        ty: ServerType::Running,
                        status: ServerStatus::Finished,
                    }),
            decreases n - i,
        {
            let address = initial[i].0.clone();
            let weight = initial[i].1;
            self.servers.push(
                ServerNode {
                    address,
                    weight,
                    ty: ServerType::Running,
                    status: ServerStatus::Finished,
                },
            );
            i += 1;
        }
        self.hash_ring = initial;
        self.status = ClusterStatus::Idle;
        Ok(())
    }

    /// A copy of a ring, entry for entry.
    fn clone_ring(ring: &Vec<(String, usize)>) -> (r: Vec<(String, usize)>)
        ensures
            r@ == ring@,
    {
        let n = ring.len();
        let mut out: Vec<(String, usize)> = Vec::new();
        let mut i: usize = 0;
        while i < n
            invariant
                i <= n,
                n == ring@.len(),
                out@ =~= ring@.subrange(0, i as int),
            decreases n - i,
        {
            out.push((ring[i].0.clone(), ring[i].1));
            proof {
                assert(out@ =~= ring@.subrange(0, i + 1));
            }
            i += 1;
        }
        proof {
            assert(out@ =~= ring@);
        }
        out
    }

    /// Whether one of the listed names equals the given address.
    fn name_listed(del: &Vec<String>, a: &String) -> (r: bool)
        ensures
            r == spec_name_listed(del@, a@),
    {
        let n = del.len();
        let mut j: usize = 0;
        while j < n
            invariant
                j <= n,
                n == del@.len(),
                forall|k: int| 0 <= k < j ==> del@[k]@ != a@,
            decreases n - j,
        {
            if del[j] == *a {
                return true;
            }
            j += 1;
        }
        false
    }

    /// The first position of the server bearing the given address, if any.
    fn find_server(&self, address: &String) -> (r: Option<usize>)
        ensures
            r matches Some(i) ==> i < self.servers@.len() && self.servers@[i as int].address@
                == address@ && (forall|j: int| 0 <= j < i ==> self.servers@[j].address@ != address@)
                && i == spec_first_index(self.servers@, address@),
            r is None ==> !spec_member(self.servers@, address@),
    {
        let n = self.servers.len();
        let mut i: usize = 0;
        loop
            invariant
                i <= n,
                n == self.servers@.len(),
                forall|j: int| 0 <= j < i ==> self.servers@[j].address@ != address@,
            ensures
                i <= n,
                forall|j: int| 0 <= j < i ==> self.servers@[j].address@ != address@,
                i < n ==> self.servers@[i as int].address@ == address@,
            decreases n - i,
        {
            if i == n {
                break ;
            }
            if self.servers[i].address == *address {
                break ;
            }
            i += 1;
        }
        if i < n {
            proof {
                let c = spec_first_index(self.servers@, address@);
                assert(0 <= c < self.servers@.len() && self.servers@[c].address@ == address@ && (
                forall|j: int| 0 <= j < c ==> self.servers@[j].address@ != address@));
                if c < i {
                    assert(self.servers@[c].address@ != address@);
                }
                if i < c {
                    assert(self.servers@[i as int].address@ != address@);
                }
            }
            Some(i)
        } else {
            None
        }
    }

    /// Accept a node-addition request: only when idle, so that at most one
    /// rebalance runs at a time. Every current member is reset to
    /// Initializing, the new nodes join as Initializing with the Add role,
    /// and the in-flight ring becomes the current ring plus the new
    /// entries.
    pub fn add_nodes(&mut self, new_servers_info: Vec<(String, usize)>) -> (r: Result<
        (),
        ClusterError,
    >)
        requires
            old(self).wf(),
        ensures
            final(self).wf(),
            !(old(self).status is Idle) ==> r == Err::<(), ClusterError>(ClusterError::NotIdle)
                && *final(self) == *old(self),
            old(self).status is Idle ==> r == Ok::<(), ClusterError>(()) && {
                &&& final(self).status is NodesStarting
                &&& final(self).hash_ring == old(self).hash_ring
                &&& final(self).new_hash_ring@ == old(self).hash_ring@ + new_servers_info@
                &&& final(self).servers@.len() == old(self).servers@.len()
                    + new_servers_info@.len()
                &&& forall|i: int|
                    0 <= i < old(self).servers@.len() ==> (#[trigger] final(self).servers@[i])
                        == spec_with_status(old(self).servers@[i], ServerStatus::Initializing)
                &&& forall|i: int|
                    old(self).servers@.len() <= i < final(self).servers@.len() ==> (
                    #[trigger] final(self).servers@[i]) == (ServerNode {
                        address: new_servers_info@[i - old(self).servers@.len()].0,
                        weight: new_servers_info@[i - old(self).servers@.len()].1,
                        ty: ServerType::Add,
                        status: ServerStatus::Initializing,
                    })
            },
    {
        if !matches!(self.status, ClusterStatus::Idle) {
            return Err(ClusterError::NotIdle);
        }
        let ghost s0 = self.servers@;
        let n = self.servers.len();
        let mut i: usize = 0;
        while i < n
            invariant
                i <= n,
                n == s0.len(),
                self.servers@.len() == n,
                self.status == old(self).status,
                self.hash_ring == old(self).hash_ring,
                self.new_hash_ring == old(self).new_hash_ring,
                s0 == old(self).servers@,
                forall|j: int|
                    0 <= j < i ==> (#[trigger] self.servers@[j]) == spec_with_status(
                        s0[j],
                        ServerStatus::Initializing,
                    ),
                forall|j: int| i <= j < n ==> (#[trigger] self.servers@[j]) == s0[j],
            decreases n - i,
        {
            let node = self.servers.remove(i);
            self.servers.insert(
                i,
                ServerNode {
                    address: node.address,
                    weight: node.weight,
                    ty: node.ty,
                    status: ServerStatus::Initializing,
                },
            );
            i += 1;
        }
        let mut ring = Self::clone_ring(&self.hash_ring);
        let m = new_servers_info.len();
        let mut k: usize = 0;
        while k < m
            invariant
                k <= m,
                m == new_servers_info@.len(),
                self.status == old(self).status,
                self.hash_ring == old(self).hash_ring,
                self.new_hash_ring == old(self).new_hash_ring,
                ring@ =~= old(self).hash_ring@ + new_servers_info@.subrange(0, k as int),
                self.servers@.len() == n + k,
                n == old(self).servers@.len(),
                forall|j: int|
                    0 <= j < n ==> (#[trigger] self.servers@[j]) == spec_with_status(
                        old(self).servers@[j],
                        ServerStatus::Initializing,
                    ),
                forall|j: int|
                    n <= j < n + k ==> (#[trigger] self.servers@[j]) == (ServerNode {
                        address: new_servers_info@[j - n].0,
                        weight: new_servers_info@[j - n].1,
                        ty: ServerType::Add,
                        status: ServerStatus::Initializing,
                    }),
            decreases m - k,
        {
            let address = new_servers_info[k].0.clone();
            let weight = new_servers_info[k].1;
            ring.push((address.clone(), weight));
            self.servers.push(
                ServerNode { address, weight, ty: ServerType::Add, status: ServerStatus::Initializing },
            );
            proof {
                assert(ring@ =~= old(self).hash_ring@ + new_servers_info@.subrange(0, k + 1));
            }
            k += 1;
        }
        self.new_hash_ring = ring;
        self.status = ClusterStatus::NodesStarting;
        proof {
            assert(self.new_hash_ring@ =~= old(self).hash_ring@ + new_servers_info@);
        }
        Ok(())
    }

    /// Accept a node-removal request: only when idle, and only for
    /// addresses that are members. Every member is reset to Initializing,
    /// the listed ones take the Remove role, and the in-flight ring is the
    /// current ring without the listed addresses.
    pub fn remove_nodes(&mut self, deleted_servers_info: Vec<String>) -> (r: Result<
        (),
        ClusterError,
    >)
        requires
            old(self).wf(),
        ensures
            final(self).wf(),
            !(old(self).status is Idle) ==> r == Err::<(), ClusterError>(ClusterError::NotIdle)
                && *final(self) == *old(self),
            old(self).status is Idle && (exists|j: int|
                0 <= j < deleted_servers_info@.len() && !spec_member(
                    old(self).servers@,
                    deleted_servers_info@[j]@,
                )) ==> r == Err::<(), ClusterError>(ClusterError::UnknownServer) && *final(self)
                == *old(self),
            old(self).status is Idle && (forall|j: int|
                0 <= j < deleted_servers_info@.len() ==> spec_member(
                    old(self).servers@,
                    #[trigger] deleted_servers_info@[j]@,
                )) ==> r == Ok::<(), ClusterError>(()) && {
                &&& final(self).status is NodesStarting
                &&& final(self).hash_ring == old(self).hash_ring
                &&& final(self).new_hash_ring@ == spec_ring_without(
                    old(self).hash_ring@,
                    deleted_servers_info@,
                )
                &&& final(self).servers@.len() == old(self).servers@.len()
                &&& forall|i: int|
                    0 <= i < old(self).servers@.len() ==> (#[trigger] final(self).servers@[i])
                        == (ServerNode {
                        address: old(self).servers@[i].address,
                        weight: old(self).servers@[i].weight,
                        ty: if spec_name_listed(
                            deleted_servers_info@,
                            old(self).servers@[i].address@,
                        ) {
                            ServerType::Remove
                        } else {
                            ServerType::Running
                        },
                        status: ServerStatus::Initializing,
                    })
            },
    {
        if !matches!(self.status, ClusterStatus::Idle) {
            return Err(ClusterError::NotIdle);
        }
        let dn = deleted_servers_info.len();
        let mut j: usize = 0;
        while j < dn
            invariant
                j <= dn,
                dn == deleted_servers_info@.len(),
                *self == *old(self),
                old(self).wf(),
                old(self).status is Idle,
                forall|k: int|
                    0 <= k < j ==> spec_member(
                        self.servers@,
                        #[trigger] deleted_servers_info@[k]@,
                    ),
            decreases dn - j,
        {
            if self.find_server(&deleted_servers_info[j]).is_none() {
                return Err(ClusterError::UnknownServer);
            }
            j += 1;
        }
        let ghost s0 = self.servers@;
        let n = self.servers.len();
        let mut i: usize = 0;
        while i < n
            invariant
                i <= n,
                n == s0.len(),
                self.servers@.len() == n,
                self.status == old(self).status,
                self.hash_ring == old(self).hash_ring,
                self.new_hash_ring == old(self).new_hash_ring,
                s0 == old(self).servers@,
                forall|j2: int|
                    0 <= j2 < i ==> (#[trigger] self.servers@[j2]) == (ServerNode {
                        address: s0[j2].address,
                        weight: s0[j2].weight,
                        ty: if spec_name_listed(deleted_servers_info@, s0[j2].address@) {
                            ServerType::Remove
                        } else {
                            ServerType::Running
                        },
                        status: ServerStatus::Initializing,
                    }),
                forall|j2: int| i <= j2 < n ==> (#[trigger] self.servers@[j2]) == s0[j2],
            decreases n - i,
        {
            let node = self.servers.remove(i);
            let listed = Self::name_listed(&deleted_servers_info, &node.address);
            self.servers.insert(
                i,
                ServerNode {
                    address: node.address,
                    weight: node.weight,
                    ty: if listed {
                        ServerType::Remove
                    } else {
                        ServerType::Running
                    },
                    status: ServerStatus::Initializing,
                },
            );
            i += 1;
        }
        let rn = self.hash_ring.len();
        let mut ring: Vec<(String, usize)> = Vec::new();
        let mut k: usize = 0;
        while k < rn
            invariant
                k <= rn,
                rn == self.hash_ring@.len(),
                self.status == old(self).status,
                self.hash_ring == old(self).hash_ring,
                self.new_hash_ring == old(self).new_hash_ring,
                ring@ =~= spec_ring_without(
                    self.hash_ring@.subrange(0, k as int),
                    deleted_servers_info@,
                ),
            decreases rn - k,
        {
            let listed = Self::name_listed(&deleted_servers_info, &self.hash_ring[k].0);
            proof {
                assert(self.hash_ring@.subrange(0, k + 1).drop_last() =~= self.hash_ring@.subrange(
                    0,
                    k as int,
                ));
                assert(self.hash_ring@.subrange(0, k + 1).last() == self.hash_ring@[k as int]);
            }
            if !listed {
                ring.push((self.hash_ring[k].0.clone(), self.hash_ring[k].1));
            }
            k += 1;
        }
        proof {
            assert(self.hash_ring@.subrange(0, rn as int) =~= self.hash_ring@);
        }
        self.new_hash_ring = ring;
        self.status = ClusterStatus::NodesStarting;
        Ok(())
    }

    /// Distribute the in-flight ring: the manager moves from NodesStarting
    /// to SyncNewHashRing once the new nodes are up. Any other state
    /// rejects the transition.
    pub fn sync_new_hash_ring(&mut self) -> (r: Result<(), ClusterError>)
        requires
            old(self).wf(),
        ensures
            final(self).wf(),
            !(old(self).status is NodesStarting) ==> r == Err::<(), ClusterError>(
                ClusterError::InvalidTransition,
            ) && *final(self) == *old(self),
            old(self).status is NodesStarting ==> {
                &&& r == Ok::<(), ClusterError>(())
                &&& final(self).status is SyncNewHashRing
                &&& final(self).servers == old(self).servers
                &&& final(self).hash_ring == old(self).hash_ring
                &&& final(self).new_hash_ring == old(self).new_hash_ring
            },
    {
        if !matches!(self.status, ClusterStatus::NodesStarting) {
            return Err(ClusterError::InvalidTransition);
        }
        self.status = ClusterStatus::SyncNewHashRing;
        Ok(())
    }

    /// Handle one server's heartbeat-acknowledged status update during a
    /// rebalance. Only the single permitted forward step is accepted; any
    /// other requested move is a state-transition error that forces
    /// StatusError rather than applying a partial transition. When the
    /// update makes every server reach the current phase's gate, the
    /// cluster advances one phase; completing the last phase commits the
    /// in-flight ring as the current ring, drops the leaving nodes, and
    /// returns the cluster to Idle.
    #[verifier::rlimit(100)]
    #[verifier::spinoff_prover]
    pub fn update_server_status(&mut self, address: &String, requested: ServerStatus) -> (r:
        Result<ClusterStatus, ClusterError>)
        requires
            old(self).wf(),
        ensures
            final(self).wf(),
            !old(self).status.spec_rebalancing() ==> r == Err::<ClusterStatus, ClusterError>(
                ClusterError::NotRebalancing,
            ) && *final(self) == *old(self),
            old(self).status.spec_rebalancing() && !spec_member(old(self).servers@, address@)
                ==> r == Err::<ClusterStatus, ClusterError>(ClusterError::UnknownServer)
                && *final(self) == *old(self),
            old(self).status.spec_rebalancing() && spec_member(old(self).servers@, address@)
                && !old(self).servers@[spec_first_index(
                old(self).servers@,
                address@,
            )].status.spec_step_allowed(requested) ==> {
                &&& r == Err::<ClusterStatus, ClusterError>(ClusterError::InvalidTransition)
                &&& final(self).status is StatusError
                &&& final(self).servers@ == old(self).servers@
                &&& final(self).hash_ring == old(self).hash_ring
                &&& final(self).new_hash_ring == old(self).new_hash_ring
            },
            old(self).status.spec_rebalancing() && spec_member(old(self).servers@, address@)
                && old(self).servers@[spec_first_index(
                old(self).servers@,
                address@,
            )].status.spec_step_allowed(requested) ==> {
                let i = spec_first_index(old(self).servers@, address@);
                let u = old(self).servers@.update(
                    i,
                    spec_with_status(old(self).servers@[i], requested),
                );
                let done = (old(self).status is Finishing) && spec_all_reached(u, 5);
                &&& r == Ok::<ClusterStatus, ClusterError>(final(self).status)
                &&& (final(self).status is Idle <==> done)
                &&& !done ==> {
                    &&& final(self).servers@ == u
                    &&& final(self).hash_ring == old(self).hash_ring
                    &&& final(self).new_hash_ring == old(self).new_hash_ring
                    &&& (final(self).status == old(self).status || final(self).status
                        == spec_cluster_next(old(self).status))
                    &&& (final(self).status == spec_cluster_next(old(self).status) <==> !(old(
                        self,
                    ).status is NodesStarting) && spec_all_reached(
                        u,
                        spec_gate_rank(old(self).status),
                    ))
                }
                &&& done ==> {
                    &&& final(self).status is Idle
                    &&& final(self).hash_ring@ == old(self).new_hash_ring@
                    &&& final(self).new_hash_ring@.len() == 0
                    &&& final(self).servers@ == spec_keep_members(u)
                }
            },
    {
        if !self.status.rebalancing() {
            return Err(ClusterError::NotRebalancing);
        }
        let i = match self.find_server(address) {
            Some(i) => i,
            None => {
                return Err(ClusterError::UnknownServer);
            },
        };
        let node = self.servers.remove(i);
        let next = match node.status.apply_update(requested) {
            Ok(next) => next,
            Err(e) => {
                self.servers.insert(i, node);
                proof {
                    assert(self.servers@ =~= old(self).servers@);
                }
                self.status = ClusterStatus::StatusError;
                return Err(e);
            },
        };
        self.servers.insert(
            i,
            ServerNode { address: node.address, weight: node.weight, ty: node.ty, status: next },
        );
        proof {
            assert(self.servers@ =~= old(self).servers@.update(
                i as int,
                spec_with_status(old(self).servers@[i as int], requested),
            ));
            crate::status::lemma_server_status_forward_only(
                old(self).servers@[i as int].status,
                requested,
            );
            assert forall|j: int|
                0 <= j < self.servers@.len() implies #[trigger] self.servers@[j].status.spec_rank()
                >= spec_phase_floor(self.status) by {
                assert(old(self).servers@[j].status.spec_rank() >= spec_phase_floor(
                    old(self).status,
                ));
            };
            assert(spec_all_reached(self.servers@, spec_phase_floor(self.status)));
        }
        if matches!(self.status, ClusterStatus::NodesStarting) {
            return Ok(self.status);
        }
        let gate = match self.status {
            ClusterStatus::SyncNewHashRing => 1usize,
            ClusterStatus::PreTransfer => 2,
            ClusterStatus::Transferring => 3,
            ClusterStatus::PreFinish => 4,
            _ => 5,
        };
        proof {
            assert(gate == spec_gate_rank(self.status));
        }
        if !self.all_reached(gate) {
            return Ok(self.status);
        }
        if !matches!(self.status, ClusterStatus::Finishing) {
            self.status = match self.status {
                ClusterStatus::SyncNewHashRing => ClusterStatus::PreTransfer,
                ClusterStatus::PreTransfer => ClusterStatus::Transferring,
                ClusterStatus::Transferring => ClusterStatus::PreFinish,
                _ => ClusterStatus::Finishing,
            };
            return Ok(self.status);
        }
        // Every server is Finished: commit the in-flight ring and keep the
        // staying members.
        let ghost u = self.servers@;
        let n = self.servers.len();
        let mut kept: Vec<ServerNode> = Vec::new();
        let mut k: usize = 0;
        while k < n
            invariant
                k <= n,
                n == u.len(),
                self.servers@ == u,
                self.status == old(self).status,
                self.hash_ring == old(self).hash_ring,
                self.new_hash_ring == old(self).new_hash_ring,
                kept@ =~= spec_keep_members(u.subrange(0, k as int)),
            decreases n - k,
        {
            proof {
                assert(u.subrange(0, k + 1).drop_last() =~= u.subrange(0, k as int));
                assert(u.subrange(0, k + 1).last() == u[k as int]);
            }
            let keep = !matches!(self.servers[k].ty, ServerType::Remove);
            if keep {
                let node = &self.servers[k];
                kept.push(
                    ServerNode {
                        address: node.address.clone(),
                        weight: node.weight,
                        ty: ServerType::Running,
                        status: node.status,
                    },
                );
            }
            k += 1;
        }
        proof {
            assert(u.subrange(0, n as int) =~= u);
        }
        self.servers = kept;
        self.hash_ring = Self::clone_ring(&self.new_hash_ring);
        self.new_hash_ring = Vec::new();
        self.status = ClusterStatus::Idle;
        proof {
            lemma_keep_members_ranks(u);
        }
        Ok(self.status)
    }

    /// Whether every server has reached at least the given rank.
    fn all_reached(&self, rank: usize) -> (r: bool)
        ensures
            r == spec_all_reached(self.servers@, rank as int),
    {
        let n = self.servers.len();
        let mut i: usize = 0;
        while i < n
            invariant
                i <= n,
                n == self.servers@.len(),
                forall|j: int| 0 <= j < i ==> self.servers@[j].status.spec_rank() >= rank,
            decreases n - i,
        {
            if self.servers[i].status.rank() < rank {
                return false;
            }
            i += 1;
        }
        true
    }

    /// Escalate a server's reported failure or missed heartbeat deadline
    /// during a rebalance: the cluster enters the absorbing StatusError
    /// state rather than continuing with a partial transition.
    pub fn escalate_failure(&mut self, address: &String) -> (r: Result<(), ClusterError>)
        requires
            old(self).wf(),
        ensures
            final(self).wf(),
            !old(self).status.spec_rebalancing() ==> r == Err::<(), ClusterError>(
                ClusterError::NotRebalancing,
            ) && *final(self) == *old(self),
            old(self).status.spec_rebalancing() && !spec_member(old(self).servers@, address@)
                ==> r == Err::<(), ClusterError>(ClusterError::UnknownServer) && *final(self)
                == *old(self),
            old(self).status.spec_rebalancing() && spec_member(old(self).servers@, address@)
                ==> {
                &&& r == Ok::<(), ClusterError>(())
                &&& final(self).status is StatusError
                &&& final(self).servers == old(self).servers
                &&& final(self).hash_ring == old(self).hash_ring
                &&& final(self).new_hash_ring == old(self).new_hash_ring
            },
    {
        if !self.status.rebalancing() {
            return Err(ClusterError::NotRebalancing);
        }
        if self.find_server(address).is_none() {
            return Err(ClusterError::UnknownServer);
        }
        self.status = ClusterStatus::StatusError;
        Ok(())
    }

    /// Administrative reset out of the error state: every server status is
    /// reset, every member becomes a steady node again, the in-flight ring
    /// is discarded, and the current ring stands. Only StatusError accepts
    /// this; recovery is an explicit operator action, never automatic.
    pub fn reset(&mut self) -> (r: Result<(), ClusterError>)
        requires
            old(self).wf(),
        ensures
            final(self).wf(),
            !(old(self).status is StatusError) ==> r == Err::<(), ClusterError>(
                ClusterError::NotInErrorState,
            ) && *final(self) == *old(self),
            old(self).status is StatusError ==> r == Ok::<(), ClusterError>(()) && {
                &&& final(self).status is Idle
                &&& final(self).hash_ring == old(self).hash_ring
                &&& final(self).new_hash_ring@.len() == 0
                &&& final(self).servers@.len() == old(self).servers@.len()
                &&& forall|i: int|
                    0 <= i < old(self).servers@.len() ==> (#[trigger] final(self).servers@[i])
                        == (ServerNode {
                        address: old(self).servers@[i].address,
                        weight: old(self).servers@[i].weight,
                        ty: ServerType::Running,
                        status: ServerStatus::Finished,
                    })
            },
    {
        if !matches!(self.status, ClusterStatus::StatusError) {
            return Err(ClusterError::NotInErrorState);
        }
        let ghost s0 = self.servers@;
        let n = self.servers.len();
        let mut i: usize = 0;
        while i < n
            invariant
                i <= n,
                n == s0.len(),
                self.servers@.len() == n,
                self.status == old(self).status,
                self.hash_ring == old(self).hash_ring,
                self.new_hash_ring == old(self).new_hash_ring,
                s0 == old(self).servers@,
                forall|j: int|
                    0 <= j < i ==> (#[trigger] self.servers@[j]) == (ServerNode {
                        address: s0[j].address,
                        weight: s0[j].weight,
                        ty: ServerType::Running,
                        status: ServerStatus::Finished,
                    }),
                forall|j: int| i <= j < n ==> (#[trigger] self.servers@[j]) == s0[j],
            decreases n - i,
        {
            let node = self.servers.remove(i);
            self.servers.insert(
                i,
                ServerNode {
                    address: node.address,
                    weight: node.weight,
                    ty: ServerType::Running,
                    status: ServerStatus::Finished,
                },
            );
            i += 1;
        }
        self.new_hash_ring = Vec::new();
        self.status = ClusterStatus::Idle;
        Ok(())
    }

    /// The cluster status as a status query reports it.
    pub fn get_cluster_status(&self) -> (r: ClusterStatus)
        ensures
            r == self.status,
    {
        self.status
    }

    /// The current hash ring, the one routing takes effect from.
    pub fn get_hash_ring(&self) -> (r: &Vec<(String, usize)>)
        ensures
            r == &self.hash_ring,
    {
        &self.hash_ring
    }

    /// The in-flight ring of the running rebalance; outside a rebalance
    /// there is none.
    pub fn get_new_hash_ring(&self) -> (r: Result<&Vec<(String, usize)>, ClusterError>)
        ensures
            self.status.spec_rebalancing() ==> r == Ok::<&Vec<(String, usize)>, ClusterError>(
                &self.new_hash_ring,
            ),
            !self.status.spec_rebalancing() ==> r == Err::<&Vec<(String, usize)>, ClusterError>(
                ClusterError::NotRebalancing,
            ),
    {
        if self.status.rebalancing() {
            Ok(&self.new_hash_ring)
        } else {
            Err(ClusterError::NotRebalancing)
        }
    }

    /// The number of members the manager tracks.
    pub fn server_count(&self) -> (r: usize)
        ensures
            r == self.servers@.len(),
    {
        self.servers.len()
    }

    /// The member at position `i`.
    pub fn server_at(&self, i: usize) -> (r: &ServerNode)
        requires
            i < self.servers@.len(),
        ensures
            r == self.servers@[i as int],
    {
        &self.servers[i]
    }
}

/// The kept members of a fully finished fleet are all Finished themselves.
proof fn lemma_keep_members_ranks(s: Seq<ServerNode>)
    requires
        spec_all_reached(s, 5),
    ensures
        forall|i: int|
            0 <= i < spec_keep_members(s).len() ==> (#[trigger] spec_keep_members(s)[i]).ty
                is Running && spec_keep_members(s)[i].status is Finished,
    decreases s.len(),
{
    if s.len() > 0 {
        assert(spec_all_reached(s.drop_last(), 5)) by {
            assert(forall|i: int|
                0 <= i < s.drop_last().len() ==> s.drop_last()[i] == s[i]);
        }
        lemma_keep_members_ranks(s.drop_last());
        assert(s[s.len() - 1].status.spec_rank() >= 5);
        assert(s.last().status is Finished);
    }
}

} // verus!
