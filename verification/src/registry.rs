//! Which server services which shard of which protocol.
use std::collections::HashMap;
use std::hash::Hash;
use vstd::prelude::*;
use vstd::std_specs::hash::obeys_key_model;

use crate::net::Protocol;

verus! {

broadcast use vstd::std_specs::hash::group_hash_axioms;

/// A server's claim on a shard.
#[derive(Debug)]
pub struct ServerReg {
    /// The network identity of the server.
    pub endpoint: String,
    /// When the claim was made or last renewed.
    pub renewed: u64,
}

/// What a `ServerReg` says.
pub ghost struct ServerRegView {
    pub endpoint: Seq<char>,
    pub renewed: u64,
}

impl View for ServerReg {
    type V = ServerRegView;

    open spec fn view(&self) -> ServerRegView {
        ServerRegView { endpoint: self.endpoint@, renewed: self.renewed }
    }
}

impl ServerReg {
    /// A claim of the server `endpoint` made at `now`.
    pub fn new(endpoint: String, now: u64) -> (reg: ServerReg)
        ensures
            reg@ == (ServerRegView { endpoint: endpoint@, renewed: now }),
    {
        ServerReg { endpoint, renewed: now }
    }
}

/// The claims on one protocol's shards.
pub open spec fn regs_view(regs: Map<u32, ServerReg>) -> Map<u32, ServerRegView> {
    Map::new(|shard: u32| regs.contains_key(shard), |shard: u32| regs[shard]@)
}

/// The claims after those of `reg` on `shards` were added, each in place of an earlier one.
pub open spec fn claimed(
    regs: Map<u32, ServerRegView>,
    shards: Seq<u32>,
    reg: ServerRegView,
) -> Map<u32, ServerRegView> {
    Map::new(
        |shard: u32| regs.contains_key(shard) || shards.contains(shard),
        |shard: u32| if shards.contains(shard) { reg } else { regs[shard] },
    )
}

/// The claims without those of `netid`.
pub open spec fn without(regs: Map<u32, ServerRegView>, netid: Seq<char>) -> Map<u32, ServerRegView> {
    Map::new(
        |shard: u32| regs.contains_key(shard) && regs[shard].endpoint != netid,
        |shard: u32| regs[shard],
    )
}

/// The claim as it is after `netid` gave a sign of life at `now`.
pub open spec fn renewed(reg: ServerRegView, netid: Seq<char>, now: u64) -> ServerRegView {
    if reg.endpoint == netid {
        ServerRegView { renewed: now, ..reg }
    } else {
        reg
    }
}

/// The claims on one protocol's shards after `netid` gave a sign of life at `now`.
pub open spec fn renewed_regs(
    regs: Map<u32, ServerRegView>,
    netid: Seq<char>,
    now: u64,
) -> Map<u32, ServerRegView> {
    Map::new(|shard: u32| regs.contains_key(shard), |shard: u32| renewed(regs[shard], netid, now))
}

/// All claims of a cluster.
pub type Claims = Map<Protocol, Map<u32, ServerRegView>>;

/// The claims after a registration.
pub open spec fn added(
    claims: Claims,
    protocol: Protocol,
    netid: Seq<char>,
    shards: Seq<u32>,
    now: u64,
) -> Claims {
    let regs = if claims.contains_key(protocol) {
        claims[protocol]
    } else {
        Map::empty()
    };
    claims.insert(protocol, claimed(regs, shards, ServerRegView { endpoint: netid, renewed: now }))
}

/// The claims after a server left a protocol.
pub open spec fn dropped(claims: Claims, protocol: Protocol, netid: Seq<char>) -> Claims {
    if claims.contains_key(protocol) {
        claims.insert(protocol, without(claims[protocol], netid))
    } else {
        claims
    }
}

/// The claims after a server gave a sign of life.
pub open spec fn pulsed(claims: Claims, netid: Seq<char>, now: u64) -> Claims {
    Map::new(
        |protocol: Protocol| claims.contains_key(protocol),
        |protocol: Protocol| renewed_regs(claims[protocol], netid, now),
    )
}

/// The claims that a table of tables holds, each under its protocol's key.
pub open spec fn claims_view(servers: Map<u64, HashMap<u32, ServerReg>>) -> Claims {
    Map::new(
        |protocol: Protocol| servers.contains_key(protocol.key()),
        |protocol: Protocol| regs_view(servers[protocol.key()]@),
    )
}

/// The keys of a table, each once.
fn keys_of<K: Copy + Eq + Hash, V>(table: &HashMap<K, V>) -> (keys: Vec<K>)
    requires
        obeys_key_model::<K>(),
    ensures
        keys@.no_duplicates(),
        forall|k: K| keys@.contains(k) <==> table@.contains_key(k),
{
    let mut keys: Vec<K> = Vec::new();
    let ghost all = vstd::std_specs::iter::IteratorSpec::remaining(&table.keys());
    for k in it: table.keys()
        invariant
            it.seq() == all,
            keys@.len() == it.index(),
            forall|i: int| 0 <= i < keys@.len() ==> keys@[i] == *it.seq()[i],
    {
        keys.push(*k);
    }
    proof {
        assert(keys@ =~= all.unref());
        assert forall|k: K| keys@.contains(k) == table@.contains_key(k) by {
            assert(all.unref().to_set().contains(k) == table@.dom().contains(k));
        }
    }
    keys
}

/// A server that already holds a shard.
#[derive(Debug, Clone, Copy, PartialEq, Eq, Structural)]
pub struct RegConflict;

/// The servers of the cluster, by protocol and shard.
pub struct ServerMap {
    servers: HashMap<u64, HashMap<u32, ServerReg>>,
}

impl View for ServerMap {
    type V = Claims;

    closed spec fn view(&self) -> Claims {
        claims_view(self.servers@)
    }
}

impl Default for ServerMap {
    /// No server at all.
    fn default() -> (map: ServerMap)
        ensures
            map@ == Map::<Protocol, Map<u32, ServerRegView>>::empty(),
    {
        let map = ServerMap { servers: HashMap::new() };
        assert(map@ =~= Map::empty());
        map
    }
}

impl ServerMap {
    /// Registers the server `netid` for `shards`. A shard that another server holds changes
    /// hands, so there is never a conflict.
    pub fn add(
        &mut self,
        protocol: Protocol,
        netid: String,
        shards: Vec<u32>,
        now: u64,
    ) -> (result: Result<(), RegConflict>)
        ensures
            result is Ok,
            final(self)@ == added(old(self)@, protocol, netid@, shards@, now),
    {
        let key: u64 = protocol.key();
        let ghost before = self.servers@;
        let mut regs: HashMap<u32, ServerReg> = match self.servers.remove(&key) {
            Some(regs) => regs,
            None => HashMap::new(),
        };
        let ghost reg = ServerRegView { endpoint: netid@, renewed: now };
        let ghost start = regs_view(regs@);
        for i in 0..shards.len()
            invariant
                reg == (ServerRegView { endpoint: netid@, renewed: now }),
                regs_view(regs@) =~= claimed(start, shards@.take(i as int), reg),
        {
            let ghost prev = regs@;
            regs.insert(shards[i], ServerReg::new(netid.clone(), now));
            proof {
                let shard = shards@[i as int];
                let head = shards@.take(i as int);
                let next = shards@.take(i + 1);
                assert(next =~= head.push(shard));
                assert forall|s: u32| next.contains(s) == (head.contains(s) || s == shard) by {
                    if head.contains(s) {
                        let j = choose|j: int| 0 <= j < head.len() && head[j] == s;
                        assert(next[j] == s);
                    }
                    assert(next[i as int] == shard);
                }
                assert(regs_view(regs@) =~= regs_view(prev).insert(shard, reg));
            }
        }
        assert(shards@.take(shards@.len() as int) =~= shards@);
        self.servers.insert(key, regs);
        proof {
            let regs0 = if claims_view(before).contains_key(protocol) {
                claims_view(before)[protocol]
            } else {
                Map::<u32, ServerRegView>::empty()
            };
            assert(start =~= regs0);
            assert(claims_view(self.servers@) =~= claims_view(before).insert(
                protocol,
                regs_view(regs@),
            ));
        }
        Ok(())
    }

    /// Removes the claims of the server `netid` on shards of `protocol`.
    pub fn drop(&mut self, protocol: Protocol, netid: &str)
        ensures
            final(self)@ == dropped(old(self)@, protocol, netid@),
    {
        let key: u64 = protocol.key();
        let ghost before = self.servers@;
        let netid: String = netid.to_owned();
        if let Some(mut regs) = self.servers.remove(&key) {
            let ghost start = regs@;
            let shards: Vec<u32> = keys_of(&regs);
            assert forall|j: int| 0 <= j < shards@.len() implies regs@.contains_key(
                #[trigger] shards@[j],
            ) by {
                assert(shards@.contains(shards@[j]));
            }
            for i in 0..shards.len()
                invariant
                    shards@.no_duplicates(),
                    forall|s: u32| shards@.contains(s) <==> start.contains_key(s),
                    regs@.dom().subset_of(start.dom()),
                    forall|s: u32| #[trigger] regs@.contains_key(s) ==> regs@[s] == start[s],
                    forall|j: int|
                        i <= j < shards@.len() ==> regs@.contains_key(#[trigger] shards@[j]),
                    forall|j: int|
                        0 <= j < i ==> (regs@.contains_key(#[trigger] shards@[j])
                            <==> start[shards@[j]]@.endpoint != netid@),
            {
                let shard: u32 = shards[i];
                assert(shards@.contains(shards@[i as int]));
                let gone: bool = match regs.get(&shard) {
                    Some(reg) => reg.endpoint == netid,
                    None => false,
                };
                if gone {
                    regs.remove(&shard);
                }
            }
            proof {
                assert forall|s: u32|
                    start.contains_key(s) implies (#[trigger] regs@.contains_key(s)
                    <==> start[s]@.endpoint != netid@) by {
                    assert(shards@.contains(s));
                    let j = choose|j: int| 0 <= j < shards@.len() && shards@[j] == s;
                    assert(regs@.contains_key(shards@[j]) <==> start[shards@[j]]@.endpoint
                        != netid@);
                }
                assert(regs_view(regs@) =~= without(regs_view(start), netid@));
            }
            self.servers.insert(key, regs);
            proof {
                assert(claims_view(before).contains_key(protocol));
                assert(claims_view(before)[protocol] =~= regs_view(start));
                assert(claims_view(self.servers@) =~= claims_view(before).insert(
                    protocol,
                    regs_view(regs@),
                ));
            }
        } else {
            assert(claims_view(self.servers@) =~= claims_view(before));
        }
    }
}

impl ServerMap {
    /// Renews every claim of the server `netid`, whatever the protocol.
    pub fn renew(&mut self, netid: &str, now: u64)
        ensures
            final(self)@ == pulsed(old(self)@, netid@, now),
    {
        let netid: String = netid.to_owned();
        let ghost start = self.servers@;
        let keys: Vec<u64> = keys_of(&self.servers);
        assert forall|j: int| 0 <= j < keys@.len() implies start.contains_key(
            #[trigger] keys@[j],
        ) by {
            assert(keys@.contains(keys@[j]));
        }
        for i in 0..keys.len()
            invariant
                keys@.no_duplicates(),
                forall|k: u64| keys@.contains(k) <==> start.contains_key(k),
                self.servers@.dom() =~= start.dom(),
                forall|j: int|
                    i <= j < keys@.len() ==> self.servers@[#[trigger] keys@[j]] == start[keys@[j]],
                forall|j: int|
                    0 <= j < i ==> regs_view(self.servers@[#[trigger] keys@[j]]@) == renewed_regs(
                        regs_view(start[keys@[j]]@),
                        netid@,
                        now,
                    ),
        {
            let key: u64 = keys[i];
            assert(keys@.contains(keys@[i as int]));
            if let Some(mut regs) = self.servers.remove(&key) {
                renew_regs(&mut regs, &netid, now);
                self.servers.insert(key, regs);
            }
        }
        proof {
            assert forall|p: Protocol| #[trigger] start.contains_key(p.key()) implies regs_view(
                self.servers@[p.key()]@,
            ) == renewed_regs(regs_view(start[p.key()]@), netid@, now) by {
                assert(keys@.contains(p.key()));
                let j = choose|j: int| 0 <= j < keys@.len() && keys@[j] == p.key();
                assert(regs_view(self.servers@[keys@[j]]@) == renewed_regs(
                    regs_view(start[keys@[j]]@),
                    netid@,
                    now,
                ));
            }
            assert(claims_view(self.servers@) =~= pulsed(claims_view(start), netid@, now));
        }
    }

    /// Whether any server ever registered for `protocol`.
    pub fn knows(&self, protocol: Protocol) -> (known: bool)
        ensures
            known == self@.contains_key(protocol),
    {
        self.servers.contains_key(&protocol.key())
    }

    /// The server that services `shard` of `protocol`.
    pub fn get(&self, protocol: Protocol, shard: u32) -> (server: Option<&ServerReg>)
        ensures
            match server {
                Some(reg) => self@.contains_key(protocol) && self@[protocol].contains_key(shard)
                    && self@[protocol][shard] == reg@,
                None => !(self@.contains_key(protocol) && self@[protocol].contains_key(shard)),
            },
    {
        match self.servers.get(&protocol.key()) {
            Some(regs) => regs.get(&shard),
            None => None,
        }
    }
}

/// Renews the claims of `netid` on one protocol's shards.
fn renew_regs(regs: &mut HashMap<u32, ServerReg>, netid: &String, now: u64)
    ensures
        regs_view(final(regs)@) == renewed_regs(regs_view(old(regs)@), netid@, now),
{
    let ghost start = regs@;
    let shards: Vec<u32> = keys_of(regs);
    assert forall|j: int| 0 <= j < shards@.len() implies start.contains_key(
        #[trigger] shards@[j],
    ) by {
        assert(shards@.contains(shards@[j]));
    }
    for i in 0..shards.len()
        invariant
            shards@.no_duplicates(),
            forall|s: u32| shards@.contains(s) <==> start.contains_key(s),
            regs@.dom() =~= start.dom(),
            forall|j: int|
                i <= j < shards@.len() ==> regs@[#[trigger] shards@[j]] == start[shards@[j]],
            forall|j: int|
                0 <= j < i ==> regs@[#[trigger] shards@[j]]@ == renewed(
                    start[shards@[j]]@,
                    netid@,
                    now,
                ),
    {
        let shard: u32 = shards[i];
        assert(shards@.contains(shards@[i as int]));
        if let Some(mut reg) = regs.remove(&shard) {
            if reg.endpoint == *netid {
                reg.renewed = now;
            }
            regs.insert(shard, reg);
        }
    }
    proof {
        assert forall|s: u32| #[trigger] start.contains_key(s) implies regs@[s]@ == renewed(
            start[s]@,
            netid@,
            now,
        ) by {
            assert(shards@.contains(s));
            let j = choose|j: int| 0 <= j < shards@.len() && shards@[j] == s;
            assert(regs@[shards@[j]]@ == renewed(start[shards@[j]]@, netid@, now));
        }
        assert(regs_view(regs@) =~= renewed_regs(regs_view(start), netid@, now));
    }
}

} // verus!
