//! Registry of shards that can host rooms, and the choice of the least
//! loaded one.

use vstd::prelude::*;

verus! {

/// Abstract value of a shard: where it listens and how loaded it is.
pub struct ShardView {
    pub addr: Seq<char>,
    pub load: usize,
}

/// Information about a shard capable of hosting rooms.
#[derive(Clone, Debug)]
pub struct ShardInfo {
    pub id: String,
    pub addr: String,
    pub load: usize,
}

impl ShardInfo {
    pub open spec fn shard_view(&self) -> ShardView {
        ShardView { addr: self.addr@, load: self.load }
    }

    pub fn new(id: String, addr: String, load: usize) -> (s: Self)
        ensures
            s.id@ == id@,
            s.addr@ == addr@,
            s.load == load,
    {
        ShardInfo { id, addr, load }
    }

    /// A field-by-field copy of this shard.
    pub fn duplicate(&self) -> (s: Self)
        ensures
            s.id@ == self.id@,
            s.addr@ == self.addr@,
            s.load == self.load,
    {
        ShardInfo { id: self.id.clone(), addr: self.addr.clone(), load: self.load }
    }
}

/// Registry of available shards, keyed by shard id.
pub trait ShardRegistry {
    /// The registered shards, by id.
    spec fn shards(&self) -> Map<Seq<char>, ShardView>;

    /// Adds the shard, replacing any shard registered under the same id.
    fn register(&mut self, shard: ShardInfo)
        ensures
            final(self).shards() == old(self).shards().insert(shard.id@, shard.shard_view()),
    ;

    /// Records the current load of a registered shard; unknown ids are ignored.
    fn heartbeat(&mut self, shard_id: &str, load: usize)
        ensures
            old(self).shards().contains_key(shard_id@) ==> final(self).shards() == old(
                self,
            ).shards().insert(
                shard_id@,
                ShardView { addr: old(self).shards()[shard_id@].addr, load },
            ),
            !old(self).shards().contains_key(shard_id@) ==> final(self).shards() == old(
                self,
            ).shards(),
    ;

    /// A registered shard whose load is minimal, or `None` when no shard is
    /// registered.
    fn least_loaded(&self) -> (r: Option<ShardInfo>)
        ensures
            r is None <==> self.shards().is_empty(),
            r matches Some(s) ==> {
                &&& self.shards().contains_key(s.id@)
                &&& self.shards()[s.id@] == s.shard_view()
                &&& forall|k: Seq<char>|
                    #[trigger] self.shards().contains_key(k) ==> s.load <= self.shards()[k].load
            },
    ;
}

/// In-memory implementation used for testing and local runs.
pub struct MemoryShardRegistry {
    shards: Vec<ShardInfo>,
}

/// Whether some shard in `s` has the given id.
pub open spec fn has_id(s: Seq<ShardInfo>, id: Seq<char>) -> bool {
    exists|i: int| 0 <= i < s.len() && #[trigger] s[i].id@ == id
}

/// No two shards in `s` share an id.
pub open spec fn ids_distinct(s: Seq<ShardInfo>) -> bool {
    forall|i: int, j: int| 0 <= i < s.len() && 0 <= j < s.len() && i != j ==> #[trigger] s[i].id@ != #[trigger] s[j].id@
}

/// The shards of `s` by id.
pub open spec fn shard_map(s: Seq<ShardInfo>) -> Map<Seq<char>, ShardView> {
    Map::new(
        |k: Seq<char>| has_id(s, k),
        |k: Seq<char>| s[choose|i: int| 0 <= i < s.len() && #[trigger] s[i].id@ == k].shard_view(),
    )
}

proof fn lemma_shard_map_at(s: Seq<ShardInfo>, i: int)
    requires
        ids_distinct(s),
        0 <= i < s.len(),
    ensures
        shard_map(s).contains_key(s[i].id@),
        shard_map(s)[s[i].id@] == s[i].shard_view(),
{
    assert(has_id(s, s[i].id@));
    let j = choose|j: int| 0 <= j < s.len() && #[trigger] s[j].id@ == s[i].id@;
    assert(j == i);
}

impl MemoryShardRegistry {
    #[verifier::type_invariant]
    spec fn ids_ok(self) -> bool {
        ids_distinct(self.shards@)
    }

    pub fn new() -> (r: Self)
        ensures
            r.shards().is_empty(),
    {
        let r = MemoryShardRegistry { shards: Vec::new() };
        assert(r.shards() =~= Map::empty());
        r
    }

    fn find(&self, id: &str) -> (r: Option<usize>)
        ensures
            r matches Some(i) ==> i < self.shards@.len() && self.shards@[i as int].id@ == id@,
            r is None ==> !has_id(self.shards@, id@),
    {
        let mut i: usize = 0;
        while i < self.shards.len()
            invariant
                i <= self.shards@.len(),
                forall|j: int| 0 <= j < i ==> #[trigger] self.shards@[j].id@ != id@,
            decreases self.shards@.len() - i,
        {
            if crate::text::str_eq(self.shards[i].id.as_str(), id) {
                return Some(i);
            }
            i = i + 1;
        }
        None
    }
}

impl ShardRegistry for MemoryShardRegistry {
    closed spec fn shards(&self) -> Map<Seq<char>, ShardView> {
        shard_map(self.shards@)
    }

    fn register(&mut self, shard: ShardInfo) {
        proof {
            use_type_invariant(&*self);
        }
        let found = self.find(shard.id.as_str());
        let ghost old_s = self.shards@;
        let mut shards: Vec<ShardInfo> = Vec::new();
        std::mem::swap(&mut shards, &mut self.shards);
        match found {
            Some(i) => {
                shards.set(i, shard);
            },
            None => {
                shards.push(shard);
            },
        }
        proof {
            let new_s = shards@;
            assert(ids_distinct(new_s));
            assert forall|k: Seq<char>| #[trigger] shard_map(new_s).contains_key(k)
                <==> shard_map(old_s).insert(shard.id@, shard.shard_view()).contains_key(k) by {
                if k != shard.id@ && has_id(old_s, k) {
                    let j = choose|j: int| 0 <= j < old_s.len() && #[trigger] old_s[j].id@ == k;
                    assert(new_s[j].id@ == k);
                }
                if k == shard.id@ {
                    let j = if found is Some { found->0 as int } else { old_s.len() as int };
                    assert(new_s[j].id@ == k);
                }
            }
            assert forall|k: Seq<char>| #[trigger] shard_map(new_s).contains_key(k)
                implies shard_map(new_s)[k] == shard_map(old_s).insert(shard.id@, shard.shard_view())[k] by {
                let j = choose|j: int| 0 <= j < new_s.len() && #[trigger] new_s[j].id@ == k;
                lemma_shard_map_at(new_s, j);
                if k != shard.id@ {
                    lemma_shard_map_at(old_s, j);
                }
            }
            assert(shard_map(new_s) =~= shard_map(old_s).insert(shard.id@, shard.shard_view()));
        }
        self.shards = shards;
    }

    fn heartbeat(&mut self, shard_id: &str, load: usize) {
        proof {
            use_type_invariant(&*self);
        }
        let found = self.find(shard_id);
        let ghost old_s = self.shards@;
        if let Some(i) = found {
            let old_entry = self.shards[i].duplicate();
            let updated = ShardInfo { id: old_entry.id, addr: old_entry.addr, load };
            let mut shards: Vec<ShardInfo> = Vec::new();
            std::mem::swap(&mut shards, &mut self.shards);
            shards.set(i, updated);
            proof {
                let new_s = shards@;
                lemma_shard_map_at(old_s, i as int);
                let target = shard_map(old_s).insert(
                    shard_id@,
                    ShardView { addr: shard_map(old_s)[shard_id@].addr, load },
                );
                assert forall|k: Seq<char>| #[trigger] shard_map(new_s).contains_key(k)
                    <==> target.contains_key(k) by {
                    if has_id(old_s, k) {
                        let j = choose|j: int| 0 <= j < old_s.len() && #[trigger] old_s[j].id@ == k;
                        assert(new_s[j].id@ == k);
                    }
                    if has_id(new_s, k) {
                        let j = choose|j: int| 0 <= j < new_s.len() && #[trigger] new_s[j].id@ == k;
                        assert(old_s[j].id@ == k);
                    }
                }
                assert forall|k: Seq<char>| #[trigger] shard_map(new_s).contains_key(k)
                    implies shard_map(new_s)[k] == target[k] by {
                    let j = choose|j: int| 0 <= j < new_s.len() && #[trigger] new_s[j].id@ == k;
                    lemma_shard_map_at(new_s, j);
                    lemma_shard_map_at(old_s, j);
                }
                assert(shard_map(new_s) =~= target);
            }
            self.shards = shards;
        }
    }

    fn least_loaded(&self) -> (r: Option<ShardInfo>) {
        proof {
            use_type_invariant(self);
        }
        if self.shards.len() == 0 {
            assert(self.shards() =~= Map::empty());
            return None;
        }
        let mut best: usize = 0;
        let mut i: usize = 1;
        while i < self.shards.len()
            invariant
                1 <= i <= self.shards@.len(),
                best < i,
                forall|j: int| 0 <= j < i ==> self.shards@[best as int].load <= #[trigger] self.shards@[j].load,
            decreases self.shards@.len() - i,
        {
            if self.shards[i].load < self.shards[best].load {
                best = i;
            }
            i = i + 1;
        }
        proof {
            let s = self.shards@;
            lemma_shard_map_at(s, best as int);
            assert(self.shards().contains_key(s[0].id@)) by {
                lemma_shard_map_at(s, 0);
            }
            assert forall|k: Seq<char>| #[trigger] self.shards().contains_key(k)
                implies s[best as int].load <= self.shards()[k].load by {
                let j = choose|j: int| 0 <= j < s.len() && #[trigger] s[j].id@ == k;
                lemma_shard_map_at(s, j);
            }
        }
        Some(self.shards[best].duplicate())
    }
}

} // verus!
