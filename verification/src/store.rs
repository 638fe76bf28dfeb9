//! The guild configuration store: one record per guild, keyed by guild id,
//! with idempotent creation, full-record replacement, and the enabled-roles
//! reads and read-modify-write updates built on them.
//!
//! The store's mathematical content is a map from guild id to record value.
//! The durable backend outside the library performs the same operations
//! against its collection; the functions here are the operations' logic.

use vstd::prelude::*;
use crate::guild::{
    default_guild, disable_step, enable_step, enabled_of, first_index_of, lemma_first_index_char,
    Guild, GuildView,
};
use crate::roles::{copy_ids, RoleInfo};

verus! {

/// A store operation's failure.
#[derive(Clone, Copy, Debug, PartialEq, Eq, Structural)]
pub enum StoreError {
    /// The operation expected a config record for the guild and none
    /// exists.
    NotFound,
}

/// The map that a sequence of records denotes: each record under its id,
/// later records shadowing earlier ones (with unique ids nothing shadows).
pub open spec fn records_map(s: Seq<GuildView>) -> Map<u64, GuildView>
    decreases s.len(),
{
    if s.len() == 0 {
        Map::empty()
    } else {
        records_map(s.drop_last()).insert(s.last().id, s.last())
    }
}

/// Record ids are pairwise distinct.
pub open spec fn unique_ids(s: Seq<GuildView>) -> bool {
    forall|i: int, j: int| 0 <= i < j < s.len() ==> s[i].id != s[j].id
}

/// The contents after an idempotent create: a default record springs into
/// being only where none exists.
pub open spec fn create_step(m: Map<u64, GuildView>, id: u64) -> Map<u64, GuildView> {
    if m.dom().contains(id) {
        m
    } else {
        m.insert(id, default_guild(id, 0))
    }
}

/// The contents after a full-record replace: only an existing record is
/// overwritten; a replace of an absent id changes nothing.
pub open spec fn replace_step(m: Map<u64, GuildView>, g: GuildView) -> Map<u64, GuildView> {
    if m.dom().contains(g.id) {
        m.insert(g.id, g)
    } else {
        m
    }
}

/// The enabled role ids that a read of `id` yields: the record's list, or
/// empty where the record or its list is absent.
pub open spec fn enabled_ids_of(m: Map<u64, GuildView>, id: u64) -> Seq<u64> {
    if m.dom().contains(id) {
        enabled_of(m[id])
    } else {
        Seq::empty()
    }
}

/// The live roles whose id equals `id`, in their own order.
pub open spec fn matches_of(id: u64, live: Seq<RoleInfo>) -> Seq<RoleInfo>
    decreases live.len(),
{
    if live.len() == 0 {
        Seq::empty()
    } else {
        let rest = matches_of(id, live.drop_last());
        if live.last().id == id {
            rest.push(live.last())
        } else {
            rest
        }
    }
}

/// The intersection of the live roles with the stored allow-list from
/// position `k` on, grouped in the stored list's order. A stored id whose
/// first occurrence lies before `k` contributes nothing again.
pub open spec fn allow_filter_from(stored: Seq<u64>, live: Seq<RoleInfo>, k: int) -> Seq<RoleInfo>
    decreases stored.len() - k,
{
    if k < 0 || k >= stored.len() {
        Seq::empty()
    } else {
        let h = stored[k];
        let rest = allow_filter_from(stored, live, k + 1);
        if stored.take(k).contains(h) {
            rest
        } else {
            matches_of(h, live) + rest
        }
    }
}

/// The live roles filtered through the stored allow-list, ordered by the
/// stored list, not by the live input.
pub open spec fn allow_filter(stored: Seq<u64>, live: Seq<RoleInfo>) -> Seq<RoleInfo> {
    allow_filter_from(stored, live, 0)
}

/// The in-memory guild configuration store.
pub struct GuildStore {
    records: Vec<Guild>,
}

impl View for GuildStore {
    type V = Map<u64, GuildView>;

    /// The store's mathematical contents: each guild's record under its id.
    closed spec fn view(&self) -> Map<u64, GuildView> {
        records_map(self.records@.map_values(|g: Guild| g@))
    }
}

proof fn lemma_records_map_char(s: Seq<GuildView>)
    requires
        unique_ids(s),
    ensures
        forall|id: u64|
            records_map(s).dom().contains(id) == exists|i: int|
                0 <= i < s.len() && #[trigger] s[i].id == id,
        forall|i: int| 0 <= i < s.len() ==> records_map(s)[#[trigger] s[i].id] == s[i],
    decreases s.len(),
{
    if s.len() > 0 {
        let t = s.drop_last();
        lemma_records_map_char(t);
        assert forall|id: u64| records_map(s).dom().contains(id) implies exists|i: int|
            0 <= i < s.len() && #[trigger] s[i].id == id by {
            if id == s.last().id {
                assert(s[s.len() - 1].id == id);
            } else {
                assert(records_map(t).dom().contains(id));
                let i = choose|i: int| 0 <= i < t.len() && #[trigger] t[i].id == id;
                assert(t[i] == s[i]);
                assert(s[i].id == id);
            }
        }
        assert forall|id: u64|
            (exists|i: int| 0 <= i < s.len() && #[trigger] s[i].id == id) implies records_map(
            s,
        ).dom().contains(id) by {
            let i = choose|i: int| 0 <= i < s.len() && #[trigger] s[i].id == id;
            if i < s.len() - 1 {
                assert(t[i].id == id);
            }
        }
        assert forall|i: int| 0 <= i < s.len() implies records_map(s)[#[trigger] s[i].id]
            == s[i] by {
            if i < s.len() - 1 {
                assert(t[i].id == s[i].id);
                assert(s[i].id != s.last().id);
            }
        }
    }
}

proof fn lemma_records_map_update(s: Seq<GuildView>, i: int, g: GuildView)
    requires
        unique_ids(s),
        0 <= i < s.len(),
        g.id == s[i].id,
    ensures
        unique_ids(s.update(i, g)),
        records_map(s.update(i, g)) =~= records_map(s).insert(g.id, g),
    decreases s.len(),
{
    let u = s.update(i, g);
    assert forall|p: int, q: int| 0 <= p < q < u.len() implies u[p].id != u[q].id by {
        assert(s[p].id != s[q].id);
    }
    if i == s.len() - 1 {
        assert(u.drop_last() =~= s.drop_last());
    } else {
        assert(u.drop_last() =~= s.drop_last().update(i, g));
        assert(s.drop_last()[i] == s[i]);
        lemma_records_map_update(s.drop_last(), i, g);
        assert(u.last() == s.last());
        assert(g.id != s.last().id);
    }
}

impl GuildStore {
    /// An empty store.
    pub fn new() -> (s: GuildStore)
        ensures
            s.wf(),
            s@ == Map::<u64, GuildView>::empty(),
    {
        GuildStore { records: Vec::new() }
    }

    /// The store's structural invariant: one record per guild id.
    pub closed spec fn wf(&self) -> bool {
        unique_ids(self.records@.map_values(|g: Guild| g@))
    }

    spec fn rviews(&self) -> Seq<GuildView> {
        self.records@.map_values(|g: Guild| g@)
    }

    fn find_index(&self, id: u64) -> (r: Option<usize>)
        ensures
            match r {
                Some(i) => i < self.records@.len() && self.records@[i as int].id == id,
                None => forall|j: int| 0 <= j < self.records@.len() ==> self.records@[j].id != id,
            },
    {
        let mut i: usize = 0;
        while i < self.records.len()
            invariant
                i <= self.records@.len(),
                forall|j: int| 0 <= j < i ==> self.records@[j].id != id,
            decreases self.records@.len() - i,
        {
            if self.records[i].id == id {
                return Some(i);
            }
            i += 1;
        }
        None
    }

    /// Returns the guild's record if one exists; absence is not an error.
    pub fn get_guild(&self, id: u64) -> (r: Option<&Guild>)
        requires
            self.wf(),
        ensures
            match r {
                Some(g) => self@.dom().contains(id) && g@ == self@[id],
                None => !self@.dom().contains(id),
            },
    {
        proof {
            lemma_records_map_char(self.rviews());
        }
        match self.find_index(id) {
            Some(i) => {
                proof {
                    assert(self.rviews()[i as int].id == id);
                }
                Some(&self.records[i])
            },
            None => {
                proof {
                    if self@.dom().contains(id) {
                        let j = choose|j: int|
                            0 <= j < self.rviews().len() && #[trigger] self.rviews()[j].id == id;
                        assert(self.records@[j].id == id);
                    }
                }
                None
            },
        }
    }

    /// Creates a default record for the guild if none exists; a record that
    /// already exists is left exactly as it is.
    pub fn create_guild(&mut self, id: u64)
        requires
            old(self).wf(),
        ensures
            final(self).wf(),
            final(self)@ == create_step(old(self)@, id),
    {
        proof {
            lemma_records_map_char(self.rviews());
        }
        match self.find_index(id) {
            Some(i) => {
                proof {
                    assert(self.rviews()[i as int].id == id);
                }
            },
            None => {
                proof {
                    if self@.dom().contains(id) {
                        let j = choose|j: int|
                            0 <= j < self.rviews().len() && #[trigger] self.rviews()[j].id == id;
                        assert(self.records@[j].id == id);
                    }
                }
                let g = Guild::new(id, 0);
                let ghost before = self.rviews();
                self.records.push(g);
                proof {
                    assert(self.rviews() =~= before.push(g@));
                    assert(self.rviews().drop_last() =~= before);
                    assert(final(self)@ =~= create_step(old(self)@, id));
                }
            },
        }
    }

    /// Replaces the guild's record wholesale with `guild`, keyed by its id.
    /// Where no record exists for that id, nothing changes.
    pub fn update_guild(&mut self, guild: Guild)
        requires
            old(self).wf(),
        ensures
            final(self).wf(),
            final(self)@ == replace_step(old(self)@, guild@),
    {
        proof {
            lemma_records_map_char(self.rviews());
        }
        match self.find_index(guild.id) {
            Some(i) => {
                let ghost before = self.rviews();
                let ghost gv = guild@;
                self.records.set(i, guild);
                proof {
                    assert(self.rviews() =~= before.update(i as int, gv));
                    lemma_records_map_update(before, i as int, gv);
                    assert(before[i as int].id == gv.id);
                    assert(old(self)@.dom().contains(gv.id));
                    assert(final(self)@ =~= replace_step(old(self)@, gv));
                }
            },
            None => {
                proof {
                    if self@.dom().contains(guild@.id) {
                        let j = choose|j: int|
                            0 <= j < self.rviews().len() && #[trigger] self.rviews()[j].id
                                == guild@.id;
                        assert(self.records@[j].id == guild@.id);
                    }
                }
            },
        }
    }

    /// Returns the guild's enabled role ids; a missing record or an absent
    /// list both read as the empty sequence.
    pub fn get_enabled_roles_ids(&self, guild_id: u64) -> (r: Vec<u64>)
        requires
            self.wf(),
        ensures
            r@ == enabled_ids_of(self@, guild_id),
    {
        match self.get_guild(guild_id) {
            None => Vec::new(),
            Some(g) => match &g.roles {
                None => Vec::new(),
                Some(v) => copy_ids(v),
            },
        }
    }

    /// Returns the live roles that the stored allow-list enables, in the
    /// stored list's order. Fails where no record exists for the guild,
    /// which is distinct from a record with an empty list.
    pub fn get_enabled_roles(&self, guild_id: u64, guild_roles: Vec<RoleInfo>) -> (r: Result<
        Vec<RoleInfo>,
        StoreError,
    >)
        requires
            self.wf(),
        ensures
            match r {
                Ok(v) => self@.dom().contains(guild_id) && v@ == allow_filter(
                    enabled_of(self@[guild_id]),
                    guild_roles@,
                ),
                Err(e) => e == StoreError::NotFound && !self@.dom().contains(guild_id),
            },
    {
        let g = match self.get_guild(guild_id) {
            None => {
                return Err(StoreError::NotFound);
            },
            Some(g) => g,
        };
        let stored = match &g.roles {
            None => {
                return Ok(Vec::new());
            },
            Some(v) => v,
        };
        Ok(filter_enabled_roles(stored, guild_roles))
    }

    /// Appends a role to the guild's allow-list so the self-service command
    /// offers one more button. Fails where no record exists for the guild.
    pub fn enable_role_for_roles_command(&mut self, guild_id: u64, role_id: u64) -> (r: Result<
        (),
        StoreError,
    >)
        requires
            old(self).wf(),
        ensures
            final(self).wf(),
            match r {
                Ok(_) => old(self)@.dom().contains(guild_id) && final(self)@ == old(
                    self,
                )@.insert(guild_id, enable_step(old(self)@[guild_id], role_id)),
                Err(e) => e == StoreError::NotFound && !old(self)@.dom().contains(guild_id)
                    && final(self)@ == old(self)@,
            },
    {
        proof {
            lemma_records_map_char(self.rviews());
        }
        let i = match self.find_index(guild_id) {
            Some(i) => i,
            None => {
                proof {
                    if self@.dom().contains(guild_id) {
                        let j = choose|j: int|
                            0 <= j < self.rviews().len() && #[trigger] self.rviews()[j].id
                                == guild_id;
                        assert(self.records@[j].id == guild_id);
                    }
                }
                return Err(StoreError::NotFound);
            },
        };
        let updated = crate::guild::with_role_enabled(&self.records[i], role_id);
        proof {
            assert(self.rviews()[i as int].id == guild_id);
            assert(updated@ == enable_step(self@[guild_id], role_id));
        }
        let ghost before = self.rviews();
        let ghost gv = updated@;
        self.records.set(i, updated);
        proof {
            assert(self.rviews() =~= before.update(i as int, gv));
            lemma_records_map_update(before, i as int, gv);
            assert(final(self)@ =~= old(self)@.insert(guild_id, enable_step(
                old(self)@[guild_id],
                role_id,
            )));
        }
        Ok(())
    }

    /// Removes every occurrence of a role from the guild's allow-list;
    /// removal of a role that is not listed is a no-op. Fails where no
    /// record exists for the guild.
    pub fn disable_role_for_roles_command(&mut self, guild_id: u64, role_id: u64) -> (r: Result<
        (),
        StoreError,
    >)
        requires
            old(self).wf(),
        ensures
            final(self).wf(),
            match r {
                Ok(_) => old(self)@.dom().contains(guild_id) && final(self)@ == old(
                    self,
                )@.insert(guild_id, disable_step(old(self)@[guild_id], role_id)),
                Err(e) => e == StoreError::NotFound && !old(self)@.dom().contains(guild_id)
                    && final(self)@ == old(self)@,
            },
    {
        proof {
            lemma_records_map_char(self.rviews());
        }
        let i = match self.find_index(guild_id) {
            Some(i) => i,
            None => {
                proof {
                    if self@.dom().contains(guild_id) {
                        let j = choose|j: int|
                            0 <= j < self.rviews().len() && #[trigger] self.rviews()[j].id
                                == guild_id;
                        assert(self.records@[j].id == guild_id);
                    }
                }
                return Err(StoreError::NotFound);
            },
        };
        proof {
            assert(self.rviews()[i as int].id == guild_id);
        }
        let old_rec = &self.records[i];
        match &old_rec.roles {
            None => {
                proof {
                    assert(disable_step(self@[guild_id], role_id) == self@[guild_id]);
                    assert(old(self)@.insert(guild_id, self@[guild_id]) =~= old(self)@);
                }
                Ok(())
            },
            Some(_) => {
                let updated = crate::guild::with_role_disabled(&self.records[i], role_id);
                proof {
                    assert(updated@ == disable_step(self@[guild_id], role_id));
                }
                let ghost before = self.rviews();
                let ghost gv = updated@;
                self.records.set(i, updated);
                proof {
                    assert(self.rviews() =~= before.update(i as int, gv));
                    lemma_records_map_update(before, i as int, gv);
                    assert(final(self)@ =~= old(self)@.insert(guild_id, disable_step(
                        old(self)@[guild_id],
                        role_id,
                    )));
                }
                Ok(())
            },
        }
    }
}

/// The live roles that the stored allow-list enables, in the stored list's
/// order of first occurrence, within one id in live order.
pub fn filter_enabled_roles(stored: &Vec<u64>, guild_roles: Vec<RoleInfo>) -> (r: Vec<RoleInfo>)
    ensures
        r@ == allow_filter(stored@, guild_roles@),
{
    let mut out: Vec<RoleInfo> = Vec::new();
    let mut k: usize = 0;
    while k < stored.len()
        invariant
            k <= stored@.len(),
            allow_filter(stored@, guild_roles@) =~= out@ + allow_filter_from(
                stored@,
                guild_roles@,
                k as int,
            ),
        decreases stored@.len() - k,
    {
        let h = stored[k];
        if !contains_prefix(stored, k, h) {
            let mut m = matching_roles(h, &guild_roles);
            proof {
                assert(allow_filter_from(stored@, guild_roles@, k as int) == matches_of(
                    h,
                    guild_roles@,
                ) + allow_filter_from(stored@, guild_roles@, k + 1));
            }
            out.append(&mut m);
            proof {
                assert(out@ + allow_filter_from(stored@, guild_roles@, k + 1) =~= allow_filter(
                    stored@,
                    guild_roles@,
                ));
            }
        }
        k += 1;
    }
    proof {
        assert(out@ =~= allow_filter(stored@, guild_roles@));
    }
    out
}

/// Creation is idempotent: a second create for the same guild leaves
/// exactly the one record that the first call left, with the same field
/// values.
pub proof fn lemma_create_idempotent(m: Map<u64, GuildView>, id: u64)
    ensures
        create_step(create_step(m, id), id) == create_step(m, id),
        create_step(m, id).dom().contains(id),
        m.dom().contains(id) ==> create_step(m, id) == m,
        !m.dom().contains(id) ==> create_step(m, id)[id] == default_guild(id, 0),
{
}

/// The store contents after a disable of `r` and then an enable of `r` on
/// guild `g`, each a read-modify-write through `replace`.
pub open spec fn after_disable_enable(m: Map<u64, GuildView>, g: u64, r: u64) -> Map<
    u64,
    GuildView,
> {
    let m1 = m.insert(g, disable_step(m[g], r));
    m1.insert(g, enable_step(m1[g], r))
}

/// Disabling a role and then enabling it restores it to the guild's
/// allow-list, appended at the end; every other role's membership in the
/// list is unchanged.
pub proof fn lemma_disable_enable_restores(m: Map<u64, GuildView>, g: u64, r: u64)
    requires
        m.dom().contains(g),
        m[g].roles is Some,
    ensures
        enabled_of(after_disable_enable(m, g, r)[g]).contains(r),
        enabled_of(after_disable_enable(m, g, r)[g]).last() == r,
        forall|x: u64|
            x != r ==> (enabled_of(after_disable_enable(m, g, r)[g]).contains(x) <==> enabled_of(
                m[g],
            ).contains(x)),
{
    crate::guild::lemma_disable_then_enable(m[g], r);
    assert(after_disable_enable(m, g, r)[g] == enable_step(disable_step(m[g], r), r));
}

proof fn lemma_matches_of_ids(id: u64, live: Seq<RoleInfo>)
    ensures
        forall|i: int| 0 <= i < matches_of(id, live).len() ==> matches_of(id, live)[i].id == id,
    decreases live.len(),
{
    if live.len() > 0 {
        lemma_matches_of_ids(id, live.drop_last());
        let rest = matches_of(id, live.drop_last());
        assert forall|i: int| 0 <= i < matches_of(id, live).len() implies matches_of(
            id,
            live,
        )[i].id == id by {
            if live.last().id == id && i == matches_of(id, live).len() - 1 {
                assert(matches_of(id, live)[i] == live.last());
            } else {
                assert(matches_of(id, live)[i] == rest[i]);
            }
        }
    }
}

proof fn lemma_allow_filter_from_order(stored: Seq<u64>, live: Seq<RoleInfo>, k: int)
    requires
        0 <= k,
    ensures
        forall|i: int|
            0 <= i < allow_filter_from(stored, live, k).len() ==> stored.contains(
                #[trigger] allow_filter_from(stored, live, k)[i].id,
            ) && k <= first_index_of(stored, allow_filter_from(stored, live, k)[i].id)
                < stored.len(),
        forall|i: int, j: int|
            0 <= i <= j < allow_filter_from(stored, live, k).len() ==> first_index_of(
                stored,
                #[trigger] allow_filter_from(stored, live, k)[i].id,
            ) <= first_index_of(stored, #[trigger] allow_filter_from(stored, live, k)[j].id),
    decreases stored.len() - k,
{
    if k >= stored.len() {
    } else {
        let h = stored[k];
        let res = allow_filter_from(stored, live, k);
        let rest = allow_filter_from(stored, live, k + 1);
        lemma_allow_filter_from_order(stored, live, k + 1);
        if stored.take(k).contains(h) {
            assert(res == rest);
        } else {
            let group = matches_of(h, live);
            lemma_matches_of_ids(h, live);
            lemma_first_index_char(stored, h, k);
            assert(stored.contains(h)) by {
                assert(stored[k] == h);
            }
            assert(res == group + rest);
            assert forall|i: int| 0 <= i < res.len() implies stored.contains(
                #[trigger] res[i].id,
            ) && k <= first_index_of(stored, res[i].id) < stored.len() by {
                if i < group.len() {
                    assert(res[i] == group[i]);
                    assert(res[i].id == h);
                } else {
                    assert(res[i] == rest[i - group.len()]);
                }
            }
            assert forall|i: int, j: int| 0 <= i <= j < res.len() implies first_index_of(
                stored,
                #[trigger] res[i].id,
            ) <= first_index_of(stored, #[trigger] res[j].id) by {
                if i < group.len() {
                    assert(res[i] == group[i]);
                    assert(first_index_of(stored, res[i].id) == k);
                } else {
                    assert(res[i] == rest[i - group.len()]);
                }
                if j < group.len() {
                    assert(res[j] == group[j]);
                    assert(first_index_of(stored, res[j].id) == k);
                } else {
                    assert(res[j] == rest[j - group.len()]);
                }
            }
        }
    }
}

/// The allow-list filter never returns a role whose id is absent from the
/// stored list, and the returned order follows the stored list's order of
/// first occurrence, not the live input's order.
pub proof fn lemma_enabled_roles_allowlist(stored: Seq<u64>, live: Seq<RoleInfo>)
    ensures
        forall|i: int|
            0 <= i < allow_filter(stored, live).len() ==> stored.contains(
                #[trigger] allow_filter(stored, live)[i].id,
            ),
        forall|i: int, j: int|
            0 <= i <= j < allow_filter(stored, live).len() ==> first_index_of(
                stored,
                #[trigger] allow_filter(stored, live)[i].id,
            ) <= first_index_of(stored, #[trigger] allow_filter(stored, live)[j].id),
{
    lemma_allow_filter_from_order(stored, live, 0);
}

/// Whether `x` occurs among the first `k` entries of `v`.
fn contains_prefix(v: &Vec<u64>, k: usize, x: u64) -> (r: bool)
    requires
        k <= v@.len(),
    ensures
        r == v@.take(k as int).contains(x),
{
    let mut i: usize = 0;
    while i < k
        invariant
            i <= k,
            k <= v@.len(),
            forall|j: int| 0 <= j < i ==> v@[j] != x,
        decreases k - i,
    {
        if v[i] == x {
            proof {
                assert(v@.take(k as int)[i as int] == x);
            }
            return true;
        }
        i += 1;
    }
    proof {
        if v@.take(k as int).contains(x) {
            let j = choose|j: int| 0 <= j < k && #[trigger] v@.take(k as int)[j] == x;
            assert(v@[j] == x);
        }
    }
    false
}

/// The live roles whose id is `id`, in live order.
fn matching_roles(id: u64, live: &Vec<RoleInfo>) -> (r: Vec<RoleInfo>)
    ensures
        r@ == matches_of(id, live@),
{
    let mut out: Vec<RoleInfo> = Vec::new();
    let mut i: usize = 0;
    while i < live.len()
        invariant
            i <= live@.len(),
            out@ == matches_of(id, live@.take(i as int)),
        decreases live@.len() - i,
    {
        proof {
            assert(live@.take(i + 1).drop_last() =~= live@.take(i as int));
            assert(live@.take(i + 1).last() == live@[i as int]);
        }
        if live[i].id == id {
            out.push(live[i].clone());
        }
        i += 1;
    }
    proof {
        assert(live@.take(live@.len() as int) =~= live@);
    }
    out
}

} // verus!
