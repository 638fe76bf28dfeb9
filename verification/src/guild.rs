//! The per-guild configuration record and the pure transformations that the
//! store's operations perform on it.

use vstd::prelude::*;

verus! {

/// Durable per-guild configuration.
pub struct Guild {
    /// Guild id, the unique key of the record.
    pub id: u64,
    /// Informational member counter, not invariant-bearing.
    pub member_count: u64,
    /// Channel where updated messages are logged, absent by default.
    pub updated_messages_channel: Option<u64>,
    /// Channel where deleted messages are logged, absent by default.
    pub deleted_messages_channel: Option<u64>,
    /// Channel where the rules are posted, absent by default.
    pub rules_channel: Option<u64>,
    /// The allow-list of roles that the self-service role command may
    /// grant, in display order; absent means the feature is disabled.
    pub roles: Option<Vec<u64>>,
}

/// The mathematical value of a guild record.
pub ghost struct GuildView {
    pub id: u64,
    pub member_count: u64,
    pub updated_messages_channel: Option<u64>,
    pub deleted_messages_channel: Option<u64>,
    pub rules_channel: Option<u64>,
    pub roles: Option<Seq<u64>>,
}

impl View for Guild {
    type V = GuildView;

    open spec fn view(&self) -> GuildView {
        GuildView {
            id: self.id,
            member_count: self.member_count,
            updated_messages_channel: self.updated_messages_channel,
            deleted_messages_channel: self.deleted_messages_channel,
            rules_channel: self.rules_channel,
            roles: match self.roles {
                Some(v) => Some(v@),
                None => None,
            },
        }
    }
}

/// The default configuration for a newly observed guild.
pub open spec fn default_guild(id: u64, member_count: u64) -> GuildView {
    GuildView {
        id: id,
        member_count: member_count,
        updated_messages_channel: None,
        deleted_messages_channel: None,
        rules_channel: None,
        roles: None,
    }
}

/// The enabled-roles sequence of a record; an absent list means none.
pub open spec fn enabled_of(g: GuildView) -> Seq<u64> {
    match g.roles {
        Some(s) => s,
        None => Seq::empty(),
    }
}

impl Guild {
    /// Create a new guild record with default configuration.
    pub fn new(id: u64, member_count: u64) -> (g: Guild)
        ensures
            g@ == default_guild(id, member_count),
    {
        Guild {
            id,
            member_count,
            updated_messages_channel: None,
            deleted_messages_channel: None,
            rules_channel: None,
            roles: None,
        }
    }
}

/// The guild's record with `role_id` appended to the allow-list; the list
/// springs into being if it was absent.
pub fn with_role_enabled(g: &Guild, role_id: u64) -> (r: Guild)
    ensures
        r@ == enable_step(g@, role_id),
{
    let mut new_roles: Vec<u64> = match &g.roles {
        None => Vec::new(),
        Some(v) => crate::roles::copy_ids(v),
    };
    new_roles.push(role_id);
    let r = Guild {
        id: g.id,
        member_count: g.member_count,
        updated_messages_channel: g.updated_messages_channel,
        deleted_messages_channel: g.deleted_messages_channel,
        rules_channel: g.rules_channel,
        roles: Some(new_roles),
    };
    proof {
        if g.roles is None {
            assert(r@.roles == Some(seq![role_id]));
        }
    }
    r
}

/// The guild's record with every occurrence of `role_id` removed from the
/// allow-list; an absent list stays absent.
pub fn with_role_disabled(g: &Guild, role_id: u64) -> (r: Guild)
    ensures
        r@ == disable_step(g@, role_id),
{
    let new_roles: Option<Vec<u64>> = match &g.roles {
        None => None,
        Some(v) => {
            let mut filtered: Vec<u64> = Vec::new();
            let mut j: usize = 0;
            while j < v.len()
                invariant
                    j <= v@.len(),
                    filtered@ == remove_all(v@.take(j as int), role_id),
                decreases v@.len() - j,
            {
                proof {
                    assert(v@.take(j + 1).drop_last() =~= v@.take(j as int));
                    assert(v@.take(j + 1).last() == v@[j as int]);
                }
                if v[j] != role_id {
                    filtered.push(v[j]);
                }
                j += 1;
            }
            proof {
                assert(v@.take(v@.len() as int) =~= v@);
            }
            Some(filtered)
        },
    };
    Guild {
        id: g.id,
        member_count: g.member_count,
        updated_messages_channel: g.updated_messages_channel,
        deleted_messages_channel: g.deleted_messages_channel,
        rules_channel: g.rules_channel,
        roles: new_roles,
    }
}

/// `s` with every occurrence of `r` removed, order otherwise kept.
pub open spec fn remove_all(s: Seq<u64>, r: u64) -> Seq<u64>
    decreases s.len(),
{
    if s.len() == 0 {
        Seq::empty()
    } else {
        let rest = remove_all(s.drop_last(), r);
        if s.last() == r {
            rest
        } else {
            rest.push(s.last())
        }
    }
}

/// The position of the first occurrence of `x` in `s`; `s.len()` if `x`
/// does not occur.
pub open spec fn first_index_of(s: Seq<u64>, x: u64) -> int
    decreases s.len(),
{
    if s.len() == 0 {
        0
    } else if s[0] == x {
        0
    } else {
        1 + first_index_of(s.skip(1), x)
    }
}

/// A position whose prefix is free of `x` and that holds `x` is the first
/// occurrence of `x`.
pub proof fn lemma_first_index_char(s: Seq<u64>, x: u64, j: int)
    requires
        0 <= j < s.len(),
        s[j] == x,
        !s.take(j).contains(x),
    ensures
        first_index_of(s, x) == j,
    decreases s.len(),
{
    if j == 0 {
    } else {
        assert(s[0] != x) by {
            assert(s.take(j)[0] == s[0]);
        }
        let t = s.skip(1);
        assert(t[j - 1] == x);
        assert(!t.take(j - 1).contains(x)) by {
            if t.take(j - 1).contains(x) {
                let i = choose|i: int| 0 <= i < j - 1 && #[trigger] t.take(j - 1)[i] == x;
                assert(s.take(j)[i + 1] == x);
            }
        }
        lemma_first_index_char(t, x, j - 1);
    }
}

/// The record after a role is enabled: the role id is appended to the
/// allow-list, which springs into being if it was absent.
pub open spec fn enable_step(g: GuildView, role_id: u64) -> GuildView {
    GuildView {
        roles: match g.roles {
            Some(s) => Some(s.push(role_id)),
            None => Some(seq![role_id]),
        },
        ..g
    }
}

/// The record after a role is disabled: every matching entry leaves the
/// allow-list; an absent list stays absent.
pub open spec fn disable_step(g: GuildView, role_id: u64) -> GuildView {
    GuildView {
        roles: match g.roles {
            Some(s) => Some(remove_all(s, role_id)),
            None => None,
        },
        ..g
    }
}

/// Removal removes exactly the matching entries: what remains is what was
/// there and differs from `r`.
pub proof fn lemma_remove_all_contains(s: Seq<u64>, r: u64, x: u64)
    ensures
        remove_all(s, r).contains(x) <==> (s.contains(x) && x != r),
    decreases s.len(),
{
    if s.len() > 0 {
        lemma_remove_all_contains(s.drop_last(), r, x);
        if s.last() != r && s.last() == x {
            let t = remove_all(s, r);
            assert(t.last() == x);
            assert(t.contains(x));
        }
        if remove_all(s.drop_last(), r).contains(x) || (s.last() != r && s.last() == x) {
            assert(remove_all(s, r).contains(x)) by {
                if remove_all(s.drop_last(), r).contains(x) {
                    let i = choose|i: int|
                        0 <= i < remove_all(s.drop_last(), r).len() && remove_all(
                            s.drop_last(),
                            r,
                        )[i] == x;
                    assert(remove_all(s, r)[i] == x);
                }
            }
        }
        if s.contains(x) && x != r {
            let i = choose|i: int| 0 <= i < s.len() && s[i] == x;
            if i < s.len() - 1 {
                assert(s.drop_last()[i] == x);
                assert(s.drop_last().contains(x));
            }
        }
    }
}

/// Disabling a role and then enabling it restores it to the allow-list,
/// appended at the end; every other role's membership is unchanged.
pub proof fn lemma_disable_then_enable(g: GuildView, r: u64)
    requires
        g.roles is Some,
    ensures
        enabled_of(enable_step(disable_step(g, r), r)).contains(r),
        enabled_of(enable_step(disable_step(g, r), r)).last() == r,
        forall|x: u64|
            x != r ==> (enabled_of(enable_step(disable_step(g, r), r)).contains(x) <==> enabled_of(
                g,
            ).contains(x)),
{
    let s = enabled_of(g);
    let after = remove_all(s, r).push(r);
    assert(enabled_of(enable_step(disable_step(g, r), r)) == after);
    assert(after.last() == r);
    assert(after.contains(r)) by {
        assert(after[after.len() - 1] == r);
    }
    assert forall|x: u64| x != r implies (after.contains(x) <==> s.contains(x)) by {
        lemma_remove_all_contains(s, r, x);
        if remove_all(s, r).contains(x) {
            let i = choose|i: int| 0 <= i < remove_all(s, r).len() && remove_all(s, r)[i] == x;
            assert(after[i] == x);
        }
        if after.contains(x) {
            let i = choose|i: int| 0 <= i < after.len() && after[i] == x;
            assert(remove_all(s, r)[i] == x);
        }
    }
}

} // verus!
