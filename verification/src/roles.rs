//! The role-toggle reconciler and the self-service button layout.
//!
//! A toggle request is a two-state machine over the invoking member's role
//! snapshot: a member who has the role loses it, a member who lacks it
//! gains it. The remote mutation itself is performed outside the library;
//! the functions here decide the direction, recompute the snapshot that a
//! successful mutation produces, and lay out the button rows that present
//! the result.

use vstd::prelude::*;
use crate::guild::{first_index_of, lemma_first_index_char};
use crate::text::spec_dec;

verus! {

/// A guild role as the logic reads it: its id and its display name.
pub struct RoleInfo {
    pub id: u64,
    pub name: String,
}

impl Clone for RoleInfo {
    fn clone(&self) -> (r: Self)
        ensures
            r == *self,
    {
        RoleInfo { id: self.id, name: self.name.clone() }
    }
}

/// Whether `v` holds `x`.
pub fn contains_id(v: &Vec<u64>, x: u64) -> (r: bool)
    ensures
        r == v@.contains(x),
{
    let mut i: usize = 0;
    while i < v.len()
        invariant
            i <= v@.len(),
            forall|j: int| 0 <= j < i ==> v@[j] != x,
        decreases v@.len() - i,
    {
        if v[i] == x {
            return true;
        }
        i += 1;
    }
    false
}

/// A copy of a role-id vector.
pub fn copy_ids(v: &Vec<u64>) -> (r: Vec<u64>)
    ensures
        r@ == v@,
{
    let mut out: Vec<u64> = Vec::new();
    let mut i: usize = 0;
    while i < v.len()
        invariant
            i <= v@.len(),
            out@ =~= v@.take(i as int),
        decreases v@.len() - i,
    {
        out.push(v[i]);
        i += 1;
    }
    proof {
        assert(v@.take(v@.len() as int) =~= v@);
    }
    out
}

/// Get the index of the role in the member's role vector.
///
/// Done locally instead of a remote fetch of the updated roles.
pub fn get_index(role_id: u64, member_roles: &Vec<u64>) -> (r: Option<usize>)
    ensures
        match r {
            Some(i) => i < member_roles@.len() && member_roles@[i as int] == role_id
                && !member_roles@.take(i as int).contains(role_id),
            None => !member_roles@.contains(role_id),
        },
{
    let mut i: usize = 0;
    while i < member_roles.len()
        invariant
            i <= member_roles@.len(),
            forall|j: int| 0 <= j < i ==> member_roles@[j] != role_id,
        decreases member_roles@.len() - i,
    {
        if member_roles[i] == role_id {
            proof {
                if member_roles@.take(i as int).contains(role_id) {
                    let j = choose|j: int|
                        0 <= j < i && member_roles@.take(i as int)[j] == role_id;
                    assert(member_roles@[j] == role_id);
                }
            }
            return Some(i);
        }
        i += 1;
    }
    None
}

/// The direction of one toggle request.
#[derive(Clone, Copy, Debug, PartialEq, Eq, Structural)]
pub enum ToggleAction {
    /// The member lacks the role: the remote mutation grants it.
    AddRole,
    /// The member has the role: the remote mutation revokes it.
    RemoveRole,
}

/// Which remote mutation a toggle of `role_id` performs, given the
/// member's role snapshot at request time.
pub fn toggle_direction(member_roles: &Vec<u64>, role_id: u64) -> (a: ToggleAction)
    ensures
        (a == ToggleAction::RemoveRole) == member_roles@.contains(role_id),
{
    if contains_id(member_roles, role_id) {
        ToggleAction::RemoveRole
    } else {
        ToggleAction::AddRole
    }
}

/// The member's role snapshot after a successful toggle: the first
/// occurrence of the role leaves the snapshot, or the role is prepended.
pub open spec fn toggle_result(member: Seq<u64>, role_id: u64) -> Seq<u64> {
    if member.contains(role_id) {
        member.remove(first_index_of(member, role_id))
    } else {
        seq![role_id] + member
    }
}

/// Recomputes the member's role snapshot after the remote mutation of a
/// toggle succeeded, without a re-fetch of member state.
pub fn apply_toggle(member_roles: &Vec<u64>, role_id: u64) -> (r: Vec<u64>)
    ensures
        r@ == toggle_result(member_roles@, role_id),
{
    let mut v = copy_ids(member_roles);
    match get_index(role_id, member_roles) {
        Some(i) => {
            proof {
                lemma_first_index_char(member_roles@, role_id, i as int);
                assert(member_roles@[i as int] == role_id);
                assert(member_roles@.contains(role_id));
            }
            v.remove(i);
        },
        None => {
            v.insert(0, role_id);
            proof {
                assert(v@ =~= seq![role_id] + member_roles@);
            }
        },
    }
    v
}

/// One planned toggle: the remote mutation to issue and the snapshot that
/// holds once it succeeds.
pub struct TogglePlan {
    pub action: ToggleAction,
    pub updated_roles: Vec<u64>,
}

/// Decides a toggle request against the guild's allow-list. A role id
/// outside `enabled_ids` is a silent no-op: no remote mutation is planned
/// and the snapshot stays as it is.
pub fn plan_toggle(enabled_ids: &Vec<u64>, member_roles: &Vec<u64>, role_id: u64) -> (r: Option<
    TogglePlan,
>)
    ensures
        match r {
            None => !enabled_ids@.contains(role_id),
            Some(p) => enabled_ids@.contains(role_id) && ((p.action == ToggleAction::RemoveRole)
                == member_roles@.contains(role_id)) && p.updated_roles@ == toggle_result(
                member_roles@,
                role_id,
            ),
        },
{
    if !contains_id(enabled_ids, role_id) {
        return None;
    }
    let action = toggle_direction(member_roles, role_id);
    let updated_roles = apply_toggle(member_roles, role_id);
    Some(TogglePlan { action, updated_roles })
}

/// The visual style of one self-service button.
#[derive(Clone, Copy, Debug, PartialEq, Eq, Structural)]
pub enum ButtonStyleKind {
    /// Green: the member has the role.
    Success,
    /// Grey: the member lacks the role.
    Secondary,
}

/// One planned button: its component identifier carries the role id as a
/// decimal numeral, its label is the role name, and its style shows
/// membership.
pub struct ButtonPlan {
    pub custom_id: String,
    pub label: String,
    pub style: ButtonStyleKind,
}

/// Whether `b` is the button that presents `role` to a member whose role
/// snapshot is `member`.
pub open spec fn button_matches(b: ButtonPlan, role: RoleInfo, member: Seq<u64>) -> bool {
    &&& b.custom_id@ == spec_dec(role.id as nat)
    &&& b.label@ == role.name@
    &&& (b.style == ButtonStyleKind::Success) == member.contains(role.id)
}

/// The style of the button for `role_id`: green when the member has the
/// role, grey otherwise.
pub fn button_color(role_id: u64, member_roles: &Vec<u64>) -> (s: ButtonStyleKind)
    ensures
        (s == ButtonStyleKind::Success) == member_roles@.contains(role_id),
{
    if contains_id(member_roles, role_id) {
        ButtonStyleKind::Success
    } else {
        ButtonStyleKind::Secondary
    }
}

/// Plans the button for one role.
pub fn button_component(role: &RoleInfo, member_roles: &Vec<u64>) -> (b: ButtonPlan)
    ensures
        button_matches(b, *role, member_roles@),
{
    ButtonPlan {
        custom_id: crate::text::u64_to_string(role.id),
        label: role.name.clone(),
        style: button_color(role.id, member_roles),
    }
}

/// One planned row of at most five buttons.
pub struct ActionRowPlan {
    pub buttons: Vec<ButtonPlan>,
}

/// Lays the enabled roles out as rows of five buttons: the roles keep
/// their order, every row but the last is full, and each button shows the
/// member's current membership.
pub fn construct_components(roles: &Vec<RoleInfo>, member_roles: &Vec<u64>) -> (rows: Vec<
    ActionRowPlan,
>)
    ensures
        rows@.len() == (roles@.len() + 4) / 5,
        forall|i: int|
            0 <= i < rows@.len() ==> rows@[i].buttons@.len() == (if 5 * i + 5 <= roles@.len() {
                5int
            } else {
                roles@.len() - 5 * i
            }),
        forall|i: int, j: int|
            0 <= i < rows@.len() && 0 <= j < rows@[i].buttons@.len() ==> button_matches(
                rows@[i].buttons@[j],
                roles@[5 * i + j],
                member_roles@,
            ),
{
    let n = roles.len();
    let mut rows: Vec<ActionRowPlan> = Vec::new();
    let mut start: usize = 0;
    while start < n
        invariant
            n == roles@.len(),
            start == 5 * rows@.len(),
            start <= n || start < n + 5,
            n > 0 ==> start < n + 5,
            forall|i: int|
                0 <= i < rows@.len() ==> rows@[i].buttons@.len() == (if 5 * i + 5 <= n {
                    5int
                } else {
                    n - 5 * i
                }),
            forall|i: int, j: int|
                0 <= i < rows@.len() && 0 <= j < rows@[i].buttons@.len() ==> button_matches(
                    rows@[i].buttons@[j],
                    roles@[5 * i + j],
                    member_roles@,
                ),
        decreases n + 5 - start,
    {
        let m: usize = if n - start >= 5 {
            5
        } else {
            n - start
        };
        let mut buttons: Vec<ButtonPlan> = Vec::new();
        let mut j: usize = 0;
        while j < m
            invariant
                j <= m,
                m <= 5,
                start + m <= n,
                n == roles@.len(),
                buttons@.len() == j,
                forall|q: int|
                    0 <= q < j ==> button_matches(
                        buttons@[q],
                        roles@[start + q],
                        member_roles@,
                    ),
            decreases m - j,
        {
            buttons.push(button_component(&roles[start + j], member_roles));
            j += 1;
        }
        rows.push(ActionRowPlan { buttons });
        start += 5;
    }
    proof {
        let len = rows@.len() as int;
        assert(5 * len >= n && 5 * len < n + 5);
        assert(len == (n + 4) / 5) by (nonlinear_arith)
            requires
                5 * len >= n,
                5 * len < n + 5,
                n >= 0,
                len >= 0,
        ;
    }
    rows
}

} // verus!
