//! Which roles may use which group of routes.

use std::rc::Rc;
use vstd::prelude::*;
use crate::ids::{hyphenated, id_text};

verus! {

/// The texts of a list of role names.
pub open spec fn role_texts(roles: Seq<String>) -> Seq<Seq<char>> {
    Seq::new(roles.len(), |i: int| roles[i]@)
}

/// True when `role` is one of `roles`.
pub open spec fn lists_role(roles: Seq<String>, role: Seq<char>) -> bool {
    exists|i: int| 0 <= i < roles.len() && (#[trigger] roles[i])@ == role
}

/// The roles admitted to each group of routes.
#[derive(PartialEq, Clone)]
pub struct Policy {
    pub user_policy: Vec<String>,
    pub courier_policy: Vec<String>,
    pub admin_policy: Vec<String>,
    pub analyst_policy: Vec<String>,
}

impl Policy {
    /// The policy in force: every role may use the user routes, couriers
    /// and admins the courier routes, admins alone the admin routes and
    /// analysts alone the analyst routes.
    pub fn build() -> (r: Policy)
        ensures
            role_texts(r.user_policy@) == seq!["USER"@, "COURIER"@, "ADMIN"@, "ANALYST"@],
            role_texts(r.courier_policy@) == seq!["COURIER"@, "ADMIN"@],
            role_texts(r.admin_policy@) == seq!["ADMIN"@],
            role_texts(r.analyst_policy@) == seq!["ANALYST"@],
    {
        let mut user_policy: Vec<String> = Vec::new();
        user_policy.push("USER".to_owned());
        user_policy.push("COURIER".to_owned());
        user_policy.push("ADMIN".to_owned());
        user_policy.push("ANALYST".to_owned());
        let mut courier_policy: Vec<String> = Vec::new();
        courier_policy.push("COURIER".to_owned());
        courier_policy.push("ADMIN".to_owned());
        let mut admin_policy: Vec<String> = Vec::new();
        admin_policy.push("ADMIN".to_owned());
        let mut analyst_policy: Vec<String> = Vec::new();
        analyst_policy.push("ANALYST".to_owned());
        assert(role_texts(user_policy@) =~= seq!["USER"@, "COURIER"@, "ADMIN"@, "ANALYST"@]);
        assert(role_texts(courier_policy@) =~= seq!["COURIER"@, "ADMIN"@]);
        assert(role_texts(admin_policy@) =~= seq!["ADMIN"@]);
        assert(role_texts(analyst_policy@) =~= seq!["ANALYST"@]);
        Policy { user_policy, courier_policy, admin_policy, analyst_policy }
    }
}

/// True for the roles under which an account can be opened.
pub open spec fn is_account_role(role: Seq<char>) -> bool {
    role == "USER"@ || role == "COURIER"@
}

/// Tells whether an account can be opened under `role`: users and couriers
/// sign up themselves, the other roles are given out.
pub fn validate_role(role: &str) -> (r: bool)
    ensures
        r == is_account_role(role@),
{
    let given = role.to_owned();
    given == "USER".to_owned() || given == "COURIER".to_owned()
}

/// Tells whether `role` is one of `roles`.
pub fn role_listed(roles: &Vec<String>, role: &str) -> (r: bool)
    ensures
        r == lists_role(roles@, role@),
{
    let wanted = role.to_owned();
    let mut i: usize = 0;
    while i < roles.len()
        invariant
            i <= roles.len(),
            wanted@ == role@,
            forall|k: int| 0 <= k < i ==> (#[trigger] roles@[k])@ != role@,
        decreases roles.len() - i,
    {
        if roles[i] == wanted {
            return true;
        }
        i += 1;
    }
    false
}

/// The guard of a group of routes: it admits the roles of its policy.
#[derive(Clone)]
pub struct PermissionsMiddlewareFactory {
    permissions_policy: Rc<Vec<String>>,
}

impl View for PermissionsMiddlewareFactory {
    type V = Seq<String>;

    /// The roles that the guard admits.
    closed spec fn view(&self) -> Seq<String> {
        (*self.permissions_policy)@
    }
}

impl PermissionsMiddlewareFactory {
    /// A guard that admits `permissions`.
    pub fn new(permissions: Vec<String>) -> (r: Self)
        ensures
            r@ == permissions@,
    {
        PermissionsMiddlewareFactory { permissions_policy: Rc::new(permissions) }
    }

    /// Tells whether the guard admits `role`.
    pub fn permits(&self, role: &str) -> (r: bool)
        ensures
            r == lists_role(self@, role@),
    {
        role_listed(&self.permissions_policy, role)
    }
}

/// The guard of the routes that carry a user's id: it admits the user under
/// that id, and admins.
#[derive(Clone, Default)]
pub struct UuidCheckerMiddlewareFactory {}

impl UuidCheckerMiddlewareFactory {
    /// Tells whether the caller, known by `caller` and `role`, may use the
    /// route for the id whose text is `path_id`.
    pub fn permits(&self, path_id: &str, caller: u128, role: &str) -> (r: bool)
        ensures
            r == (path_id@ == hyphenated(caller) || role@ == "ADMIN"@),
    {
        let own = id_text(caller);
        if path_id.to_owned() == own {
            return true;
        }
        role.to_owned() == "ADMIN".to_owned()
    }
}

} // verus!
