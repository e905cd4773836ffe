//! How conversation sessions are stored: the names roles are stored under,
//! reading them back, and the default database location.
use vstd::prelude::*;
use crate::error::FerroError;
use crate::message::Role;
use crate::text::{concat, str_eq};

verus! {

/// Where the session database lives unless told otherwise.
pub const DEFAULT_SESSION_DB_PATH: &'static str = "~/.local/share/ferroclaw/sessions.db";

/// The name a role is stored under.
pub open spec fn role_name(role: Role) -> Seq<char> {
    match role {
        Role::System => "system"@,
        Role::User => "user"@,
        Role::Assistant => "assistant"@,
        Role::Tool => "tool"@,
    }
}

/// The name a role is stored under.
pub fn role_to_str(role: Role) -> (res: &'static str)
    ensures
        res@ == role_name(role),
{
    match role {
        Role::System => "system",
        Role::User => "user",
        Role::Assistant => "assistant",
        Role::Tool => "tool",
    }
}

/// Reads a stored role name back; any other name is a session error
/// `unknown role in db: <name>`.
pub fn role_from_str(name: &str) -> (res: Result<Role, FerroError>)
    ensures
        match res {
            Ok(r) => role_name(r) == name@,
            Err(e) => (forall|r: Role| role_name(r) != name@) && (e matches FerroError::Session(m)
                && m@ == "unknown role in db: "@ + name@),
        },
{
    if str_eq(name, "system") {
        Ok(Role::System)
    } else if str_eq(name, "user") {
        Ok(Role::User)
    } else if str_eq(name, "assistant") {
        Ok(Role::Assistant)
    } else if str_eq(name, "tool") {
        Ok(Role::Tool)
    } else {
        assert forall|r: Role| role_name(r) != name@ by {
            match r {
                Role::System => {},
                Role::User => {},
                Role::Assistant => {},
                Role::Tool => {},
            }
        }
        Err(FerroError::Session(concat("unknown role in db: ", name)))
    }
}

/// Storing a role and reading it back gives the same role, and distinct
/// roles are stored under distinct names.
pub proof fn law_role_name_round_trip(a: Role, b: Role)
    ensures
        role_name(a) == role_name(b) ==> a == b,
{
    reveal_strlit("system");
    reveal_strlit("user");
    reveal_strlit("assistant");
    reveal_strlit("tool");
    if role_name(a) == role_name(b) && a != b {
        assert(role_name(a).len() != role_name(b).len() || role_name(a)[0] != role_name(b)[0]
            || role_name(a)[1] != role_name(b)[1]);
    }
}

} // verus!
