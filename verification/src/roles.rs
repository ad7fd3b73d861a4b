//! The rules for the roles that members hold.
use crate::text::{int_text, push_int};
use vstd::prelude::*;

verus! {

/// Why a role that members still hold cannot be deleted.
pub open spec fn role_in_use_text(users_with_role: int) -> Seq<char> {
    int_text(users_with_role) + " utilizatori au acest rol, rolul nu poate fi șters"@
}

/// A role may be deleted only when no member holds it; otherwise the message says
/// how many do.
pub fn role_deletion_refusal(users_with_role: i64) -> (r: Option<String>)
    ensures
        users_with_role > 0 ==> (r matches Some(m) && m@ == role_in_use_text(users_with_role as int)),
        users_with_role <= 0 ==> r is None,
{
    if users_with_role > 0 {
        proof {
            reveal_strlit(" utilizatori au acest rol, rolul nu poate fi șters");
        }
        let mut s = String::new();
        push_int(&mut s, users_with_role);
        s.append(" utilizatori au acest rol, rolul nu poate fi șters");
        Some(s)
    } else {
        None
    }
}

} // verus!
