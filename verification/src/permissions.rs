//! The permission-set provider: the canonical list of string permission
//! identifiers that every root access level carries at creation time.
use vstd::prelude::*;
use vstd::string::StringExecFns;

verus! {

/// The canonical full permission set, in its canonical order.
pub open spec fn spec_root_permissions() -> Seq<Seq<char>> {
    seq![
        "CREATE_USER"@,
        "UPDATE_USER"@,
        "DELETE_USER"@,
        "MANAGE_VEHICLES"@,
        "MANAGE_ORGANIZATION"@,
    ]
}

/// Returns the full permission set as owned strings.
pub fn root_permissions() -> (r: Vec<String>)
    ensures
        r.deep_view() == spec_root_permissions(),
{
    let mut r: Vec<String> = Vec::new();
    r.push(String::from_str("CREATE_USER"));
    r.push(String::from_str("UPDATE_USER"));
    r.push(String::from_str("DELETE_USER"));
    r.push(String::from_str("MANAGE_VEHICLES"));
    r.push(String::from_str("MANAGE_ORGANIZATION"));
    proof {
        assert(r.deep_view() =~= spec_root_permissions());
    }
    r
}

} // verus!
