use vstd::prelude::*;

verus! {

/// The password given when none is named on the command line.
pub open spec fn default_root_password() -> Seq<char> {
    "root"@
}

/// The password that is hashed for the root account: the one given, or `root`.
pub open spec fn root_password_spec(given: Option<String>) -> Seq<char> {
    match given {
        Some(p) => p@,
        None => default_root_password(),
    }
}

/// Chooses the root password to hash: the given one, else `root`.
pub fn root_password(given: &Option<String>) -> (r: String)
    ensures
        r@ == root_password_spec(*given),
        given matches Some(p) ==> r@ == p@,
        given is None ==> r@ == "root"@,
{
    match given {
        Some(p) => p.clone(),
        None => {
            proof {
                reveal_strlit("root");
            }
            String::from_str("root")
        },
    }
}

} // verus!
