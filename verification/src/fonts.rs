//! Resolving the persisted font choices against the fonts installed on the
//! system.

use vstd::prelude::*;
use vstd::string::StringExecFns;

use crate::chars::str_eq;

verus! {

/// Some installed font family is named `name`.
pub open spec fn is_installed(installed: Seq<String>, name: Seq<char>) -> bool {
    exists|i: int| 0 <= i < installed.len() && (#[trigger] installed[i])@ == name
}

/// The family to use: the persisted one when it is still installed,
/// otherwise `default`.
pub open spec fn resolved_font(installed: Seq<String>, persisted: Option<Seq<char>>, default: Seq<char>) -> Seq<char> {
    match persisted {
        Some(name) => if is_installed(installed, name) {
            name
        } else {
            default
        },
        None => default,
    }
}

/// Resolves a persisted font family name against `installed` (the system's
/// available font names), falling back to `default` when nothing was
/// persisted or the persisted family is no longer installed.
pub fn resolve_installed_font(installed: &[String], persisted: Option<&str>, default: &str) -> (r: String)
    ensures
        r@ == resolved_font(installed@, match persisted {
            Some(n) => Some(n@),
            None => None,
        }, default@),
{
    match persisted {
        Some(name) => {
            let mut i: usize = 0;
            while i < installed.len()
                invariant
                    i <= installed@.len(),
                    persisted == Some(name),
                    forall|k: int| 0 <= k < i ==> (#[trigger] installed@[k])@ != name@,
                decreases installed@.len() - i,
            {
                if str_eq(installed[i].as_str(), name) {
                    assert(installed@[i as int]@ == name@);
                    return String::from_str(name);
                }
                i = i + 1;
            }
            String::from_str(default)
        },
        None => String::from_str(default),
    }
}

} // verus!
