use vstd::prelude::*;

use crate::text::chars_of;

verus! {

/// Whether two strings hold the same characters.
pub fn same_text(a: &str, b: &str) -> (r: bool)
    ensures
        r == (a@ == b@),
{
    let x = chars_of(a);
    let y = chars_of(b);
    if x.len() != y.len() {
        return false;
    }
    let mut i: usize = 0;
    while i < x.len()
        invariant
            x@ == a@,
            y@ == b@,
            x@.len() == y@.len(),
            i <= x@.len(),
            forall|k: int| 0 <= k < i ==> x@[k] == y@[k],
        decreases x@.len() - i,
    {
        if x[i] != y[i] {
            return false;
        }
        i = i + 1;
    }
    assert(x@ =~= y@);
    true
}

/// The answer to a capability query `supports <renderer>`, given the whole
/// argument list with the program name first: `None` when the arguments are no
/// such query, else the exit status, which is 1 for the renderer
/// `not-supported` and 0 for any other.
pub fn capability_query(args: &Vec<String>) -> (r: Option<i32>)
    ensures
        r == (if args@.len() == 3 && args@[1]@ == "supports"@ {
            Some(if args@[2]@ == "not-supported"@ { 1i32 } else { 0i32 })
        } else {
            None
        }),
{
    if args.len() != 3 || !same_text(args[1].as_str(), "supports") {
        return None;
    }
    if same_text(args[2].as_str(), "not-supported") {
        Some(1)
    } else {
        Some(0)
    }
}

} // verus!
