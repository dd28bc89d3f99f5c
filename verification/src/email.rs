//! The basic shape test applied to e-mail addresses.
use vstd::prelude::*;
use crate::text::{chars_of, is_white_space, is_whitespace};

verus! {

/// `address` has exactly one `@`, at position `at`.
pub open spec fn single_at(address: Seq<char>, at: int) -> bool {
    &&& 0 <= at < address.len()
    &&& address[at] == '@'
    &&& forall|j: int| 0 <= j < address.len() && j != at ==> address[j] != '@'
}

/// The accepted shape of an address: splitting at `@` gives exactly a local part and a
/// domain, the local part is not empty, the domain contains a `.`, and the address holds no
/// white space.
pub open spec fn is_basic_email(address: Seq<char>) -> bool {
    &&& exists|at: int|
        #![trigger single_at(address, at)]
        single_at(address, at) && at > 0 && exists|d: int|
            at < d < address.len() && address[d] == '.'
    &&& forall|i: int| 0 <= i < address.len() ==> !is_white_space(#[trigger] address[i])
}

/// Whether `address` has the basic shape of an e-mail address.
pub fn basic_email_valid(address: &str) -> (res: bool)
    ensures
        res == is_basic_email(address@),
{
    let cs = chars_of(address);
    let n = cs.len();
    let mut at: usize = n;
    let mut ats: usize = 0;
    let mut dot_after_at = false;
    let mut space = false;
    let mut i: usize = 0;
    while i < n
        invariant
            n == cs@.len(),
            cs@ == address@,
            i <= n,
            ats <= i,
            ats == 0 ==> at == n && forall|j: int| 0 <= j < i ==> cs@[j] != '@',
            ats >= 1 ==> at < i && cs@[at as int] == '@' && forall|j: int|
                0 <= j < at ==> cs@[j] != '@',
            ats == 1 ==> forall|j: int| at < j < i ==> cs@[j] != '@',
            ats >= 2 ==> exists|j: int| at < j < i && cs@[j] == '@',
            dot_after_at == (ats >= 1 && exists|d: int| at < d < i && cs@[d] == '.'),
            space == exists|j: int| 0 <= j < i && is_white_space(cs@[j]),
        decreases n - i,
    {
        let c = cs[i];
        if c == '@' {
            if ats == 0 {
                at = i;
                assert(!exists|d: int| at < d < i + 1 && cs@[d] == '.');
            }
            if ats < 2 {
                ats = ats + 1;
            }
        } else if c == '.' && ats >= 1 {
            dot_after_at = true;
        }
        if is_whitespace(c) {
            space = true;
        }
        i = i + 1;
    }
    let res = ats == 1 && at > 0 && dot_after_at && !space;
    proof {
        if ats == 1 {
            assert(single_at(address@, at as int));
        }
        if ats >= 2 {
            assert forall|k: int| single_at(address@, k) implies false by {
                let j = choose|j: int| at < j < n && cs@[j] == '@';
                assert(k == at as int);
            }
        }
        if ats == 0 {
            assert forall|k: int| single_at(address@, k) implies false by {
                assert(cs@[k] == '@');
            }
        }
        if ats == 1 {
            assert forall|k: int| single_at(address@, k) implies k == at by {
                if k != at {
                    assert(cs@[at as int] == '@');
                }
            }
        }
    }
    res
}

} // verus!
