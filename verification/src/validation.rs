use vstd::prelude::*;

verus! {

/// Fewest bytes a username may have.
pub const USERNAME_MIN_LEN: usize = 3;

/// Most bytes a username may have.
pub const USERNAME_MAX_LEN: usize = 32;

/// Most bytes a bio or a tip message may have.
pub const MAX_TEXT_LEN: usize = 280;

/// A byte that may stand in a username: `a`-`z`, `0`-`9` or `_`.
pub open spec fn is_username_byte(c: u8) -> bool {
    (97 <= c <= 122) || (48 <= c <= 57) || c == 95
}

/// An ASCII digit.
pub open spec fn is_digit(c: u8) -> bool {
    48 <= c <= 57
}

/// What makes a username acceptable: between the two length limits, only
/// lower-case letters, digits and underscores, and no digit in front.
pub open spec fn valid_username(name: Seq<u8>) -> bool {
    &&& USERNAME_MIN_LEN <= name.len() <= USERNAME_MAX_LEN
    &&& !is_digit(name[0])
    &&& forall|i: int| 0 <= i < name.len() ==> is_username_byte(#[trigger] name[i])
}

/// Decides whether `name` is an acceptable username.
pub fn is_valid_username(name: &Vec<u8>) -> (r: bool)
    ensures
        r == valid_username(name@),
{
    let n = name.len();
    if n < USERNAME_MIN_LEN || n > USERNAME_MAX_LEN {
        return false;
    }
    let first = name[0];
    if first >= 48 && first <= 57 {
        return false;
    }
    let mut i: usize = 0;
    while i < n
        invariant
            n == name@.len(),
            i <= n,
            forall|j: int| 0 <= j < i ==> is_username_byte(#[trigger] name@[j]),
        decreases n - i,
    {
        let c = name[i];
        if !((c >= 97 && c <= 122) || (c >= 48 && c <= 57) || c == 95) {
            assert(!is_username_byte(name@[i as int]));
            return false;
        }
        i = i + 1;
    }
    true
}

} // verus!
