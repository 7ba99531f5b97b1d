//! Deterministic fresh-name generation shared by the renaming passes.
//!
//! The first name drawn is the one-letter name for counter value zero;
//! every later name is produced by repeatedly taking the counter value
//! modulo twenty-six, mapping the remainder to a lowercase letter, and
//! dividing by twenty-six, concatenating the letters in the order produced
//! (least-significant digit first). The resulting ordering is monotonic in
//! the counter value but deliberately not lexicographic.

use vstd::prelude::*;

verus! {

/// Relies on `String::push`: appends exactly the given character to the
/// end of the string.
pub assume_specification[ std::string::String::push ](s: &mut String, ch: char)
    ensures
        final(s)@ == old(s)@.push(ch),
;

/// The lowercase letter for one base-twenty-six digit.
pub open spec fn letter(d: int) -> char {
    (97 + d) as char
}

/// The base-twenty-six digits of `n`, least-significant first, as letters.
pub open spec fn digits(n: nat) -> Seq<char>
    decreases n,
{
    if n == 0 {
        Seq::empty()
    } else {
        seq![letter((n % 26) as int)] + digits(n / 26)
    }
}

/// The fresh name drawn when the counter stands at `n`: the letter `a` for
/// a counter that was never bumped, and the digit expansion of `n`
/// otherwise.
pub open spec fn name_seq(n: nat) -> Seq<char> {
    if n == 0 {
        seq!['a']
    } else {
        digits(n)
    }
}

/// One counter bump; the counter stops at the machine limit rather than
/// wrap.
pub open spec fn next_counter(n: nat) -> nat {
    if n < usize::MAX as nat {
        n + 1
    } else {
        n
    }
}

/// Bumps a counter held in a machine word.
pub fn bump(last: usize) -> (r: usize)
    ensures
        r as nat == next_counter(last as nat),
{
    if last < usize::MAX {
        last + 1
    } else {
        last
    }
}

/// The name for counter value `last`, exactly as [`name_seq`] states it.
pub fn fresh_name(last: usize) -> (r: String)
    ensures
        r@ == name_seq(last as nat),
{
    let mut accum = String::new();
    if last == 0 {
        accum.push('a');
        proof {
            assert(accum@ =~= name_seq(0));
        }
        return accum;
    }
    let mut current: usize = last;
    while current > 0
        invariant
            accum@ + digits(current as nat) == digits(last as nat),
        decreases current,
    {
        let ghost before = accum@;
        let ghost cur0 = current as nat;
        let idx: usize = current % 26;
        let ch: char = (97 + idx as u8) as char;
        proof {
            assert(ch == letter(idx as int));
        }
        accum.push(ch);
        current = current / 26;
        proof {
            assert(digits(cur0) == seq![letter((cur0 % 26) as int)] + digits(cur0 / 26));
            assert(accum@ + digits(current as nat) =~= before + digits(cur0));
        }
    }
    proof {
        assert(digits(0) =~= Seq::<char>::empty());
        assert(accum@ =~= digits(last as nat));
    }
    accum
}

} // verus!
