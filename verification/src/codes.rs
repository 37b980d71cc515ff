//! Room codes: short, human-shareable, freshly drawn six-digit strings.

use vstd::prelude::*;

verus! {

/// Relies on rand's gen_range on the thread-local generator: a uniformly
/// drawn value in the half-open range. It panics only on an empty range,
/// which the bound excludes; nothing more is promised of a random draw.
#[verifier::external_body]
fn random_in_range(lo: u32, hi: u32) -> (r: u32)
    requires
        lo < hi,
    ensures
        lo <= r < hi,
{
    rand::Rng::gen_range(&mut rand::thread_rng(), lo..hi)
}

/// The decimal digit character for a value below ten.
pub open spec fn spec_dec_digit(n: int) -> char {
    if n == 0 { '0' } else if n == 1 { '1' } else if n == 2 { '2' } else if n == 3 { '3' }
    else if n == 4 { '4' } else if n == 5 { '5' } else if n == 6 { '6' } else if n == 7 { '7' }
    else if n == 8 { '8' } else { '9' }
}

fn dec_digit(n: u32) -> (c: char)
    requires
        n < 10,
    ensures
        c == spec_dec_digit(n as int),
{
    if n == 0 { '0' } else if n == 1 { '1' } else if n == 2 { '2' } else if n == 3 { '3' }
    else if n == 4 { '4' } else if n == 5 { '5' } else if n == 6 { '6' } else if n == 7 { '7' }
    else if n == 8 { '8' } else { '9' }
}

/// The decimal text of a number.
pub open spec fn dec_text(n: nat) -> Seq<char>
    decreases n,
{
    if n < 10 {
        seq![spec_dec_digit(n as int)]
    } else {
        dec_text(n / 10).push(spec_dec_digit((n % 10) as int))
    }
}

fn u32_text(n: u32) -> (s: Vec<char>)
    ensures
        s@ == dec_text(n as nat),
    decreases n,
{
    if n < 10 {
        let mut s: Vec<char> = Vec::new();
        s.push(dec_digit(n));
        proof {
            assert(s@ =~= dec_text(n as nat));
        }
        s
    } else {
        let mut s = u32_text(n / 10);
        s.push(dec_digit(n % 10));
        s
    }
}

proof fn lemma_dec_text_len(n: nat, k: nat)
    requires
        k >= 1,
        pow10((k - 1) as nat) <= n < pow10(k),
    ensures
        dec_text(n).len() == k,
    decreases k,
{
    if k == 1 {
    } else {
        assert(pow10((k - 1) as nat) == 10 * pow10((k - 2) as nat));
        lemma_dec_text_len(n / 10, (k - 1) as nat);
    }
}

/// Ten to a power.
pub open spec fn pow10(k: nat) -> nat
    decreases k,
{
    if k == 0 {
        1
    } else {
        10 * pow10((k - 1) as nat)
    }
}

/// A freshly drawn room code: six decimal digits. The draw is random, so
/// nothing more than its shape can be promised.
pub fn generate_code() -> (s: String)
    ensures
        s@.len() == 6,
        exists|n: nat| 100000 <= n < 999999 && s@ == dec_text(n),
{
    let n = random_in_range(100000, 999999);
    proof {
        assert(pow10(0) == 1);
        assert(pow10(1) == 10);
        assert(pow10(2) == 100);
        assert(pow10(3) == 1000);
        assert(pow10(4) == 10000);
        assert(pow10(5) == 100000);
        assert(pow10(6) == 1000000);
        lemma_dec_text_len(n as nat, 6);
        assert(100000 <= (n as nat) && (n as nat) < 999999);
    }
    let cs = u32_text(n);
    let s = crate::codec::chars_string(&cs);
    proof {
        assert(s@ == dec_text(n as nat));
    }
    s
}

} // verus!
