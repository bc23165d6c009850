//! Byte strings read as big-endian natural numbers.

use vstd::prelude::*;

verus! {

/// The number that the first `n` bytes of `s` spell, most significant byte first.
pub open spec fn be_prefix(s: Seq<u8>, n: nat) -> nat
    decreases n,
{
    if n == 0 {
        0
    } else {
        be_prefix(s, (n - 1) as nat) * 256 + s[n - 1] as nat
    }
}

/// The number that `s` spells, most significant byte first.
pub open spec fn be_value(s: Seq<u8>) -> nat {
    be_prefix(s, s.len())
}

/// The last `n` base-256 digits of `v`, most significant digit first.
pub open spec fn be_bytes(v: nat, n: nat) -> Seq<u8>
    decreases n,
{
    if n == 0 {
        Seq::empty()
    } else {
        be_bytes(v / 256, (n - 1) as nat).push((v % 256) as u8)
    }
}

/// How many values `n` bytes can take.
pub open spec fn byte_range(n: nat) -> nat
    decreases n,
{
    if n == 0 {
        1
    } else {
        256 * byte_range((n - 1) as nat)
    }
}

/// Every byte of `s` is zero.
pub open spec fn all_zero(s: Seq<u8>) -> bool {
    forall|i: int| 0 <= i < s.len() ==> s[i] == 0
}

/// `be_prefix` looks at no byte past the prefix.
proof fn lemma_be_prefix_agrees(s: Seq<u8>, t: Seq<u8>, n: nat)
    requires
        n <= s.len(),
        n <= t.len(),
        forall|i: int| 0 <= i < n ==> s[i] == t[i],
    ensures
        be_prefix(s, n) == be_prefix(t, n),
    decreases n,
{
    if n > 0 {
        lemma_be_prefix_agrees(s, t, (n - 1) as nat);
    }
}

/// The first byte in which two strings of one length differ decides which number is smaller.
proof fn lemma_first_difference_decides(s: Seq<u8>, t: Seq<u8>, at: nat, n: nat)
    requires
        at < n <= s.len(),
        n <= t.len(),
        forall|i: int| 0 <= i < at ==> s[i] == t[i],
        s[at as int] < t[at as int],
    ensures
        be_prefix(s, n) < be_prefix(t, n),
    decreases n,
{
    if n == at + 1 {
        lemma_be_prefix_agrees(s, t, at);
    } else {
        lemma_first_difference_decides(s, t, at, (n - 1) as nat);
    }
}

pub proof fn lemma_be_bytes_len(v: nat, n: nat)
    ensures
        be_bytes(v, n).len() == n,
    decreases n,
{
    if n > 0 {
        lemma_be_bytes_len(v / 256, (n - 1) as nat);
    }
}

/// Spelling out the number that a string stands for gives the string back.
pub proof fn lemma_be_bytes_of_value(s: Seq<u8>)
    ensures
        be_bytes(be_value(s), s.len()) == s,
    decreases s.len(),
{
    if s.len() > 0 {
        let init = s.drop_last();
        lemma_be_bytes_of_value(init);
        lemma_be_prefix_agrees(s, init, init.len());
        let high = be_value(init);
        assert(be_value(s) == high * 256 + s.last() as nat);
        assert(be_value(s) / 256 == high);
        assert(be_value(s) % 256 == s.last() as nat);
        assert(init.push(s.last()) =~= s);
    } else {
        assert(s =~= Seq::empty());
    }
}

/// A number that fits into `n` bytes is what its spelling in `n` bytes stands for.
pub proof fn lemma_be_value_of_bytes(v: nat, n: nat)
    requires
        v < byte_range(n),
    ensures
        be_value(be_bytes(v, n)) == v,
        be_bytes(v, n).len() == n,
    decreases n,
{
    lemma_be_bytes_len(v, n);
    if n > 0 {
        let shorter = (n - 1) as nat;
        let init = be_bytes(v / 256, shorter);
        lemma_be_value_of_bytes(v / 256, shorter);
        lemma_be_prefix_agrees(be_bytes(v, n), init, shorter);
    }
}

/// A string stands for zero exactly when all its bytes are zero.
pub proof fn lemma_be_value_zero(s: Seq<u8>)
    ensures
        be_value(s) == 0 <==> all_zero(s),
{
    lemma_be_prefix_zero(s, s.len());
}

proof fn lemma_be_prefix_zero(s: Seq<u8>, n: nat)
    requires
        n <= s.len(),
    ensures
        be_prefix(s, n) == 0 <==> (forall|i: int| 0 <= i < n ==> s[i] == 0),
    decreases n,
{
    if n > 0 {
        lemma_be_prefix_zero(s, (n - 1) as nat);
        if be_prefix(s, n) == 0 {
            assert forall|i: int| 0 <= i < n implies s[i] == 0 by {
                if i < n - 1 {
                    assert(s[i] == 0);
                }
            }
        }
    }
}

/// Strings are read as positional numerals in base 256, the most significant byte first: nothing
/// spells zero, and one more byte at the end makes the number 256 times as large and adds the
/// byte.
pub proof fn law_be_value_is_positional(s: Seq<u8>, b: u8)
    ensures
        be_value(Seq::empty()) == 0,
        be_value(s.push(b)) == 256 * be_value(s) + b,
{
    lemma_be_prefix_agrees(s.push(b), s, s.len());
}

/// `n` bytes take `256^n` values.
pub proof fn law_byte_range_is_a_power(n: nat)
    ensures
        byte_range(n) == vstd::arithmetic::power::pow(256, n),
    decreases n,
{
    reveal(vstd::arithmetic::power::pow);
    if n > 0 {
        law_byte_range_is_a_power((n - 1) as nat);
    }
}

/// A number is spelled in `n` bytes by what is left of it modulo `256^n`.
pub proof fn law_be_bytes_spell_the_remainder(v: nat, n: nat)
    ensures
        be_bytes(v, n).len() == n,
        be_value(be_bytes(v, n)) == v as int % vstd::arithmetic::power::pow(256, n),
    decreases n,
{
    lemma_be_bytes_len(v, n);
    law_byte_range_is_a_power(n);
    if n > 0 {
        let shorter = (n - 1) as nat;
        let high = (v / 256) as int;
        law_be_bytes_spell_the_remainder(v / 256, shorter);
        law_byte_range_is_a_power(shorter);
        law_be_value_is_positional(be_bytes(v / 256, shorter), (v % 256) as u8);
        lemma_byte_range_positive(shorter);
        vstd::arithmetic::div_mod::lemma_mod_breakdown(v as int, 256, byte_range(shorter) as int);
        assert(high == v as int / 256);
    }
}

proof fn lemma_byte_range_positive(n: nat)
    ensures
        byte_range(n) > 0,
    decreases n,
{
    if n > 0 {
        lemma_byte_range_positive((n - 1) as nat);
    }
}

/// Whether the 32 bytes of `bytes` from `start` on spell a number that is at least the one that
/// `bound` spells. The bytes are compared from the most significant one down.
pub fn be_at_least(bytes: &[u8], start: usize, bound: &[u8; 32]) -> (at_least: bool)
    requires
        start + 32 <= bytes@.len(),
    ensures
        at_least == (be_value(bytes@.subrange(start as int, start + 32)) >= be_value(bound@)),
{
    let ghost window = bytes@.subrange(start as int, start + 32);
    let len: usize = bytes.len();
    let mut i: usize = 0;
    while i < 32
        invariant
            i <= 32,
            len == bytes@.len(),
            start + 32 <= len,
            window == bytes@.subrange(start as int, start + 32),
            forall|j: int| 0 <= j < i ==> window[j] == bound@[j],
        decreases 32 - i,
    {
        assert(window[i as int] == bytes@[start + i]);
        if bytes[start + i] > bound[i] {
            proof {
                lemma_first_difference_decides(bound@, window, i as nat, 32);
            }
            return true;
        } else if bytes[start + i] < bound[i] {
            proof {
                lemma_first_difference_decides(window, bound@, i as nat, 32);
            }
            return false;
        }
        i += 1;
    }
    proof {
        lemma_be_prefix_agrees(window, bound@, 32);
    }
    true
}

/// Whether all bytes of `bytes` are zero.
pub fn is_all_zero(bytes: &[u8]) -> (zero: bool)
    ensures
        zero == all_zero(bytes@),
{
    let mut i: usize = 0;
    while i < bytes.len()
        invariant
            i <= bytes@.len(),
            forall|j: int| 0 <= j < i ==> bytes@[j] == 0,
        decreases bytes@.len() - i,
    {
        if bytes[i] != 0 {
            return false;
        }
        i += 1;
    }
    true
}

/// Whether two 32-byte strings are the same.
pub fn is_same(left: &[u8; 32], right: &[u8; 32]) -> (same: bool)
    ensures
        same == (left@ == right@),
{
    let mut i: usize = 0;
    while i < 32
        invariant
            i <= 32,
            forall|j: int| 0 <= j < i ==> left@[j] == right@[j],
        decreases 32 - i,
    {
        if left[i] != right[i] {
            assert(left@[i as int] != right@[i as int]);
            return false;
        }
        i += 1;
    }
    assert(left@ =~= right@);
    true
}

} // verus!
