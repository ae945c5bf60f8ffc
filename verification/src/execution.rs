//! Execution ids for command-line runs: `cli-` followed by two random 64-bit
//! values as 16 lowercase hex digits each.

use vstd::prelude::*;
use vstd::string::StringExecFns;

verus! {

/// The lowercase hex digit of a value below 16.
pub open spec fn hex_digit(n: u64) -> Seq<char> {
    if n == 0 { "0"@ }
    else if n == 1 { "1"@ }
    else if n == 2 { "2"@ }
    else if n == 3 { "3"@ }
    else if n == 4 { "4"@ }
    else if n == 5 { "5"@ }
    else if n == 6 { "6"@ }
    else if n == 7 { "7"@ }
    else if n == 8 { "8"@ }
    else if n == 9 { "9"@ }
    else if n == 10 { "a"@ }
    else if n == 11 { "b"@ }
    else if n == 12 { "c"@ }
    else if n == 13 { "d"@ }
    else if n == 14 { "e"@ }
    else { "f"@ }
}

/// The low `n` hex digits of `v`, most significant first (`{:0n$x}`).
pub open spec fn hex_digits(v: u64, n: nat) -> Seq<char>
    decreases n,
{
    if n == 0 {
        Seq::empty()
    } else {
        hex_digits(v / 16, (n - 1) as nat) + hex_digit(v % 16)
    }
}

/// The execution id built from two 64-bit values.
pub open spec fn execution_id_of(high: u64, low: u64) -> Seq<char> {
    "cli-"@ + hex_digits(high, 16) + hex_digits(low, 16)
}

/// Whether `c` is a lowercase hex digit.
pub open spec fn is_hex_char(c: char) -> bool {
    ('0' <= c && c <= '9') || ('a' <= c && c <= 'f')
}

fn hex_digit_str(n: u64) -> (digit: &'static str)
    requires
        n < 16,
    ensures
        digit@ == hex_digit(n),
{
    if n == 0 { "0" }
    else if n == 1 { "1" }
    else if n == 2 { "2" }
    else if n == 3 { "3" }
    else if n == 4 { "4" }
    else if n == 5 { "5" }
    else if n == 6 { "6" }
    else if n == 7 { "7" }
    else if n == 8 { "8" }
    else if n == 9 { "9" }
    else if n == 10 { "a" }
    else if n == 11 { "b" }
    else if n == 12 { "c" }
    else if n == 13 { "d" }
    else if n == 14 { "e" }
    else { "f" }
}

fn append_hex(out: &mut String, v: u64, n: u32)
    ensures
        final(out)@ == old(out)@ + hex_digits(v, n as nat),
    decreases n,
{
    if n > 0 {
        append_hex(out, v / 16, n - 1);
        out.append(hex_digit_str(v % 16));
    }
}

/// `cli-` followed by `high` and `low` as 16 lowercase hex digits each
/// (`format!("cli-{:016x}{:016x}", high, low)`).
pub fn execution_id(high: u64, low: u64) -> (id: String)
    ensures
        id@ == execution_id_of(high, low),
{
    let mut id = "cli-".to_owned();
    append_hex(&mut id, high, 16);
    append_hex(&mut id, low, 16);
    id
}

/// `fastrand::u64(..)`: a pseudo-random 64-bit value from the thread-local
/// generator. Nothing is claimed of the value.
#[verifier::external_body]
fn random_u64() -> u64 {
    fastrand::u64(..)
}

/// A fresh execution id from two pseudo-random values.
pub fn new_execution_id() -> (id: String)
    ensures
        exists|high: u64, low: u64| id@ == execution_id_of(high, low),
        id@.len() == 36,
        id@.take(4) == "cli-"@,
        forall|i: int| 4 <= i < 36 ==> is_hex_char(#[trigger] id@[i]),
{
    let high = random_u64();
    let low = random_u64();
    let id = execution_id(high, low);
    proof {
        lemma_execution_id_shape(high, low);
    }
    id
}

proof fn lemma_hex_digit(n: u64)
    ensures
        hex_digit(n).len() == 1,
        is_hex_char(hex_digit(n)[0]),
{
    reveal_strlit("0");
    reveal_strlit("1");
    reveal_strlit("2");
    reveal_strlit("3");
    reveal_strlit("4");
    reveal_strlit("5");
    reveal_strlit("6");
    reveal_strlit("7");
    reveal_strlit("8");
    reveal_strlit("9");
    reveal_strlit("a");
    reveal_strlit("b");
    reveal_strlit("c");
    reveal_strlit("d");
    reveal_strlit("e");
    reveal_strlit("f");
}

proof fn lemma_hex_digits(v: u64, n: nat)
    ensures
        hex_digits(v, n).len() == n,
        forall|i: int| 0 <= i < n ==> is_hex_char(#[trigger] hex_digits(v, n)[i]),
    decreases n,
{
    if n > 0 {
        lemma_hex_digits(v / 16, (n - 1) as nat);
        lemma_hex_digit(v % 16);
        let prefix = hex_digits(v / 16, (n - 1) as nat);
        assert forall|i: int| 0 <= i < n implies is_hex_char(#[trigger] hex_digits(v, n)[i]) by {
            if i < n - 1 {
                assert(hex_digits(v, n)[i] == prefix[i]);
            }
        }
    }
}

/// Every execution id is `cli-` followed by 32 lowercase hex digits, 36
/// characters in all.
pub proof fn lemma_execution_id_shape(high: u64, low: u64)
    ensures
        execution_id_of(high, low).len() == 36,
        execution_id_of(high, low).take(4) == "cli-"@,
        forall|i: int| 4 <= i < 36 ==> is_hex_char(#[trigger] execution_id_of(high, low)[i]),
{
    reveal_strlit("cli-");
    lemma_hex_digits(high, 16);
    lemma_hex_digits(low, 16);
    let id = execution_id_of(high, low);
    let a = hex_digits(high, 16);
    let c = hex_digits(low, 16);
    assert(id.take(4) =~= "cli-"@);
    assert forall|i: int| 4 <= i < 36 implies is_hex_char(#[trigger] id[i]) by {
        if i < 20 {
            assert(id[i] == a[i - 4]);
        } else {
            assert(id[i] == c[i - 20]);
        }
    }
}

/// The value of a lowercase hex digit.
pub open spec fn hex_value(c: char) -> int {
    if '0' <= c && c <= '9' {
        c as int - '0' as int
    } else {
        c as int - 'a' as int + 10
    }
}

/// The number that a string of hex digits spells, most significant first.
pub open spec fn hex_number(s: Seq<char>) -> int
    decreases s.len(),
{
    if s.len() == 0 {
        0
    } else {
        hex_number(s.drop_last()) * 16 + hex_value(s.last())
    }
}

/// `16` to the power `n`.
pub open spec fn pow16(n: nat) -> int
    decreases n,
{
    if n == 0 {
        1
    } else {
        16 * pow16((n - 1) as nat)
    }
}

proof fn lemma_hex_digit_value(d: u64)
    requires
        d < 16,
    ensures
        hex_digit(d).len() == 1,
        hex_value(hex_digit(d)[0]) == d,
{
    reveal_strlit("0");
    reveal_strlit("1");
    reveal_strlit("2");
    reveal_strlit("3");
    reveal_strlit("4");
    reveal_strlit("5");
    reveal_strlit("6");
    reveal_strlit("7");
    reveal_strlit("8");
    reveal_strlit("9");
    reveal_strlit("a");
    reveal_strlit("b");
    reveal_strlit("c");
    reveal_strlit("d");
    reveal_strlit("e");
    reveal_strlit("f");
}

proof fn lemma_hex_digits_spell(v: u64, n: nat)
    requires
        v < pow16(n),
    ensures
        hex_digits(v, n).len() == n,
        hex_number(hex_digits(v, n)) == v,
    decreases n,
{
    if n > 0 {
        lemma_hex_digits_spell(v / 16, (n - 1) as nat);
        lemma_hex_digit_value(v % 16);
        let prefix = hex_digits(v / 16, (n - 1) as nat);
        let s = hex_digits(v, n);
        assert(s.drop_last() =~= prefix);
        assert(s.last() == hex_digit(v % 16)[0]);
    } else {
        assert(v == 0);
    }
}

/// An execution id spells its two values: its 16 hex digits after `cli-`
/// read back as `high`, the next 16 as `low`. So two ids are equal only when
/// both values are.
pub proof fn lemma_execution_id_spells_values(high: u64, low: u64)
    ensures
        hex_number(execution_id_of(high, low).subrange(4, 20)) == high,
        hex_number(execution_id_of(high, low).subrange(20, 36)) == low,
        forall|h: u64, l: u64| execution_id_of(h, l) == execution_id_of(high, low) ==> h == high && l == low,
{
    assert(pow16(16) == 0x1_0000_0000_0000_0000) by {
        reveal_with_fuel(pow16, 17);
    }
    reveal_strlit("cli-");
    lemma_hex_digits_spell(high, 16);
    lemma_hex_digits_spell(low, 16);
    let id = execution_id_of(high, low);
    assert(id.subrange(4, 20) =~= hex_digits(high, 16));
    assert(id.subrange(20, 36) =~= hex_digits(low, 16));
    assert forall|h: u64, l: u64| execution_id_of(h, l) == execution_id_of(high, low) implies h == high && l == low by {
        lemma_hex_digits_spell(h, 16);
        lemma_hex_digits_spell(l, 16);
        assert(execution_id_of(h, l).subrange(4, 20) =~= hex_digits(h, 16));
        assert(execution_id_of(h, l).subrange(20, 36) =~= hex_digits(l, 16));
    }
}

} // verus!
