//! Text helpers shared by the classifier, the lister and the naming rules.

use vstd::prelude::*;
use vstd::string::*;

verus! {

/// What `str::to_lowercase` makes of a text: the Unicode lower-case mapping,
/// character by character.
pub uninterp spec fn lower_of(s: Seq<char>) -> Seq<char>;

/// Relies on `str::to_lowercase`: the result depends on the characters
/// alone, and the empty text stays empty.
#[verifier::external_body]
pub(crate) fn lowercase(s: &str) -> (r: String)
    ensures
        r@ == lower_of(s@),
        s@.len() == 0 ==> r@.len() == 0,
{
    s.to_lowercase()
}

/// Relies on `FromIterator<&char>` for `String`: the text holds the
/// characters in the order given.
#[verifier::external_body]
pub(crate) fn string_from_chars(cs: &Vec<char>) -> (r: String)
    ensures
        r@ == cs@,
{
    cs.iter().collect()
}

/// The character of a digit below 16, lower-case past 9.
pub open spec fn digit_char(d: nat) -> char {
    if d < 10 {
        ((d + 48) as u8) as char
    } else {
        ((d + 87) as u8) as char
    }
}

/// `n` written in `base` (10 or 16) without leading zeros; `0` for zero.
pub open spec fn digits_of(n: nat, base: nat) -> Seq<char>
    decreases n,
    via digits_of_decreases
{
    if n < base || base < 2 {
        seq![digit_char(n)]
    } else {
        digits_of(n / base, base).push(digit_char(n % base))
    }
}

#[via_fn]
proof fn digits_of_decreases(n: nat, base: nat) {
    if !(n < base || base < 2) {
        assert(n / base < n) by (nonlinear_arith)
            requires
                n >= base,
                base >= 2,
        ;
    }
}

/// `n` in decimal.
pub open spec fn dec_of(n: nat) -> Seq<char> {
    digits_of(n, 10)
}

/// `n` in lower-case hexadecimal.
pub open spec fn hex_of(n: nat) -> Seq<char> {
    digits_of(n, 16)
}

/// Appends `n` written in `base` (10 or 16) to `out`.
pub fn push_digits(n: u64, base: u64, out: &mut Vec<char>)
    requires
        base == 10 || base == 16,
    ensures
        final(out)@ == old(out)@ + digits_of(n as nat, base as nat),
    decreases n,
{
    if n >= base {
        push_digits(n / base, base, out);
    }
    let d = n % base;
    let c: char = if d < 10 {
        ((d + 48) as u8) as char
    } else {
        ((d + 87) as u8) as char
    };
    out.push(c);
    proof {
        if n >= base {
            assert(old(out)@ + digits_of(n as nat, base as nat) =~= old(out)@ + digits_of(
                (n / base) as nat,
                base as nat,
            ) + seq![c]);
        } else {
            assert(old(out)@ + digits_of(n as nat, base as nat) =~= old(out)@ + seq![c]);
        }
    }
}

/// `n` written in `base` (10 or 16), as `digits_of` says.
pub fn digits(n: u64, base: u64) -> (r: Vec<char>)
    requires
        base == 10 || base == 16,
    ensures
        r@ == digits_of(n as nat, base as nat),
{
    let mut out: Vec<char> = Vec::new();
    push_digits(n, base, &mut out);
    assert(out@ =~= digits_of(n as nat, base as nat));
    out
}

/// `n` in decimal, as text.
pub fn decimal(n: u64) -> (r: String)
    ensures
        r@ == dec_of(n as nat),
{
    string_from_chars(&digits(n, 10))
}

/// `n` in lower-case hexadecimal, as text.
pub fn hexadecimal(n: u64) -> (r: String)
    ensures
        r@ == hex_of(n as nat),
{
    string_from_chars(&digits(n, 16))
}

/// Whether two texts hold the same characters.
pub fn text_eq(a: &str, b: &str) -> (r: bool)
    ensures
        r == (a@ == b@),
{
    a.to_owned() == b.to_owned()
}

/// The characters after the last `.` of `s`; all of `s` when it has none.
pub open spec fn ext_of(s: Seq<char>) -> Seq<char>
    decreases s.len(),
{
    if s.len() == 0 {
        s
    } else if s.last() == '.' {
        Seq::empty()
    } else {
        ext_of(s.drop_last()).push(s.last())
    }
}

/// The part of `name` after its last `.`; `None` for a name without one.
pub fn extension_of(name: &str) -> (r: Option<&str>)
    ensures
        r is Some <==> name@.contains('.'),
        r matches Some(e) ==> e@ == ext_of(name@),
{
    let n = name.unicode_len();
    let mut start: usize = 0;
    let mut found = false;
    let mut i: usize = 0;
    while i < n
        invariant
            n == name@.len(),
            start <= i <= n,
            ext_of(name@.subrange(0, i as int)) == name@.subrange(start as int, i as int),
            found == name@.subrange(0, i as int).contains('.'),
        decreases n - i,
    {
        let c = name.get_char(i);
        let ghost before = name@.subrange(0, i as int);
        let ghost pre = name@.subrange(0, i as int + 1);
        proof {
            assert(pre.drop_last() =~= before);
            assert(pre.last() == c);
            assert(pre =~= before.push(c));
            if before.contains('.') {
                let k = choose|k: int| 0 <= k < before.len() && before[k] == '.';
                assert(pre[k] == '.');
            }
            if pre.contains('.') && c != '.' {
                let k = choose|k: int| 0 <= k < pre.len() && pre[k] == '.';
                assert(k < before.len());
                assert(before[k] == '.');
            }
            if c == '.' {
                assert(pre[i as int] == '.');
            }
        }
        if c == '.' {
            start = i + 1;
            found = true;
            assert(name@.subrange(start as int, i as int + 1) =~= Seq::<char>::empty());
        } else {
            assert(name@.subrange(start as int, i as int + 1) =~= name@.subrange(
                start as int,
                i as int,
            ).push(c));
        }
        i = i + 1;
    }
    assert(name@.subrange(0, n as int) =~= name@);
    if found {
        Some(name.substring_char(start, n))
    } else {
        None
    }
}

/// Whether `s` begins with `c`.
pub fn starts_with_char(s: &str, c: char) -> (r: bool)
    ensures
        r == (s@.len() > 0 && s@[0] == c),
{
    if s.unicode_len() == 0 {
        false
    } else {
        s.get_char(0) == c
    }
}

} // verus!
