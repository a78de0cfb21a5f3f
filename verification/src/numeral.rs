//! Parsing a discriminant literal: digit-group separators are stripped, a
//! `0x`/`0b`/`0o` prefix directs the radix, and the remaining digits are read
//! as an unsigned integer. Text that is not a literal in this form is
//! rejected, exactly as the specification functions here state.

use vstd::arithmetic::div_mod::{lemma_fundamental_div_mod, lemma_mod_bound};
use vstd::prelude::*;

use crate::text::chars_of;

verus! {

/// The numeric value a character denotes as a digit (`0`-`9`, `a`-`f`,
/// `A`-`F`); 16 marks a character that is no digit at all.
pub open spec fn digit_value(c: char) -> nat {
    let u = c as u32;
    if 48 <= u && u <= 57 {
        (u - 48) as nat
    } else if 97 <= u && u <= 102 {
        (u - 97 + 10) as nat
    } else if 65 <= u && u <= 70 {
        (u - 65 + 10) as nat
    } else {
        16
    }
}

/// Whether `c` is a digit of the given radix.
pub open spec fn is_digit(c: char, radix: nat) -> bool {
    digit_value(c) < radix
}

/// Whether every character of `s` is a digit of the given radix.
pub open spec fn all_digits(s: Seq<char>, radix: nat) -> bool {
    forall|i: int| 0 <= i < s.len() ==> is_digit(#[trigger] s[i], radix)
}

/// The value of a digit string, most significant digit first.
pub open spec fn numeral_value(s: Seq<char>, radix: nat) -> nat
    decreases s.len(),
{
    if s.len() == 0 {
        0
    } else {
        numeral_value(s.drop_last(), radix) * radix + digit_value(s.last())
    }
}

/// `s` with every `_` separator removed, order kept.
pub open spec fn strip_seps(s: Seq<char>) -> Seq<char>
    decreases s.len(),
{
    if s.len() == 0 {
        Seq::empty()
    } else if s.last() == '_' {
        strip_seps(s.drop_last())
    } else {
        strip_seps(s.drop_last()).push(s.last())
    }
}

/// The radix a (separator-free) literal's prefix directs, and the digits that
/// follow the prefix: `0x` reads hexadecimal, `0b` binary, `0o` octal,
/// anything else decimal.
pub open spec fn radix_digits(s: Seq<char>) -> (nat, Seq<char>) {
    if s.len() >= 2 && s[0] == '0' && s[1] == 'x' {
        (16nat, s.skip(2))
    } else if s.len() >= 2 && s[0] == '0' && s[1] == 'b' {
        (2nat, s.skip(2))
    } else if s.len() >= 2 && s[0] == '0' && s[1] == 'o' {
        (8nat, s.skip(2))
    } else {
        (10nat, s)
    }
}

/// What parsing a discriminant text yields: the value of its digits under the
/// prefix-directed radix, or nothing when the text is not a representable
/// unsigned literal.
pub open spec fn discr_parse_spec(text: Seq<char>) -> Option<nat> {
    let stripped = strip_seps(text);
    let (radix, digits) = radix_digits(stripped);
    if digits.len() > 0 && all_digits(digits, radix) && numeral_value(digits, radix) <= u128::MAX {
        Some(numeral_value(digits, radix))
    } else {
        None
    }
}

/// A digit string's value never falls when the string grows to the right.
pub proof fn lemma_numeral_prefix_le(s: Seq<char>, radix: nat, i: int)
    requires
        0 <= i <= s.len(),
        radix >= 1,
    ensures
        numeral_value(s.subrange(0, i), radix) <= numeral_value(s, radix),
    decreases s.len() - i,
{
    if i == s.len() {
        assert(s.subrange(0, i) =~= s);
    } else {
        let p = s.subrange(0, i);
        let q = s.subrange(0, i + 1);
        assert(q.drop_last() =~= p);
        assert(q.last() == s[i]);
        assert(numeral_value(q, radix) == numeral_value(p, radix) * radix + digit_value(s[i]));
        assert(numeral_value(p, radix) * radix >= numeral_value(p, radix)) by (nonlinear_arith)
            requires
                radix >= 1,
        ;
        lemma_numeral_prefix_le(s, radix, i + 1);
    }
}

/// The digit a character denotes under the given radix, if it denotes one.
pub fn digit_of(c: char, radix: u32) -> (r: Option<u32>)
    requires
        2 <= radix <= 16,
    ensures
        r is Some <==> is_digit(c, radix as nat),
        r matches Some(d) ==> d == digit_value(c) && d < radix,
{
    let u = c as u32;
    let d: u32 = if u >= 48 && u <= 57 {
        u - 48
    } else if u >= 97 && u <= 102 {
        u - 97 + 10
    } else if u >= 65 && u <= 70 {
        u - 65 + 10
    } else {
        16
    };
    if d < radix {
        Some(d)
    } else {
        None
    }
}

/// `s` with every `_` removed.
pub fn strip_separators(s: &Vec<char>) -> (r: Vec<char>)
    ensures
        r@ == strip_seps(s@),
{
    let mut r: Vec<char> = Vec::new();
    let mut i: usize = 0;
    while i < s.len()
        invariant
            0 <= i <= s@.len(),
            r@ == strip_seps(s@.subrange(0, i as int)),
        decreases s@.len() - i,
    {
        let c = s[i];
        proof {
            assert(s@.subrange(0, i as int + 1).drop_last() =~= s@.subrange(0, i as int));
            assert(s@.subrange(0, i as int + 1).last() == s@[i as int]);
        }
        if c != '_' {
            r.push(c);
        }
        i += 1;
    }
    proof {
        assert(s@.subrange(0, s@.len() as int) =~= s@);
    }
    r
}

/// Reads the digits of `v` from index `from` on as a numeral of the given
/// radix; yields nothing when there are no digits, a character is no digit of
/// the radix, or the value does not fit the widest machine integer.
pub fn parse_digits(v: &Vec<char>, from: usize, radix: u32) -> (r: Option<u128>)
    requires
        from <= v@.len(),
        2 <= radix <= 16,
    ensures
        ({
            let ds = v@.subrange(from as int, v@.len() as int);
            match r {
                Some(n) => ds.len() > 0 && all_digits(ds, radix as nat) && n as nat
                    == numeral_value(ds, radix as nat),
                None => !(ds.len() > 0 && all_digits(ds, radix as nat) && numeral_value(
                    ds,
                    radix as nat,
                ) <= u128::MAX),
            }
        }),
{
    let ghost ds = v@.subrange(from as int, v@.len() as int);
    if from >= v.len() {
        return None;
    }
    let mut acc: u128 = 0;
    let mut i: usize = from;
    while i < v.len()
        invariant
            from <= i <= v@.len(),
            ds == v@.subrange(from as int, v@.len() as int),
            2 <= radix <= 16,
            all_digits(ds.subrange(0, i as int - from), radix as nat),
            acc as nat == numeral_value(ds.subrange(0, i as int - from), radix as nat),
        decreases v@.len() - i,
    {
        let ghost k = i as int - from;
        let c = v[i];
        proof {
            assert(ds[k] == v@[i as int]);
            assert(ds.subrange(0, k + 1).drop_last() =~= ds.subrange(0, k));
            assert(ds.subrange(0, k + 1).last() == ds[k]);
        }
        match digit_of(c, radix) {
            None => {
                proof {
                    assert(!is_digit(ds[k], radix as nat));
                    assert(!all_digits(ds, radix as nat));
                }
                return None;
            },
            Some(d) => {
                let limit = (u128::MAX - d as u128) / (radix as u128);
                proof {
                    lemma_fundamental_div_mod(
                        u128::MAX - d as u128,
                        radix as int,
                    );
                    lemma_mod_bound(u128::MAX - d as u128, radix as int);
                }
                if acc > limit {
                    proof {
                        let m = u128::MAX as int;
                        let rad = radix as int;
                        let dd = d as int;
                        let q = (m - dd) / rad;
                        assert(acc as int * rad + dd > m) by (nonlinear_arith)
                            requires
                                acc as int >= q + 1,
                                m - dd == rad * q + ((m - dd) % rad),
                                0 <= (m - dd) % rad < rad,
                                rad >= 2,
                                dd >= 0,
                        ;
                        assert(numeral_value(ds.subrange(0, k + 1), radix as nat) > u128::MAX);
                        lemma_numeral_prefix_le(ds, radix as nat, k + 1);
                        assert(numeral_value(ds, radix as nat) > u128::MAX);
                    }
                    return None;
                }
                proof {
                    let m = u128::MAX as int;
                    let rad = radix as int;
                    let dd = d as int;
                    let q = (m - dd) / rad;
                    assert(acc as int * rad + dd <= m) by (nonlinear_arith)
                        requires
                            0 <= acc as int <= q,
                            m - dd == rad * q + ((m - dd) % rad),
                            0 <= (m - dd) % rad,
                            rad >= 2,
                            dd >= 0,
                    ;
                }
                acc = acc * (radix as u128) + (d as u128);
            },
        }
        i += 1;
        proof {
            assert(all_digits(ds.subrange(0, i as int - from), radix as nat)) by {
                assert(forall|j: int|
                    0 <= j < k + 1 ==> #[trigger] ds.subrange(0, k + 1)[j] == ds.subrange(
                        0,
                        k,
                    ).push(ds[k])[j]);
            }
        }
    }
    proof {
        assert(ds.subrange(0, ds.len() as int) =~= ds);
    }
    Some(acc)
}

/// Parses a discriminant text: separators stripped, radix directed by the
/// prefix, digits read as an unsigned integer.
pub fn parse_discriminant(text: &str) -> (r: Option<u128>)
    ensures
        match r {
            Some(n) => discr_parse_spec(text@) == Some(n as nat),
            None => discr_parse_spec(text@) is None,
        },
{
    let cs = chars_of(text);
    let stripped = strip_separators(&cs);
    let (radix, from): (u32, usize) = if stripped.len() >= 2 && stripped[0] == '0' {
        let c1 = stripped[1];
        if c1 == 'x' {
            (16, 2)
        } else if c1 == 'b' {
            (2, 2)
        } else if c1 == 'o' {
            (8, 2)
        } else {
            (10, 0)
        }
    } else {
        (10, 0)
    };
    proof {
        assert(stripped@.skip(from as int) =~= stripped@.subrange(
            from as int,
            stripped@.len() as int,
        ));
        assert(radix_digits(stripped@).0 == radix as nat);
        assert(radix_digits(stripped@).1 == stripped@.skip(from as int));
    }
    parse_digits(&stripped, from, radix)
}

} // verus!
