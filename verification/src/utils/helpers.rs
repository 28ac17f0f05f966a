use vstd::prelude::*;
use vstd::arithmetic::power2::{pow2, lemma_pow2_adds, lemma_pow2_pos, lemma2_to64, lemma2_to64_rest};
use vstd::arithmetic::mul::{lemma_mul_inequality, lemma_mul_strict_inequality};
use vstd::bits::lemma_u64_shl_is_mul;

verus! {

/// The 5-bit value of one character of an account name: `.` is 0, `1`..`5`
/// are 1..5 and `a`..`z` are 6..31; every other byte has none.
pub open spec fn char_value(c: u8) -> Option<u8> {
    if c == 46 {
        Some(0u8)
    } else if 49 <= c <= 53 {
        Some((c - 48) as u8)
    } else if 97 <= c <= 122 {
        Some((c - 91) as u8)
    } else {
        None
    }
}

/// Every byte of `s` is a character of the name alphabet.
pub open spec fn all_name_chars(s: Seq<u8>) -> bool {
    forall|i: int| 0 <= i < s.len() ==> (#[trigger] char_value(s[i])) is Some
}

/// The characters of `s`, 5 bits each, the first one most significant.
pub open spec fn packed_value(s: Seq<u8>) -> nat
    decreases s.len(),
{
    if s.len() == 0 {
        0
    } else {
        packed_value(s.drop_last()) * 32 + (char_value(s.last())->0 as nat)
    }
}

/// The number of leading characters that take 5 bits each (at most 12).
pub open spec fn head_len(s: Seq<u8>) -> nat {
    if s.len() < 12 {
        s.len()
    } else {
        12
    }
}

/// The 64-bit value of an account name: up to 12 characters of 5 bits from
/// the most significant bit down, then a 13th character of 4 bits (only
/// `.`, `1`..`5` and `a`..`j` fit there).
pub open spec fn name_value(s: Seq<u8>) -> Result<u64, Seq<char>> {
    let n = head_len(s);
    if !all_name_chars(s.take(n as int)) {
        Err("Error-Value"@)
    } else if n == 0 {
        Ok(0u64)
    } else {
        let base = packed_value(s.take(n as int)) * pow2((4 + 5 * (12 - n)) as nat);
        if s.len() <= 12 {
            Ok(base as u64)
        } else if char_value(s[12]) is None || char_value(s[12])->0 > 15 {
            Err("Error-Value"@)
        } else if s.len() > 13 {
            Err("Name is too long."@)
        } else {
            Ok((base + char_value(s[12])->0) as u64)
        }
    }
}

/// The packed value of `n` name characters fits in `5 * n` bits.
pub proof fn lemma_packed_value_bound(s: Seq<u8>)
    requires
        all_name_chars(s),
    ensures
        packed_value(s) < pow2((5 * s.len()) as nat),
    decreases s.len(),
{
    if s.len() == 0 {
        lemma2_to64();
    } else {
        let t = s.drop_last();
        assert(all_name_chars(t)) by {
            assert forall|i: int| 0 <= i < t.len() implies (#[trigger] char_value(t[i])) is Some by {
                assert(t[i] == s[i]);
            }
        }
        lemma_packed_value_bound(t);
        assert(char_value(s[s.len() - 1]) is Some);
        let p = pow2((5 * t.len()) as nat);
        lemma_pow2_adds((5 * t.len()) as nat, 5);
        lemma2_to64();
        assert(pow2((5 * s.len()) as nat) == p * 32);
        assert(packed_value(t) + 1 <= p);
        lemma_mul_inequality((packed_value(t) + 1) as int, p as int, 32);
    }
}

/// The value of one character of an account name, if it has one.
pub fn char_to_value(c: u8) -> (r: Option<u8>)
    ensures
        r == char_value(c),
{
    if c == 46u8 {
        Some(0)
    } else if c >= 49u8 && c <= 53u8 {
        Some(c - 49 + 1)
    } else if c >= 97u8 && c <= 122u8 {
        Some(c - 97 + 6)
    } else {
        None
    }
}

/// The 64-bit value of the account name `bytes`, or the reason it has none.
pub fn name_bytes_to_u64(bytes: &[u8]) -> (r: Result<u64, String>)
    ensures
        match r {
            Ok(v) => name_value(bytes@) == Ok::<u64, Seq<char>>(v),
            Err(e) => name_value(bytes@) == Err::<u64, Seq<char>>(e@),
        },
{
    let mut value: u64 = 0;
    let mut len: usize = 0;
    proof {
        lemma2_to64();
        assert(bytes@.take(0) =~= Seq::<u8>::empty());
    }

    while len < bytes.len() && len < 12
        invariant
            len <= 12,
            len <= bytes@.len(),
            all_name_chars(bytes@.take(len as int)),
            value == packed_value(bytes@.take(len as int)),
            value < pow2((5 * len) as nat),
        decreases 12 - len,
    {
        let c = bytes[len];
        let v = match char_to_value(c) {
            Some(v) => v,
            None => {
                proof {
                    let n = head_len(bytes@);
                    assert(bytes@.take(n as int)[len as int] == c);
                }
                return Err(String::from_str("Error-Value"));
            }
        };
        proof {
            lemma_pow2_adds((5 * len) as nat, 5);
            lemma2_to64();
            let ghost p = pow2((5 * len) as nat);
            lemma_mul_inequality((value + 1) as int, p as int, 32);
            assert(value < 0x80000000000000) by {
                assert(pow2(55) == 0x80000000000000) by { lemma2_to64_rest(); }
                if len < 11 {
                    vstd::arithmetic::power2::lemma_pow2_strictly_increases((5 * len) as nat, 55);
                }
            }
            assert((value << 5u64) | (v as u64) == value * 32 + v) by (bit_vector)
                requires
                    value < 0x80000000000000,
                    v < 32,
            ;
            let s1 = bytes@.take(len + 1);
            assert(s1.drop_last() =~= bytes@.take(len as int));
            assert(s1.last() == c);
            assert(all_name_chars(s1)) by {
                assert forall|i: int| 0 <= i < s1.len() implies (#[trigger] char_value(s1[i])) is Some by {
                    if i < len {
                        assert(s1[i] == bytes@.take(len as int)[i]);
                    }
                }
            }
        }
        value = (value << 5u64) | (v as u64);
        len += 1;
    }

    if len == 0 {
        return Ok(0);
    }

    let shift: u64 = 4 + 5 * (12 - len as u64);
    proof {
        assert(bytes@.take(head_len(bytes@) as int) =~= bytes@.take(len as int));
        lemma_pow2_adds((5 * len) as nat, shift as nat);
        lemma2_to64();
        lemma2_to64_rest();
        lemma_pow2_pos(shift as nat);
        lemma_mul_strict_inequality(value as int, pow2((5 * len) as nat) as int, pow2(shift as nat) as int);
        assert(value * pow2(shift as nat) < pow2(64));
        lemma_u64_shl_is_mul(value, shift);
    }
    value = value << shift;

    if len < bytes.len() {
        let c = bytes[12];
        let v = match char_to_value(c) {
            Some(v) => v,
            None => return Err(String::from_str("Error-Value")),
        };
        if v > 0x0F {
            return Err(String::from_str("Error-Value"));
        }
        proof {
            let p = pow2(shift as nat);
            lemma_pow2_adds(4, (shift - 4) as nat);
            assert(pow2(4) == 16) by { lemma2_to64(); }
            assert(value == packed_value(bytes@.take(12)) * (16 * pow2((shift - 4) as nat)));
            vstd::arithmetic::mul::lemma_mul_is_associative(
                packed_value(bytes@.take(12)) as int, 16, pow2((shift - 4) as nat) as int);
            vstd::arithmetic::mul::lemma_mul_is_commutative(
                packed_value(bytes@.take(12)) as int, 16);
            vstd::arithmetic::div_mod::lemma_mod_multiples_basic(
                (packed_value(bytes@.take(12)) * pow2((shift - 4) as nat)) as int, 16);
            assert(value % 16 == 0);
            assert(value | (v as u64) == value + v) by (bit_vector)
                requires
                    value % 16 == 0,
                    v < 16,
            ;
        }
        value = value | (v as u64);
        if bytes.len() > 13 {
            return Err(String::from_str("Name is too long."));
        }
    }

    Ok(value)
}

proof fn lemma_char_value_injective(a: u8, b: u8)
    requires
        char_value(a) is Some,
        char_value(a) == char_value(b),
    ensures
        a == b,
{
}

proof fn lemma_packed_value_injective(s: Seq<u8>, t: Seq<u8>)
    requires
        s.len() == t.len(),
        all_name_chars(s),
        all_name_chars(t),
        packed_value(s) == packed_value(t),
    ensures
        s == t,
    decreases s.len(),
{
    if s.len() > 0 {
        let (s1, t1) = (s.drop_last(), t.drop_last());
        assert(all_name_chars(s1)) by {
            assert forall|i: int| 0 <= i < s1.len() implies (#[trigger] char_value(s1[i])) is Some by {
                assert(s1[i] == s[i]);
            }
        }
        assert(all_name_chars(t1)) by {
            assert forall|i: int| 0 <= i < t1.len() implies (#[trigger] char_value(t1[i])) is Some by {
                assert(t1[i] == t[i]);
            }
        }
        assert(char_value(s[s.len() - 1]) is Some);
        assert(char_value(t[t.len() - 1]) is Some);
        let v = char_value(s.last())->0 as int;
        let w = char_value(t.last())->0 as int;
        assert(packed_value(s1) * 32 + v == packed_value(t1) * 32 + w);
        assert(packed_value(s1) == packed_value(t1) && v == w) by (nonlinear_arith)
            requires
                packed_value(s1) * 32 + v == packed_value(t1) * 32 + w,
                0 <= v < 32,
                0 <= w < 32,
                packed_value(s1) >= 0,
                packed_value(t1) >= 0,
        ;
        lemma_packed_value_injective(s1, t1);
        lemma_char_value_injective(s.last(), t.last());
        assert(s =~= t) by {
            assert(s =~= s1.push(s.last()));
            assert(t =~= t1.push(t.last()));
        }
    }
}

/// Account names of the same length have the same value only when they are
/// the same name: the value identifies a valid name among those of its
/// length.
pub proof fn lemma_name_value_injective(s: Seq<u8>, t: Seq<u8>)
    requires
        s.len() == t.len(),
        name_value(s) is Ok,
        name_value(s) == name_value(t),
    ensures
        s == t,
{
    let n = head_len(s);
    if n > 0 {
        let (sh, th) = (s.take(n as int), t.take(n as int));
        let k = (4 + 5 * (12 - n)) as nat;
        lemma_packed_value_bound(sh);
        lemma_packed_value_bound(th);
        lemma2_to64();
        lemma2_to64_rest();
        lemma_pow2_adds((5 * n) as nat, k);
        lemma_pow2_pos(k);
        let (ps, pt) = (packed_value(sh), packed_value(th));
        let p = pow2(k);
        lemma_mul_strict_inequality(ps as int, pow2((5 * n) as nat) as int, p as int);
        lemma_mul_strict_inequality(pt as int, pow2((5 * n) as nat) as int, p as int);
        assert(pow2(64) == 0x10000000000000000);
        assert(ps * p < 0x10000000000000000);
        assert(pt * p < 0x10000000000000000);
        if s.len() <= 12 {
            assert((ps * p) as u64 == (pt * p) as u64);
            assert(ps * p == pt * p);
            vstd::arithmetic::mul::lemma_mul_is_commutative(ps as int, p as int);
            vstd::arithmetic::mul::lemma_mul_is_commutative(pt as int, p as int);
            vstd::arithmetic::mul::lemma_mul_equality_converse(p as int, ps as int, pt as int);
            lemma_packed_value_injective(sh, th);
            assert(s =~= sh);
            assert(t =~= th);
        } else {
            assert(k == 4);
            assert(p == 16);
            let v = char_value(s[12])->0 as int;
            let w = char_value(t[12])->0 as int;
            assert(ps * 16 + v == pt * 16 + w);
            assert(ps == pt && v == w) by (nonlinear_arith)
                requires
                    ps * 16 + v == pt * 16 + w,
                    0 <= v < 16,
                    0 <= w < 16,
                    ps >= 0,
                    pt >= 0,
            ;
            lemma_packed_value_injective(sh, th);
            lemma_char_value_injective(s[12], t[12]);
            assert(s =~= t) by {
                assert forall|i: int| 0 <= i < s.len() implies s[i] == t[i] by {
                    if i < 12 {
                        assert(sh[i] == s[i] && th[i] == t[i]);
                    }
                }
            }
        }
    } else {
        assert(s =~= t);
    }
}

/// `k` dots.
pub open spec fn dots(k: nat) -> Seq<u8> {
    Seq::new(k, |i: int| 46u8)
}

/// `s` without its trailing dots.
pub open spec fn trim_dots(s: Seq<u8>) -> Seq<u8>
    decreases s.len(),
{
    if s.len() > 0 && s.last() == 46u8 {
        trim_dots(s.drop_last())
    } else {
        s
    }
}

/// `s` filled up with dots to 13 characters.
pub open spec fn pad13(s: Seq<u8>) -> Seq<u8> {
    s + dots((13 - s.len()) as nat)
}

proof fn lemma_packed_dots(s: Seq<u8>, k: nat)
    ensures
        packed_value(s + dots(k)) == packed_value(s) * pow2(5 * k),
    decreases k,
{
    if k == 0 {
        assert(s + dots(0) =~= s);
        lemma2_to64();
    } else {
        let j = (k - 1) as nat;
        let t = s + dots(j);
        lemma_packed_dots(s, j);
        assert((s + dots(k)).drop_last() =~= t);
        assert((s + dots(k)).last() == 46u8);
        assert(packed_value(s + dots(k)) == packed_value(t) * 32);
        lemma_pow2_adds(5 * j, 5);
        lemma2_to64();
        assert(5 * j + 5 == 5 * k);
        assert(pow2(5 * k) == pow2(5 * j) * 32);
        vstd::arithmetic::mul::lemma_mul_is_associative(
            packed_value(s) as int,
            pow2(5 * j) as int,
            32,
        );
    }
}

proof fn lemma_all_name_chars_prefix(s: Seq<u8>, n: int)
    requires
        all_name_chars(s),
        0 <= n <= s.len(),
    ensures
        all_name_chars(s.take(n)),
{
    assert forall|i: int| 0 <= i < n implies (#[trigger] char_value(s.take(n)[i])) is Some by {
        assert(s.take(n)[i] == s[i]);
    }
}

/// The value of a 13-character name: 12 characters of 5 bits, then the 13th
/// of 4 bits.
pub open spec fn value13(t: Seq<u8>) -> nat {
    packed_value(t.take(12)) * 16 + (char_value(t[12])->0 as nat)
}

/// A valid name has the value of itself filled up with dots to 13
/// characters, and that filled-up name is valid too.
proof fn lemma_name_value_padded(s: Seq<u8>)
    requires
        name_value(s) is Ok,
    ensures
        s.len() <= 13,
        all_name_chars(s),
        name_value(pad13(s)) == name_value(s),
        name_value(s)->Ok_0 == value13(pad13(s)),
{
    let n = head_len(s);
    let p = pad13(s);
    lemma2_to64();
    lemma2_to64_rest();
    if s.len() <= 12 {
        assert(s.take(n as int) =~= s);
        let k = (12 - s.len()) as nat;
        assert(p.take(12) =~= s + dots(k));
        assert(p[12] == 46u8);
        lemma_packed_dots(s, k);
        lemma_pow2_adds(5 * k, 4);
        vstd::arithmetic::mul::lemma_mul_is_associative(packed_value(s) as int, pow2(5 * k) as int, 16);
        assert(value13(p) == packed_value(s) * pow2((4 + 5 * (12 - n)) as nat));
        assert(all_name_chars(p)) by {
            assert forall|i: int| 0 <= i < p.len() implies (#[trigger] char_value(p[i])) is Some by {
                if i < s.len() {
                    assert(p[i] == s[i]);
                } else {
                    assert(p[i] == 46u8);
                }
            }
        }
        assert(p.take(12) =~= p.take(head_len(p) as int));
        lemma_all_name_chars_prefix(p, 12);
        lemma_packed_value_bound(p.take(12));
        assert(pow2(60) == 0x1000000000000000);
        assert(value13(p) < 0x10000000000000000);
        if n == 0 {
            assert(packed_value(s) == 0);
            vstd::arithmetic::mul::lemma_mul_basics(pow2((4 + 5 * (12 - n)) as nat) as int);
            assert(value13(p) == 0);
            assert(name_value(s) == Ok::<u64, Seq<char>>(0));
        } else {
            assert(name_value(s) == Ok::<u64, Seq<char>>(
                (packed_value(s) * pow2((4 + 5 * (12 - n)) as nat)) as u64,
            ));
        }
        assert(name_value(p) == Ok::<u64, Seq<char>>((packed_value(p.take(12)) * pow2(4)) as u64));
        assert(name_value(p) == Ok::<u64, Seq<char>>(value13(p) as u64));
    } else {
        assert(p =~= s);
        assert(s.len() == 13);
        lemma_packed_value_bound(s.take(12));
        assert(pow2(60) == 0x1000000000000000);
        assert(value13(s) < 0x10000000000000000);
        assert(name_value(s) == Ok::<u64, Seq<char>>(value13(s) as u64));
        assert(all_name_chars(s)) by {
            assert forall|i: int| 0 <= i < s.len() implies (#[trigger] char_value(s[i])) is Some by {
                if i < 12 {
                    assert(s.take(12)[i] == s[i]);
                }
            }
        }
    }
}

proof fn lemma_trim_dots_extend(s: Seq<u8>, k: nat)
    ensures
        trim_dots(s + dots(k)) == trim_dots(s),
    decreases k,
{
    if k == 0 {
        assert(s + dots(0) =~= s);
    } else {
        assert((s + dots(k)).drop_last() =~= s + dots((k - 1) as nat));
        lemma_trim_dots_extend(s, (k - 1) as nat);
    }
}

proof fn lemma_trim_dots_split(s: Seq<u8>)
    ensures
        trim_dots(s).len() <= s.len(),
        s == trim_dots(s) + dots((s.len() - trim_dots(s).len()) as nat),
    decreases s.len(),
{
    if s.len() > 0 && s.last() == 46u8 {
        let t = s.drop_last();
        lemma_trim_dots_split(t);
        let k = (t.len() - trim_dots(t).len()) as nat;
        assert(trim_dots(s) == trim_dots(t));
        assert(s =~= t.push(46u8));
        assert(t.push(46u8) =~= trim_dots(t) + dots(k + 1));
    } else {
        assert(s =~= s + dots(0));
    }
}

proof fn lemma_pad13_trim(s: Seq<u8>)
    requires
        s.len() <= 13,
    ensures
        pad13(s) == pad13(trim_dots(s)),
        trim_dots(pad13(s)) == trim_dots(s),
{
    lemma_trim_dots_split(s);
    let t = trim_dots(s);
    let k = (s.len() - t.len()) as nat;
    assert(pad13(s) =~= t + dots((13 - t.len()) as nat));
    lemma_trim_dots_extend(s, (13 - s.len()) as nat);
}

/// Names are told apart up to trailing dots: two valid names have the same
/// value exactly when they are equal once their trailing dots are dropped
/// (so appending `.` to a name shorter than 13 keeps its value).
pub proof fn lemma_name_value_up_to_trailing_dots(a: Seq<u8>, b: Seq<u8>)
    requires
        name_value(a) is Ok,
        name_value(b) is Ok,
    ensures
        (name_value(a) == name_value(b)) == (trim_dots(a) == trim_dots(b)),
{
    lemma_name_value_padded(a);
    lemma_name_value_padded(b);
    lemma_pad13_trim(a);
    lemma_pad13_trim(b);
    if name_value(a) == name_value(b) {
        lemma_name_value_injective(pad13(a), pad13(b));
    }
}

/// `a` comes before `b` or equals it, byte by byte (a proper prefix comes
/// first), as Rust orders byte strings.
pub open spec fn bytes_le(a: Seq<u8>, b: Seq<u8>) -> bool
    decreases a.len(),
{
    if a.len() == 0 {
        true
    } else if b.len() == 0 {
        false
    } else if a[0] != b[0] {
        a[0] < b[0]
    } else {
        bytes_le(a.drop_first(), b.drop_first())
    }
}

proof fn lemma_char_value_monotone(a: u8, b: u8)
    requires
        char_value(a) is Some,
        char_value(b) is Some,
        a < b,
    ensures
        char_value(a)->0 < char_value(b)->0,
{
}

proof fn lemma_all_name_chars_drop_first(s: Seq<u8>)
    requires
        all_name_chars(s),
        s.len() > 0,
    ensures
        all_name_chars(s.drop_first()),
        char_value(s[0]) is Some,
{
    assert forall|i: int| 0 <= i < s.len() - 1 implies (#[trigger] char_value(s.drop_first()[i])) is Some by {
        assert(s.drop_first()[i] == s[i + 1]);
    }
}

/// The first character is the most significant digit.
proof fn lemma_packed_value_first(s: Seq<u8>)
    requires
        s.len() > 0,
    ensures
        packed_value(s) == (char_value(s[0])->0 as nat) * pow2((5 * (s.len() - 1)) as nat)
            + packed_value(s.drop_first()),
    decreases s.len(),
{
    let c = char_value(s[0])->0 as nat;
    lemma2_to64();
    if s.len() == 1 {
        assert(s.drop_last() =~= Seq::<u8>::empty());
        assert(s.drop_first() =~= Seq::<u8>::empty());
        assert(s.last() == s[0]);
        assert(packed_value(s.drop_last()) == 0);
        assert(packed_value(s.drop_first()) == 0);
        assert(packed_value(s) == c);
        assert(pow2(0) == 1);
        assert(c * pow2(0) == c);
    } else {
        let d = s.drop_last();
        lemma_packed_value_first(d);
        assert(d[0] == s[0]);
        assert(d.drop_first() =~= s.drop_first().drop_last());
        assert(s.drop_first().last() == s.last());
        let q = pow2((5 * (d.len() - 1)) as nat);
        let r = packed_value(d.drop_first());
        let l = char_value(s.last())->0 as nat;
        assert(packed_value(s) == (c * q + r) * 32 + l);
        assert(packed_value(s.drop_first()) == r * 32 + l);
        lemma_pow2_adds((5 * (d.len() - 1)) as nat, 5);
        assert(pow2((5 * (s.len() - 1)) as nat) == q * 32);
        assert((c * q + r) * 32 == c * (q * 32) + r * 32) by (nonlinear_arith);
        assert(packed_value(s) == c * pow2((5 * (s.len() - 1)) as nat) + packed_value(
            s.drop_first(),
        ));
    }
}

/// Byte order of names of one length is the order of their packed values.
proof fn lemma_packed_value_monotone(t: Seq<u8>, u: Seq<u8>)
    requires
        t.len() == u.len(),
        all_name_chars(t),
        all_name_chars(u),
        bytes_le(t, u),
    ensures
        packed_value(t) <= packed_value(u),
    decreases t.len(),
{
    if t.len() > 0 {
        lemma_all_name_chars_drop_first(t);
        lemma_all_name_chars_drop_first(u);
        lemma_packed_value_first(t);
        lemma_packed_value_first(u);
        let p = pow2((5 * (t.len() - 1)) as nat);
        let (ct, cu) = (char_value(t[0])->0 as nat, char_value(u[0])->0 as nat);
        let (rt, ru) = (packed_value(t.drop_first()), packed_value(u.drop_first()));
        if t[0] == u[0] {
            lemma_packed_value_monotone(t.drop_first(), u.drop_first());
        } else {
            lemma_char_value_monotone(t[0], u[0]);
            lemma_packed_value_bound(t.drop_first());
            assert(ct * p + rt <= cu * p + ru) by (nonlinear_arith)
                requires
                    ct < cu,
                    rt < p,
                    0 <= ru,
            ;
        }
    }
}

/// A run of dots comes first among valid names of its length.
proof fn lemma_dots_first(k: nat, u: Seq<u8>)
    requires
        k <= u.len(),
        all_name_chars(u),
    ensures
        bytes_le(dots(k), u),
    decreases k,
{
    if k > 0 {
        lemma_all_name_chars_drop_first(u);
        assert(dots(k).drop_first() =~= dots((k - 1) as nat));
        lemma_dots_first((k - 1) as nat, u.drop_first());
    }
}

/// Filling two ordered valid names up with dots to one length keeps their
/// order.
proof fn lemma_pad_keeps_order(a: Seq<u8>, b: Seq<u8>, len: nat)
    requires
        a.len() <= len,
        b.len() <= len,
        all_name_chars(a),
        all_name_chars(b),
        bytes_le(a, b),
    ensures
        bytes_le(a + dots((len - a.len()) as nat), b + dots((len - b.len()) as nat)),
    decreases a.len(),
{
    let pa = a + dots((len - a.len()) as nat);
    let pb = b + dots((len - b.len()) as nat);
    assert(all_name_chars(pb)) by {
        assert forall|i: int| 0 <= i < pb.len() implies (#[trigger] char_value(pb[i])) is Some by {
            if i < b.len() {
                assert(pb[i] == b[i]);
            }
        }
    }
    if a.len() == 0 {
        assert(pa =~= dots(len));
        lemma_dots_first(len, pb);
    } else {
        assert(b.len() > 0);
        assert(pa[0] == a[0] && pb[0] == b[0]);
        if a[0] == b[0] {
            lemma_all_name_chars_drop_first(a);
            lemma_all_name_chars_drop_first(b);
            lemma_pad_keeps_order(a.drop_first(), b.drop_first(), (len - 1) as nat);
            assert(pa.drop_first() =~= a.drop_first() + dots(((len - 1) - (a.len() - 1)) as nat));
            assert(pb.drop_first() =~= b.drop_first() + dots(((len - 1) - (b.len() - 1)) as nat));
        }
    }
}

/// The encoding keeps the order of names: a valid name that comes before
/// another, byte by byte, has a value no larger.
pub proof fn lemma_name_value_keeps_order(a: Seq<u8>, b: Seq<u8>)
    requires
        name_value(a) is Ok,
        name_value(b) is Ok,
        bytes_le(a, b),
    ensures
        name_value(a)->Ok_0 <= name_value(b)->Ok_0,
{
    lemma_name_value_padded(a);
    lemma_name_value_padded(b);
    let (pa, pb) = (pad13(a), pad13(b));
    lemma_pad_keeps_order(a, b, 13);
    lemma_name_value_padded(pa);
    lemma_name_value_padded(pb);
    assert(pad13(pa) =~= pa);
    assert(pad13(pb) =~= pb);
    lemma_packed_value_monotone(pa, pb);
    let (ta, tb) = (pa.take(12), pb.take(12));
    lemma_all_name_chars_prefix(pa, 12);
    lemma_all_name_chars_prefix(pb, 12);
    assert(pa.drop_last() =~= ta);
    assert(pb.drop_last() =~= tb);
    let (va, vb) = (char_value(pa[12])->0 as nat, char_value(pb[12])->0 as nat);
    assert(packed_value(pa) == packed_value(ta) * 32 + va);
    assert(packed_value(pb) == packed_value(tb) * 32 + vb);
    assert(va < 16 && vb < 16);
    let (x, y) = (packed_value(ta), packed_value(tb));
    assert(x * 16 + va <= y * 16 + vb) by (nonlinear_arith)
        requires
            x * 32 + va <= y * 32 + vb,
            va < 16,
            vb < 16,
            x >= 0,
            y >= 0,
    ;
}

} // verus!
