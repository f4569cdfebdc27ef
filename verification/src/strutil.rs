//! Character-level utilities shared across the crate: decimal rendering and
//! parsing of machine integers (the backbone of the lock-key format and of
//! the effects/checkpoint codec), whitespace classification, and string
//! joining.

use vstd::prelude::*;
use vstd::string::StrSliceExecFns;
use vstd::string::StringExecFns;

verus! {

// ---------------------------------------------------------------------------
// Decimal digits
// ---------------------------------------------------------------------------

pub open spec fn is_digit_char(c: char) -> bool {
    ('0' as u32) <= (c as u32) && (c as u32) <= ('9' as u32)
}

pub open spec fn digit_val(c: char) -> nat {
    ((c as u32) - ('0' as u32)) as nat
}

pub open spec fn digit_char(d: nat) -> char {
    if d == 0 {
        '0'
    } else if d == 1 {
        '1'
    } else if d == 2 {
        '2'
    } else if d == 3 {
        '3'
    } else if d == 4 {
        '4'
    } else if d == 5 {
        '5'
    } else if d == 6 {
        '6'
    } else if d == 7 {
        '7'
    } else if d == 8 {
        '8'
    } else {
        '9'
    }
}

/// The decimal rendering of `n`, most significant digit first.
pub open spec fn dec_digits(n: nat) -> Seq<char>
    decreases n,
{
    if n < 10 {
        seq![digit_char(n)]
    } else {
        dec_digits(n / 10).push(digit_char(n % 10))
    }
}

/// A number followed by a `:` terminator, as the codec writes it.
pub open spec fn enc_num(n: nat) -> Seq<char> {
    dec_digits(n).push(':')
}

pub open spec fn pow10(k: nat) -> nat
    decreases k,
{
    if k == 0 {
        1
    } else {
        10 * pow10((k - 1) as nat)
    }
}

pub open spec fn numlen(n: nat) -> nat
    decreases n,
{
    if n < 10 {
        1
    } else {
        1 + numlen(n / 10)
    }
}

/// Reads a decimal number terminated by `:` from the front of `s`,
/// folding digits into `acc`; fails on a malformed prefix and on any
/// intermediate value that would not fit in a `u64`.
pub open spec fn parse_dec(s: Seq<char>, acc: nat) -> Option<(nat, Seq<char>)>
    decreases s.len(),
{
    if s.len() == 0 {
        None
    } else if s[0] == ':' {
        Some((acc, s.subrange(1, s.len() as int)))
    } else if is_digit_char(s[0]) && acc * 10 + digit_val(s[0]) <= u64::MAX {
        parse_dec(s.subrange(1, s.len() as int), acc * 10 + digit_val(s[0]))
    } else {
        None
    }
}

proof fn lemma_digit_roundtrip(d: nat)
    requires
        d < 10,
    ensures
        is_digit_char(digit_char(d)),
        digit_val(digit_char(d)) == d,
{
}

proof fn lemma_dec_digits_len(n: nat)
    ensures
        dec_digits(n).len() == numlen(n),
    decreases n,
{
    if n >= 10 {
        lemma_dec_digits_len(n / 10);
    }
}

/// Parsing the rendering of `n` consumes exactly its digits, scaling the
/// accumulator past them.
proof fn lemma_parse_digits(n: nat, acc: nat, t: Seq<char>)
    requires
        acc * pow10(numlen(n)) + n <= u64::MAX,
    ensures
        parse_dec(dec_digits(n) + t, acc) == parse_dec(t, acc * pow10(numlen(n)) + n),
    decreases n,
{
    if n < 10 {
        let s = dec_digits(n) + t;
        lemma_digit_roundtrip(n);
        assert(s[0] == digit_char(n));
        assert(s[0] != ':') by {
            assert(is_digit_char(s[0]));
        }
        assert(pow10(0) == 1);
        assert(pow10(1) == 10);
        assert(acc * 10 + n <= u64::MAX);
        assert(s.subrange(1, s.len() as int) =~= t);
        assert(parse_dec(s, acc) == parse_dec(t, acc * 10 + n));
        assert(acc * pow10(numlen(n)) + n == acc * 10 + n);
    } else {
        let hi = n / 10;
        let lo = n % 10;
        let k = numlen(hi);
        assert(numlen(n) == k + 1);
        assert(n == hi * 10 + lo);
        assert(pow10(k + 1) == 10 * pow10(k));
        // the accumulator after the leading digits of n
        let mid = acc * pow10(k) + hi;
        assert((acc * pow10(k) + hi) * 10 + lo == acc * (10 * pow10(k)) + (hi * 10 + lo))
            by (nonlinear_arith);
        assert(mid * 10 + lo == acc * (10 * pow10(k)) + (hi * 10 + lo));
        assert(mid * 10 + lo == acc * pow10(numlen(n)) + n);
        assert(acc * pow10(k) + hi <= u64::MAX);
        let tail = seq![digit_char(lo)] + t;
        assert(dec_digits(n) + t =~= dec_digits(hi) + tail);
        lemma_parse_digits(hi, acc, tail);
        assert(parse_dec(dec_digits(n) + t, acc) == parse_dec(tail, mid));
        lemma_digit_roundtrip(lo);
        assert(tail[0] == digit_char(lo));
        assert(tail.subrange(1, tail.len() as int) =~= t);
        assert(parse_dec(tail, mid) == parse_dec(t, mid * 10 + lo));
    }
}

/// Round trip for a terminated number: what `enc_num` writes, `parse_dec`
/// reads back, leaving the rest of the input untouched.
pub proof fn lemma_parse_enc_num(n: nat, rest: Seq<char>)
    requires
        n <= u64::MAX,
    ensures
        parse_dec(enc_num(n) + rest, 0) == Some((n, rest)),
{
    let t = seq![':'] + rest;
    assert(enc_num(n) + rest =~= dec_digits(n) + t);
    assert(0 * pow10(numlen(n)) + n == n) by (nonlinear_arith);
    lemma_parse_digits(n, 0, t);
    assert(t[0] == ':');
    assert(t.subrange(1, t.len() as int) =~= rest);
    assert(parse_dec(t, n) == Some((n, rest)));
}

// ---------------------------------------------------------------------------
// Executable rendering
// ---------------------------------------------------------------------------

fn digit_str(d: u64) -> (r: &'static str)
    requires
        d < 10,
    ensures
        r@ =~= seq![digit_char(d as nat)],
{
    proof {
        reveal_strlit("0");
        reveal_strlit("1");
        reveal_strlit("2");
        reveal_strlit("3");
        reveal_strlit("4");
        reveal_strlit("5");
        reveal_strlit("6");
        reveal_strlit("7");
        reveal_strlit("8");
        reveal_strlit("9");
    }
    if d == 0 {
        "0"
    } else if d == 1 {
        "1"
    } else if d == 2 {
        "2"
    } else if d == 3 {
        "3"
    } else if d == 4 {
        "4"
    } else if d == 5 {
        "5"
    } else if d == 6 {
        "6"
    } else if d == 7 {
        "7"
    } else if d == 8 {
        "8"
    } else {
        "9"
    }
}

/// Renders `n` in decimal.
pub fn u64_to_dec(n: u64) -> (r: String)
    ensures
        r@ == dec_digits(n as nat),
    decreases n,
{
    if n < 10 {
        let r = digit_str(n).to_owned();
        proof {
            assert(r@ =~= dec_digits(n as nat));
        }
        r
    } else {
        let mut s = u64_to_dec(n / 10);
        s.append(digit_str(n % 10));
        proof {
            assert(s@ =~= dec_digits(n as nat));
        }
        s
    }
}

/// Appends `n` in decimal followed by the `:` terminator.
pub fn append_num(out: &mut String, n: u64)
    ensures
        final(out)@ == old(out)@ + enc_num(n as nat),
{
    let digits = u64_to_dec(n);
    out.append(digits.as_str());
    out.append(":");
    proof {
        reveal_strlit(":");
        assert(final(out)@ =~= old(out)@ + enc_num(n as nat));
    }
}

// ---------------------------------------------------------------------------
// Executable parsing
// ---------------------------------------------------------------------------

/// Reads a `:`-terminated decimal number starting at character `pos` of `s`,
/// returning the value and the position one past the terminator; mirrors
/// `parse_dec` on the corresponding suffix.
pub fn parse_dec_at(s: &str, pos: usize) -> (r: Option<(u64, usize)>)
    requires
        pos <= s@.len(),
    ensures
        match r {
            Some((v, newpos)) => {
                &&& pos <= newpos <= s@.len()
                &&& parse_dec(s@.subrange(pos as int, s@.len() as int), 0) == Some(
                    (v as nat, s@.subrange(newpos as int, s@.len() as int)),
                )
            },
            None => parse_dec(s@.subrange(pos as int, s@.len() as int), 0) is None,
        },
{
    let n = s.unicode_len();
    let mut i = pos;
    let mut acc: u64 = 0;
    loop
        invariant
            pos <= i <= n,
            n == s@.len(),
            parse_dec(s@.subrange(pos as int, n as int), 0) == parse_dec(
                s@.subrange(i as int, n as int),
                acc as nat,
            ),
        decreases n - i,
    {
        if i >= n {
            return None;
        }
        let c = s.get_char(i);
        proof {
            assert(s@.subrange(i as int, n as int)[0] == s@[i as int]);
        }
        if c == ':' {
            proof {
                assert(s@.subrange(i as int, n as int).subrange(
                    1,
                    s@.subrange(i as int, n as int).len() as int,
                ) =~= s@.subrange(i as int + 1, n as int));
            }
            return Some((acc, i + 1));
        }
        let code = c as u32;
        if code < 48 || code > 57 {
            return None;
        }
        let d: u64 = (code - 48) as u64;
        let wide: u128 = (acc as u128) * 10 + (d as u128);
        if wide > u64::MAX as u128 {
            return None;
        }
        proof {
            assert(is_digit_char(s@[i as int]));
            assert(digit_val(s@[i as int]) == d as nat);
            assert(s@.subrange(i as int, n as int).subrange(
                1,
                s@.subrange(i as int, n as int).len() as int,
            ) =~= s@.subrange(i as int + 1, n as int));
        }
        acc = wide as u64;
        i = i + 1;
    }
}

/// Compares two string slices character by character.
pub fn str_eq(a: &str, b: &str) -> (r: bool)
    ensures
        r == (a@ == b@),
{
    let n = a.unicode_len();
    if n != b.unicode_len() {
        proof {
            assert(a@ != b@);
        }
        return false;
    }
    let mut i: usize = 0;
    while i < n
        invariant
            0 <= i <= n,
            n == a@.len(),
            n == b@.len(),
            forall|j: int| 0 <= j < i ==> a@[j] == b@[j],
        decreases n - i,
    {
        if a.get_char(i) != b.get_char(i) {
            return false;
        }
        i = i + 1;
    }
    proof {
        assert(a@ =~= b@);
    }
    true
}

/// Clones a vector of strings, keeping its contents.
pub fn clone_string_vec(v: &Vec<String>) -> (r: Vec<String>)
    ensures
        r.deep_view() == v.deep_view(),
{
    let mut r: Vec<String> = Vec::new();
    let mut i: usize = 0;
    while i < v.len()
        invariant
            0 <= i <= v.len(),
            r.deep_view() =~= v.deep_view().subrange(0, i as int),
        decreases v.len() - i,
    {
        let ghost prev = r.deep_view();
        r.push(v[i].clone());
        proof {
            assert(r.deep_view() =~= prev.push(v@[i as int]@));
            assert(prev.push(v@[i as int]@) =~= v.deep_view().subrange(0, i as int + 1));
        }
        i = i + 1;
    }
    proof {
        assert(v.deep_view().subrange(0, v.len() as int) =~= v.deep_view());
    }
    r
}

// ---------------------------------------------------------------------------
// Whitespace
// ---------------------------------------------------------------------------

/// The Unicode `White_Space` characters, the set `str::trim` removes.
pub open spec fn is_space_char(c: char) -> bool {
    ||| c == ' '
    ||| c == '\t'
    ||| c == '\n'
    ||| c == '\r'
    ||| c == '\u{b}'
    ||| c == '\u{c}'
    ||| c == '\u{85}'
    ||| c == '\u{a0}'
    ||| c == '\u{1680}'
    ||| (('\u{2000}' as u32) <= (c as u32) && (c as u32) <= ('\u{200a}' as u32))
    ||| c == '\u{2028}'
    ||| c == '\u{2029}'
    ||| c == '\u{202f}'
    ||| c == '\u{205f}'
    ||| c == '\u{3000}'
}

pub open spec fn all_space(s: Seq<char>) -> bool {
    forall|i: int| 0 <= i < s.len() ==> is_space_char(#[trigger] s[i])
}

fn char_is_space(c: char) -> (r: bool)
    ensures
        r == is_space_char(c),
{
    c == ' ' || c == '\t' || c == '\n' || c == '\r' || c == '\u{b}' || c == '\u{c}' || c == '\u{85}'
        || c == '\u{a0}' || c == '\u{1680}' || ((c as u32) >= ('\u{2000}' as u32) && (c as u32)
        <= ('\u{200a}' as u32)) || c == '\u{2028}' || c == '\u{2029}' || c == '\u{202f}' || c
        == '\u{205f}' || c == '\u{3000}'
}

/// True when `s` is empty or holds whitespace only, i.e. when `s.trim()`
/// would be empty.
pub fn str_all_space(s: &str) -> (r: bool)
    ensures
        r == all_space(s@),
{
    let n = s.unicode_len();
    let mut i: usize = 0;
    while i < n
        invariant
            0 <= i <= n,
            n == s@.len(),
            forall|j: int| 0 <= j < i ==> is_space_char(#[trigger] s@[j]),
        decreases n - i,
    {
        let c = s.get_char(i);
        if !char_is_space(c) {
            return false;
        }
        i = i + 1;
    }
    true
}

// ---------------------------------------------------------------------------
// Joining
// ---------------------------------------------------------------------------

/// The elements of `parts` separated by `"; "`, as `join` produces.
pub open spec fn join_semi(parts: Seq<Seq<char>>) -> Seq<char>
    decreases parts.len(),
{
    if parts.len() == 0 {
        Seq::empty()
    } else if parts.len() == 1 {
        parts[0]
    } else {
        parts[0] + "; "@ + join_semi(parts.subrange(1, parts.len() as int))
    }
}

/// Joins the strings of `parts` with `"; "` between consecutive elements.
pub fn join_with_semi(parts: &Vec<String>) -> (r: String)
    ensures
        r@ == join_semi(parts.deep_view()),
{
    let ghost model = parts.deep_view();
    let mut out = String::new();
    let n = parts.len();
    if n == 0 {
        return out;
    }
    out.append(parts[0].as_str());
    let mut i: usize = 1;
    while i < n
        invariant
            1 <= i <= n,
            n == parts.len(),
            model == parts.deep_view(),
            model.len() == n,
            out@ == join_semi(model.subrange(0, i as int)),
        decreases n - i,
    {
        out.append("; ");
        out.append(parts[i].as_str());
        proof {
            lemma_join_snoc(model.subrange(0, i as int + 1));
            assert(model.subrange(0, i as int + 1).subrange(0, i as int) =~= model.subrange(
                0,
                i as int,
            ));
            assert(model.subrange(0, i as int + 1)[i as int] == model[i as int]);
            assert(model[i as int] == parts[i as int]@);
        }
        i = i + 1;
    }
    proof {
        assert(model.subrange(0, n as int) =~= model);
    }
    out
}

/// Splitting off the last element of a join keeps the separator in front
/// of it.
proof fn lemma_join_snoc(parts: Seq<Seq<char>>)
    requires
        parts.len() >= 2,
    ensures
        join_semi(parts) == join_semi(parts.subrange(0, parts.len() - 1)) + "; "@ + parts[parts.len()
            - 1],
    decreases parts.len(),
{
    if parts.len() == 2 {
        let tail = parts.subrange(1, parts.len() as int);
        assert(tail.len() == 1);
        assert(join_semi(tail) == tail[0]);
        assert(tail[0] == parts[1]);
        assert(parts.subrange(0, 1) =~= seq![parts[0]]);
        assert(join_semi(parts.subrange(0, 1)) == parts[0]);
        assert(join_semi(parts) =~= join_semi(parts.subrange(0, parts.len() - 1)) + "; "@
            + parts[parts.len() - 1]);
    } else {
        let rest = parts.subrange(1, parts.len() as int);
        lemma_join_snoc(rest);
        let head = parts.subrange(0, parts.len() - 1);
        assert(rest.subrange(0, rest.len() - 1) =~= head.subrange(1, head.len() as int));
        assert(rest[rest.len() - 1] == parts[parts.len() - 1]);
        assert(join_semi(parts) == parts[0] + "; "@ + join_semi(rest));
        assert(join_semi(head) == parts[0] + "; "@ + join_semi(head.subrange(1, head.len() as int)));
        assert(join_semi(parts) =~= join_semi(head) + "; "@ + parts[parts.len() - 1]);
    }
}

} // verus!
