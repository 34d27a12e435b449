//! The library's own IPv4 address value: four octets held as plain
//! integers, together with the canonical dotted-quad text form that DNS
//! records carry ("A" record values are written and read as text).
//!
//! The canonical form writes each octet in decimal without leading zeroes
//! and joins the four with dots; parsing accepts exactly the canonical
//! forms, so a parsed value and its text determine each other.

use vstd::prelude::*;
use vstd::string::StrSliceExecFns;
use vstd::string::StringExecFns;

verus! {

/// An IPv4 address as four octets.
#[derive(Clone, Copy, Debug, PartialEq, Eq, Structural, Hash)]
pub struct Ipv4Address {
    pub a: u8,
    pub b: u8,
    pub c: u8,
    pub d: u8,
}

/// The decimal digit character for a value below ten.
pub open spec fn digit_char(d: int) -> char {
    if d == 0 {
        '0'
    } else if d == 1 {
        '1'
    } else if d == 2 {
        '2'
    } else if d == 3 {
        '3'
    } else if d == 4 {
        '4'
    } else if d == 5 {
        '5'
    } else if d == 6 {
        '6'
    } else if d == 7 {
        '7'
    } else if d == 8 {
        '8'
    } else {
        '9'
    }
}

/// The value of a decimal digit character, and -1 for any other character.
pub open spec fn char_digit(c: char) -> int {
    if c == '0' {
        0
    } else if c == '1' {
        1
    } else if c == '2' {
        2
    } else if c == '3' {
        3
    } else if c == '4' {
        4
    } else if c == '5' {
        5
    } else if c == '6' {
        6
    } else if c == '7' {
        7
    } else if c == '8' {
        8
    } else if c == '9' {
        9
    } else {
        -1
    }
}

/// Whether a character is a decimal digit.
pub open spec fn is_digit(c: char) -> bool {
    char_digit(c) >= 0
}

/// The canonical decimal form of a value below 1000: one to three digits,
/// no leading zero.
pub open spec fn decimal_chars(n: int) -> Seq<char> {
    if n < 10 {
        seq![digit_char(n)]
    } else if n < 100 {
        seq![digit_char(n / 10), digit_char(n % 10)]
    } else {
        seq![digit_char(n / 100), digit_char((n / 10) % 10), digit_char(n % 10)]
    }
}

/// The canonical dotted-quad form of an address: the four octets in
/// decimal, joined by dots.
pub open spec fn dotted(ip: Ipv4Address) -> Seq<char> {
    decimal_chars(ip.a as int) + seq!['.'] + decimal_chars(ip.b as int) + seq!['.']
        + decimal_chars(ip.c as int) + seq!['.'] + decimal_chars(ip.d as int)
}

/// The single-character string for a decimal digit value.
fn digit_str(d: u8) -> (r: &'static str)
    requires
        d < 10,
    ensures
        r@ == seq![digit_char(d as int)],
{
    proof {
        reveal_strlit("0");
        reveal_strlit("1");
        reveal_strlit("2");
        reveal_strlit("3");
        reveal_strlit("4");
        reveal_strlit("5");
        reveal_strlit("6");
        reveal_strlit("7");
        reveal_strlit("8");
        reveal_strlit("9");
    }
    let r: &'static str = if d == 0 {
        "0"
    } else if d == 1 {
        "1"
    } else if d == 2 {
        "2"
    } else if d == 3 {
        "3"
    } else if d == 4 {
        "4"
    } else if d == 5 {
        "5"
    } else if d == 6 {
        "6"
    } else if d == 7 {
        "7"
    } else if d == 8 {
        "8"
    } else {
        "9"
    };
    proof {
        assert(r@ =~= seq![digit_char(d as int)]);
    }
    r
}

/// Append the canonical decimal form of one octet.
fn push_decimal(s: &mut String, n: u8)
    ensures
        final(s)@ == old(s)@ + decimal_chars(n as int),
{
    if n >= 100 {
        s.append(digit_str(n / 100));
        s.append(digit_str((n / 10) % 10));
        s.append(digit_str(n % 10));
    } else if n >= 10 {
        s.append(digit_str(n / 10));
        s.append(digit_str(n % 10));
    } else {
        s.append(digit_str(n));
    }
    proof {
        assert(s@ =~= old(s)@ + decimal_chars(n as int));
    }
}

proof fn lemma_decimal_chars_props(v: int)
    requires
        0 <= v < 256,
    ensures
        ({
            let t = decimal_chars(v);
            &&& 1 <= t.len() <= 3
            &&& (t.len() == 1 <==> v < 10)
            &&& (t.len() == 2 <==> 10 <= v < 100)
            &&& (t.len() == 3 <==> 100 <= v)
            &&& forall|i: int| 0 <= i < t.len() ==> is_digit(#[trigger] t[i])
            &&& (t.len() >= 2 ==> char_digit(t[0]) != 0)
            &&& (t.len() == 1 ==> char_digit(t[0]) == v)
            &&& (t.len() == 2 ==> 10 * char_digit(t[0]) + char_digit(t[1]) == v)
            &&& (t.len() == 3 ==> 100 * char_digit(t[0]) + 10 * char_digit(t[1]) + char_digit(
                t[2],
            ) == v)
        }),
{
    if v >= 100 {
        vstd::arithmetic::div_mod::lemma_div_denominator(v, 10, 10);
        assert((v / 10) / 10 == v / 100);
    }
}

/// A maximal canonical octet written at `start`: the text up to `end` is
/// the canonical decimal of `v`, and no digit follows it.
spec fn octet_run_at(s: Seq<char>, start: int, v: u8, end: int) -> bool {
    &&& 0 <= start <= end <= s.len()
    &&& s.subrange(start, end) == decimal_chars(v as int)
    &&& (end == s.len() || !is_digit(s[end]))
}

proof fn lemma_octet_run_unique(s: Seq<char>, start: int, v: u8, e: int, w: u8, f: int)
    requires
        octet_run_at(s, start, v, e),
        octet_run_at(s, start, w, f),
    ensures
        v == w,
        e == f,
{
    lemma_decimal_chars_props(v as int);
    lemma_decimal_chars_props(w as int);
    let tv = decimal_chars(v as int);
    let tw = decimal_chars(w as int);
    if e < f {
        // position e lies inside w's digits, so s[e] is a digit, yet e is
        // not past the end and v's run says no digit follows it
        assert(s[e] == tw[e - start]);
        assert(is_digit(s[e]));
        assert(false);
    }
    if f < e {
        assert(s[f] == tv[f - start]);
        assert(is_digit(s[f]));
        assert(false);
    }
    assert(tv =~= tw);
    assert(tv.len() == tw.len());
    if tv.len() == 1 {
        assert(char_digit(tv[0]) == v as int && char_digit(tw[0]) == w as int);
    } else if tv.len() == 2 {
        assert(10 * char_digit(tv[0]) + char_digit(tv[1]) == v as int);
        assert(10 * char_digit(tw[0]) + char_digit(tw[1]) == w as int);
    } else {
        assert(100 * char_digit(tv[0]) + 10 * char_digit(tv[1]) + char_digit(tv[2]) == v as int);
        assert(100 * char_digit(tw[0]) + 10 * char_digit(tw[1]) + char_digit(tw[2]) == w as int);
    }
}

/// The value of a decimal digit character.
fn char_to_digit(c: char) -> (r: Option<u8>)
    ensures
        match r {
            Some(d) => d < 10 && char_digit(c) == d as int,
            None => char_digit(c) == -1,
        },
{
    if c == '0' {
        Some(0)
    } else if c == '1' {
        Some(1)
    } else if c == '2' {
        Some(2)
    } else if c == '3' {
        Some(3)
    } else if c == '4' {
        Some(4)
    } else if c == '5' {
        Some(5)
    } else if c == '6' {
        Some(6)
    } else if c == '7' {
        Some(7)
    } else if c == '8' {
        Some(8)
    } else if c == '9' {
        Some(9)
    } else {
        None
    }
}

/// Whether the character at `i` is a decimal digit.
fn digit_at(s: &str, i: usize) -> (r: bool)
    requires
        i < s@.len(),
    ensures
        r == is_digit(s@[i as int]),
{
    let c = s.get_char(i);
    match char_to_digit(c) {
        Some(_) => true,
        None => false,
    }
}

/// Read the maximal canonical octet written at `start`: its value and the
/// position just past its digits. `None` when no canonical octet stands
/// maximally at `start`: no digit there, more than three digits in a row, a
/// leading zero, or a three-digit value above 255.
fn parse_octet_run(s: &str, start: usize, n: usize) -> (r: Option<(u8, usize)>)
    requires
        n == s@.len(),
        start <= n,
    ensures
        match r {
            Some(p) => octet_run_at(s@, start as int, p.0, p.1 as int) && start < p.1,
            None => forall|v: u8, e: int| !octet_run_at(s@, start as int, v, e),
        },
{
    let remaining = n - start;
    let mut len: usize = 0;
    while len < 4 && len < remaining && digit_at(s, start + len)
        invariant
            n == s@.len(),
            start <= n,
            remaining == n - start,
            0 <= len <= 4,
            len <= remaining,
            forall|k: int| start <= k < start + len ==> is_digit(#[trigger] s@[k]),
        ensures
            0 <= len <= 4,
            len <= remaining,
            forall|k: int| start <= k < start + len ==> is_digit(#[trigger] s@[k]),
            len == 4 || len == remaining || !is_digit(s@[start + len]),
        decreases 4 - len,
    {
        len += 1;
    }
    if len == 0 {
        // nothing to read: a canonical octet starts with a digit
        assert forall|v: u8, e: int| !octet_run_at(s@, start as int, v, e) by {
            if octet_run_at(s@, start as int, v, e) {
                lemma_decimal_chars_props(v as int);
                assert(s@[start as int] == decimal_chars(v as int)[0]);
            }
        }
        return None;
    }
    if len == 4 {
        // four digits in a row: any run of at most three digits here would
        // be followed by a digit
        assert forall|v: u8, e: int| !octet_run_at(s@, start as int, v, e) by {
            if octet_run_at(s@, start as int, v, e) {
                lemma_decimal_chars_props(v as int);
                assert(e - start <= 3);
                assert(is_digit(s@[e]));
            }
        }
        return None;
    }
    let end = start + len;
    let d0 = match char_to_digit(s.get_char(start)) {
        Some(d) => d,
        None => {
            assert(false);
            return None;
        },
    };
    if len == 1 {
        proof {
            lemma_decimal_chars_props(d0 as int);
            assert(s@.subrange(start as int, end as int) =~= decimal_chars(d0 as int));
        }
        return Some((d0, end));
    }
    if d0 == 0 {
        // a leading zero is never canonical for a multi-digit octet
        assert forall|v: u8, e: int| !octet_run_at(s@, start as int, v, e) by {
            if octet_run_at(s@, start as int, v, e) {
                lemma_decimal_chars_props(v as int);
                assert(s@[start as int] == decimal_chars(v as int)[0]);
                if e - start >= 2 {
                    assert(char_digit(decimal_chars(v as int)[0]) != 0);
                } else {
                    // a one-digit run here would be followed by a digit
                    assert(is_digit(s@[e]));
                }
            }
        }
        return None;
    }
    let d1 = match char_to_digit(s.get_char(start + 1)) {
        Some(d) => d,
        None => {
            assert(false);
            return None;
        },
    };
    if len == 2 {
        let v = d0 * 10 + d1;
        proof {
            lemma_decimal_chars_props(v as int);
            assert(s@.subrange(start as int, end as int) =~= decimal_chars(v as int));
        }
        return Some((v, end));
    }
    let d2 = match char_to_digit(s.get_char(start + 2)) {
        Some(d) => d,
        None => {
            assert(false);
            return None;
        },
    };
    let wide: u16 = (d0 as u16) * 100 + (d1 as u16) * 10 + (d2 as u16);
    if wide > 255 {
        // three digits spelling more than 255: no u8 writes this way
        assert forall|v: u8, e: int| !octet_run_at(s@, start as int, v, e) by {
            if octet_run_at(s@, start as int, v, e) {
                lemma_decimal_chars_props(v as int);
                let t = decimal_chars(v as int);
                if e - start < 3 {
                    assert(is_digit(s@[e]));
                } else {
                    assert(t[0] == s@[start as int] && t[1] == s@[start + 1] && t[2] == s@[start
                        + 2]);
                }
            }
        }
        return None;
    }
    let v = wide as u8;
    proof {
        lemma_decimal_chars_props(v as int);
        assert(s@.subrange(start as int, end as int) =~= decimal_chars(v as int));
    }
    Some((v, end))
}

proof fn lemma_dotted_parse(s: Seq<char>, ip: Ipv4Address)
    requires
        s == dotted(ip),
    ensures
        ({
            let la = decimal_chars(ip.a as int).len() as int;
            let lb = decimal_chars(ip.b as int).len() as int;
            let lc = decimal_chars(ip.c as int).len() as int;
            let ld = decimal_chars(ip.d as int).len() as int;
            &&& s.len() == la + lb + lc + ld + 3
            &&& octet_run_at(s, 0, ip.a, la)
            &&& s[la] == '.'
            &&& octet_run_at(s, la + 1, ip.b, la + 1 + lb)
            &&& s[la + 1 + lb] == '.'
            &&& octet_run_at(s, la + lb + 2, ip.c, la + lb + 2 + lc)
            &&& s[la + lb + 2 + lc] == '.'
            &&& octet_run_at(s, la + lb + lc + 3, ip.d, s.len() as int)
        }),
{
    lemma_decimal_chars_props(ip.a as int);
    lemma_decimal_chars_props(ip.b as int);
    lemma_decimal_chars_props(ip.c as int);
    lemma_decimal_chars_props(ip.d as int);
    let ta = decimal_chars(ip.a as int);
    let tb = decimal_chars(ip.b as int);
    let tc = decimal_chars(ip.c as int);
    let td = decimal_chars(ip.d as int);
    let la = ta.len() as int;
    let lb = tb.len() as int;
    let lc = tc.len() as int;
    let ld = td.len() as int;
    assert(s.subrange(0, la) =~= ta);
    assert(s.subrange(la + 1, la + 1 + lb) =~= tb);
    assert(s.subrange(la + lb + 2, la + lb + 2 + lc) =~= tc);
    assert(s.subrange(la + lb + lc + 3, s.len() as int) =~= td);
    assert(s[la] == '.');
    assert(s[la + 1 + lb] == '.');
    assert(s[la + lb + 2 + lc] == '.');
    assert(!is_digit('.'));
}

proof fn lemma_run1(s: Seq<char>, ip: Ipv4Address, a: u8, e1: int)
    requires
        s == dotted(ip),
        octet_run_at(s, 0, a, e1),
    ensures
        a == ip.a,
        e1 == decimal_chars(ip.a as int).len() as int,
        0 < e1 < s.len(),
        s[e1] == '.',
{
    lemma_dotted_parse(s, ip);
    lemma_octet_run_unique(s, 0, a, e1, ip.a, decimal_chars(ip.a as int).len() as int);
}

proof fn lemma_run2(s: Seq<char>, ip: Ipv4Address, a: u8, e1: int, b: u8, e2: int)
    requires
        s == dotted(ip),
        octet_run_at(s, 0, a, e1),
        octet_run_at(s, e1 + 1, b, e2),
    ensures
        a == ip.a,
        e1 == decimal_chars(ip.a as int).len() as int,
        b == ip.b,
        e2 == e1 + 1 + decimal_chars(ip.b as int).len() as int,
        e1 + 1 < e2 < s.len(),
        s[e2] == '.',
{
    lemma_run1(s, ip, a, e1);
    lemma_dotted_parse(s, ip);
    let la = decimal_chars(ip.a as int).len() as int;
    let lb = decimal_chars(ip.b as int).len() as int;
    lemma_octet_run_unique(s, e1 + 1, b, e2, ip.b, la + 1 + lb);
}

proof fn lemma_run3(s: Seq<char>, ip: Ipv4Address, a: u8, e1: int, b: u8, e2: int, c: u8, e3: int)
    requires
        s == dotted(ip),
        octet_run_at(s, 0, a, e1),
        octet_run_at(s, e1 + 1, b, e2),
        octet_run_at(s, e2 + 1, c, e3),
    ensures
        a == ip.a,
        e1 == decimal_chars(ip.a as int).len() as int,
        b == ip.b,
        e2 == e1 + 1 + decimal_chars(ip.b as int).len() as int,
        c == ip.c,
        e3 == e2 + 1 + decimal_chars(ip.c as int).len() as int,
        e2 + 1 < e3 < s.len(),
        s[e3] == '.',
{
    lemma_run2(s, ip, a, e1, b, e2);
    lemma_dotted_parse(s, ip);
    let la = decimal_chars(ip.a as int).len() as int;
    let lb = decimal_chars(ip.b as int).len() as int;
    let lc = decimal_chars(ip.c as int).len() as int;
    lemma_octet_run_unique(s, e2 + 1, c, e3, ip.c, la + lb + 2 + lc);
}

#[verifier::rlimit(30)]
proof fn lemma_run4(
    s: Seq<char>,
    ip: Ipv4Address,
    a: u8,
    e1: int,
    b: u8,
    e2: int,
    c: u8,
    e3: int,
    d: u8,
    e4: int,
)
    requires
        s == dotted(ip),
        octet_run_at(s, 0, a, e1),
        octet_run_at(s, e1 + 1, b, e2),
        octet_run_at(s, e2 + 1, c, e3),
        octet_run_at(s, e3 + 1, d, e4),
    ensures
        d == ip.d,
        e4 == s.len() as int,
{
    lemma_run3(s, ip, a, e1, b, e2, c, e3);
    lemma_dotted_parse(s, ip);
    lemma_octet_run_unique(s, e3 + 1, d, e4, ip.d, s.len() as int);
}

proof fn lemma_not_dotted_no_first_run(s: Seq<char>)
    requires
        forall|v: u8, e: int| !octet_run_at(s, 0, v, e),
    ensures
        forall|ip: Ipv4Address| s != #[trigger] dotted(ip),
{
    assert forall|ip: Ipv4Address| s != #[trigger] dotted(ip) by {
        if s == dotted(ip) {
            lemma_dotted_parse(s, ip);
        }
    }
}

proof fn lemma_not_dotted_no_dot_1(s: Seq<char>, a: u8, e1: int)
    requires
        octet_run_at(s, 0, a, e1),
        e1 == s.len() || s[e1] != '.',
    ensures
        forall|ip: Ipv4Address| s != #[trigger] dotted(ip),
{
    assert forall|ip: Ipv4Address| s != #[trigger] dotted(ip) by {
        if s == dotted(ip) {
            lemma_run1(s, ip, a, e1);
        }
    }
}

proof fn lemma_not_dotted_no_second_run(s: Seq<char>, a: u8, e1: int)
    requires
        octet_run_at(s, 0, a, e1),
        s.len() > e1 && s[e1] == '.',
        forall|v: u8, e: int| !(#[trigger] octet_run_at(s, e1 + 1, v, e)),
    ensures
        forall|ip: Ipv4Address| s != #[trigger] dotted(ip),
{
    assert forall|ip: Ipv4Address| s != #[trigger] dotted(ip) by {
        if s == dotted(ip) {
            lemma_run1(s, ip, a, e1);
            lemma_dotted_parse(s, ip);
            let la = decimal_chars(ip.a as int).len() as int;
            let lb = decimal_chars(ip.b as int).len() as int;
            assert(octet_run_at(s, e1 + 1, ip.b, la + 1 + lb));
        }
    }
}

proof fn lemma_not_dotted_no_dot_2(s: Seq<char>, a: u8, e1: int, b: u8, e2: int)
    requires
        octet_run_at(s, 0, a, e1),
        octet_run_at(s, e1 + 1, b, e2),
        e2 == s.len() || s[e2] != '.',
    ensures
        forall|ip: Ipv4Address| s != #[trigger] dotted(ip),
{
    assert forall|ip: Ipv4Address| s != #[trigger] dotted(ip) by {
        if s == dotted(ip) {
            lemma_run2(s, ip, a, e1, b, e2);
        }
    }
}

proof fn lemma_not_dotted_no_third_run(s: Seq<char>, a: u8, e1: int, b: u8, e2: int)
    requires
        octet_run_at(s, 0, a, e1),
        octet_run_at(s, e1 + 1, b, e2),
        s.len() > e2 && s[e2] == '.',
        forall|v: u8, e: int| !(#[trigger] octet_run_at(s, e2 + 1, v, e)),
    ensures
        forall|ip: Ipv4Address| s != #[trigger] dotted(ip),
{
    assert forall|ip: Ipv4Address| s != #[trigger] dotted(ip) by {
        if s == dotted(ip) {
            lemma_run2(s, ip, a, e1, b, e2);
            lemma_dotted_parse(s, ip);
            let la = decimal_chars(ip.a as int).len() as int;
            let lb = decimal_chars(ip.b as int).len() as int;
            let lc = decimal_chars(ip.c as int).len() as int;
            assert(octet_run_at(s, e2 + 1, ip.c, la + lb + 2 + lc));
        }
    }
}

proof fn lemma_not_dotted_no_dot_3(s: Seq<char>, a: u8, e1: int, b: u8, e2: int, c: u8, e3: int)
    requires
        octet_run_at(s, 0, a, e1),
        octet_run_at(s, e1 + 1, b, e2),
        octet_run_at(s, e2 + 1, c, e3),
        e3 == s.len() || s[e3] != '.',
    ensures
        forall|ip: Ipv4Address| s != #[trigger] dotted(ip),
{
    assert forall|ip: Ipv4Address| s != #[trigger] dotted(ip) by {
        if s == dotted(ip) {
            lemma_run3(s, ip, a, e1, b, e2, c, e3);
        }
    }
}

proof fn lemma_not_dotted_no_fourth_run(
    s: Seq<char>,
    a: u8,
    e1: int,
    b: u8,
    e2: int,
    c: u8,
    e3: int,
)
    requires
        octet_run_at(s, 0, a, e1),
        octet_run_at(s, e1 + 1, b, e2),
        octet_run_at(s, e2 + 1, c, e3),
        s.len() > e3 && s[e3] == '.',
        forall|v: u8, e: int| !(#[trigger] octet_run_at(s, e3 + 1, v, e)),
    ensures
        forall|ip: Ipv4Address| s != #[trigger] dotted(ip),
{
    assert forall|ip: Ipv4Address| s != #[trigger] dotted(ip) by {
        if s == dotted(ip) {
            lemma_run3(s, ip, a, e1, b, e2, c, e3);
            lemma_dotted_parse(s, ip);
            assert(octet_run_at(s, e3 + 1, ip.d, s.len() as int));
        }
    }
}

proof fn lemma_not_dotted_early_end(
    s: Seq<char>,
    a: u8,
    e1: int,
    b: u8,
    e2: int,
    c: u8,
    e3: int,
    d: u8,
    e4: int,
)
    requires
        octet_run_at(s, 0, a, e1),
        octet_run_at(s, e1 + 1, b, e2),
        octet_run_at(s, e2 + 1, c, e3),
        octet_run_at(s, e3 + 1, d, e4),
        e4 != s.len(),
    ensures
        forall|ip: Ipv4Address| s != #[trigger] dotted(ip),
{
    assert forall|ip: Ipv4Address| s != #[trigger] dotted(ip) by {
        if s == dotted(ip) {
            lemma_run4(s, ip, a, e1, b, e2, c, e3, d, e4);
        }
    }
}

proof fn lemma_dotted_compose(
    s: Seq<char>,
    a: u8,
    e1: int,
    b: u8,
    e2: int,
    c: u8,
    e3: int,
    d: u8,
)
    requires
        octet_run_at(s, 0, a, e1),
        s[e1] == '.',
        octet_run_at(s, e1 + 1, b, e2),
        s[e2] == '.',
        octet_run_at(s, e2 + 1, c, e3),
        s[e3] == '.',
        octet_run_at(s, e3 + 1, d, s.len() as int),
        e1 < e2 < e3 < s.len(),
    ensures
        s == dotted(Ipv4Address { a, b, c, d }),
{
    let ta = decimal_chars(a as int);
    let tb = decimal_chars(b as int);
    let tc = decimal_chars(c as int);
    let td = decimal_chars(d as int);
    assert(s.subrange(0, e1) == ta);
    assert(s.subrange(e1 + 1, e2) == tb);
    assert(s.subrange(e2 + 1, e3) == tc);
    assert(s.subrange(e3 + 1, s.len() as int) == td);
    assert(s =~= dotted(Ipv4Address { a, b, c, d }));
}

/// Two addresses with the same dotted-quad text are the same address: the
/// canonical form determines the value, so a parsed result is unique.
pub proof fn lemma_dotted_injective(ip1: Ipv4Address, ip2: Ipv4Address)
    requires
        dotted(ip1) == dotted(ip2),
    ensures
        ip1 == ip2,
{
    let s = dotted(ip1);
    lemma_dotted_parse(s, ip2);
    let la = decimal_chars(ip2.a as int).len() as int;
    let lb = decimal_chars(ip2.b as int).len() as int;
    let lc = decimal_chars(ip2.c as int).len() as int;
    lemma_run4(
        s,
        ip1,
        ip2.a,
        la,
        ip2.b,
        la + 1 + lb,
        ip2.c,
        la + lb + 2 + lc,
        ip2.d,
        s.len() as int,
    );
    lemma_run3(s, ip1, ip2.a, la, ip2.b, la + 1 + lb, ip2.c, la + lb + 2 + lc);
}

/// Parse the canonical dotted-quad text of an address: exactly the strings
/// [`Ipv4Address::to_dotted`] writes are accepted, and nothing else.
pub fn parse_ipv4(s: &str) -> (r: Option<Ipv4Address>)
    ensures
        match r {
            Some(ip) => s@ == dotted(ip),
            None => forall|ip: Ipv4Address| s@ != #[trigger] dotted(ip),
        },
{
    let n = s.unicode_len();
    let (a, e1) = match parse_octet_run(s, 0, n) {
        Some(p) => p,
        None => {
            proof {
                lemma_not_dotted_no_first_run(s@);
            }
            return None;
        },
    };
    if e1 >= n || !char_is_dot(s, e1) {
        proof {
            lemma_not_dotted_no_dot_1(s@, a, e1 as int);
        }
        return None;
    }
    let (b, e2) = match parse_octet_run(s, e1 + 1, n) {
        Some(p) => p,
        None => {
            proof {
                lemma_not_dotted_no_second_run(s@, a, e1 as int);
            }
            return None;
        },
    };
    if e2 >= n || !char_is_dot(s, e2) {
        proof {
            lemma_not_dotted_no_dot_2(s@, a, e1 as int, b, e2 as int);
        }
        return None;
    }
    let (c, e3) = match parse_octet_run(s, e2 + 1, n) {
        Some(p) => p,
        None => {
            proof {
                lemma_not_dotted_no_third_run(s@, a, e1 as int, b, e2 as int);
            }
            return None;
        },
    };
    if e3 >= n || !char_is_dot(s, e3) {
        proof {
            lemma_not_dotted_no_dot_3(s@, a, e1 as int, b, e2 as int, c, e3 as int);
        }
        return None;
    }
    let (d, e4) = match parse_octet_run(s, e3 + 1, n) {
        Some(p) => p,
        None => {
            proof {
                lemma_not_dotted_no_fourth_run(s@, a, e1 as int, b, e2 as int, c, e3 as int);
            }
            return None;
        },
    };
    if e4 != n {
        proof {
            lemma_not_dotted_early_end(
                s@,
                a,
                e1 as int,
                b,
                e2 as int,
                c,
                e3 as int,
                d,
                e4 as int,
            );
        }
        return None;
    }
    proof {
        lemma_dotted_compose(s@, a, e1 as int, b, e2 as int, c, e3 as int, d);
    }
    Some(Ipv4Address { a, b, c, d })
}


/// Whether the character at `i` is a dot.
fn char_is_dot(s: &str, i: usize) -> (r: bool)
    requires
        i < s@.len(),
    ensures
        r == (s@[i as int] == '.'),
{
    s.get_char(i) == '.'
}

impl Ipv4Address {
    /// Build an address from its four octets, highest first.
    pub fn new(a: u8, b: u8, c: u8, d: u8) -> (r: Ipv4Address)
        ensures
            r == (Ipv4Address { a, b, c, d }),
    {
        Ipv4Address { a, b, c, d }
    }

    /// The canonical dotted-quad text of this address.
    pub fn to_dotted(&self) -> (r: String)
        ensures
            r@ == dotted(*self),
    {
        let mut s = String::new();
        push_decimal(&mut s, self.a);
        s.append(".");
        push_decimal(&mut s, self.b);
        s.append(".");
        push_decimal(&mut s, self.c);
        s.append(".");
        push_decimal(&mut s, self.d);
        proof {
            reveal_strlit(".");
            assert(s@ =~= dotted(*self));
        }
        s
    }
}

} // verus!
