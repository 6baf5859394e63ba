//! Canonical JSON text for the scalar values carried in a token: decimal
//! integers, escaped strings, booleans and `null`. Each printer has a parser
//! that accepts exactly the printer's output.
use vstd::prelude::*;

verus! {

pub open spec fn is_digit(c: char) -> bool {
    48 <= (c as u32) <= 57
}

pub open spec fn digit_char(d: nat) -> char {
    ((d % 10) + 48) as char
}

pub open spec fn digit_value(c: char) -> nat {
    ((c as u32) - 48) as nat
}

/// Decimal digits of `n`, without leading zeros.
pub open spec fn nat_text(n: nat) -> Seq<char>
    decreases n,
{
    if n < 10 {
        seq![digit_char(n)]
    } else {
        nat_text(n / 10).push(digit_char(n % 10))
    }
}

/// Decimal text of `i`, with a leading `-` when negative.
pub open spec fn int_text(i: int) -> Seq<char> {
    if i < 0 {
        seq!['-'] + nat_text((-i) as nat)
    } else {
        nat_text(i as nat)
    }
}

pub open spec fn digits_value(ds: Seq<char>) -> nat
    decreases ds.len(),
{
    if ds.len() == 0 {
        0
    } else {
        digits_value(ds.drop_last()) * 10 + digit_value(ds.last())
    }
}

pub open spec fn all_digits(ds: Seq<char>) -> bool {
    forall|i: int| 0 <= i < ds.len() ==> is_digit(#[trigger] ds[i])
}

pub open spec fn bool_text(b: bool) -> Seq<char> {
    if b {
        seq!['t', 'r', 'u', 'e']
    } else {
        seq!['f', 'a', 'l', 's', 'e']
    }
}

pub open spec fn null_text() -> Seq<char> {
    seq!['n', 'u', 'l', 'l']
}

pub open spec fn hex_char(d: nat) -> char {
    if d < 10 {
        (d + 48) as char
    } else {
        (d + 87) as char
    }
}

/// How one character is written inside a JSON string.
pub open spec fn esc_char(c: char) -> Seq<char> {
    if c == '"' {
        seq!['\\', '"']
    } else if c == '\\' {
        seq!['\\', '\\']
    } else if (c as u32) < 32 {
        seq![
            '\\',
            'u',
            '0',
            '0',
            if (c as u32) < 16 { '0' } else { '1' },
            hex_char(((c as u32) % 16) as nat),
        ]
    } else {
        seq![c]
    }
}

pub open spec fn escaped(s: Seq<char>) -> Seq<char>
    decreases s.len(),
{
    if s.len() == 0 {
        seq![]
    } else {
        escaped(s.drop_last()) + esc_char(s.last())
    }
}

/// A JSON string literal holding `s`.
pub open spec fn str_text(s: Seq<char>) -> Seq<char> {
    seq!['"'] + escaped(s) + seq!['"']
}

pub open spec fn opt_text(o: Option<Seq<char>>) -> Seq<char> {
    match o {
        Some(s) => str_text(s),
        None => null_text(),
    }
}

pub open spec fn rest_of(s: Seq<char>, pos: int) -> Seq<char> {
    s.subrange(pos, s.len() as int)
}

pub proof fn lemma_nat_text(n: nat)
    ensures
        nat_text(n).len() >= 1,
        all_digits(nat_text(n)),
        digits_value(nat_text(n)) == n,
        nat_text(n)[0] == '0' ==> n == 0,
    decreases n,
{
    let t = nat_text(n);
    lemma_digit_char(n % 10);
    if n >= 10 {
        lemma_nat_text(n / 10);
        assert(t.drop_last() =~= nat_text(n / 10));
        assert(t[0] == nat_text(n / 10)[0]);
        assert(t.last() == digit_char(n % 10));
        assert(digits_value(t) == (n / 10) * 10 + n % 10);
        assert forall|i: int| 0 <= i < t.len() implies is_digit(#[trigger] t[i]) by {
            if i < t.len() - 1 {
                assert(t[i] == nat_text(n / 10)[i]);
            }
        }
    } else {
        assert(t.drop_last() =~= Seq::<char>::empty());
        assert(n % 10 == n);
        assert(digits_value(t.drop_last()) == 0);
    }
}

pub proof fn lemma_digit_round(c: char)
    requires
        is_digit(c),
    ensures
        digit_value(c) < 10,
        digit_char(digit_value(c)) == c,
{
    let v = digit_value(c);
    assert(v == (c as u32) - 48);
    assert(v % 10 == v);
    assert((((c as u32) - 48 + 48) as char) == c);
}

pub proof fn lemma_digit_char(d: nat)
    requires
        d < 10,
    ensures
        is_digit(digit_char(d)),
        digit_value(digit_char(d)) == d,
        digit_char(d) == '0' <==> d == 0,
{
    assert(d % 10 == d);
    assert((((d % 10) + 48) as char) as u32 == d + 48);
}

pub proof fn lemma_digits_canonical(ds: Seq<char>)
    requires
        ds.len() >= 1,
        all_digits(ds),
        ds[0] != '0' || ds.len() == 1,
    ensures
        nat_text(digits_value(ds)) == ds,
        ds.len() > 1 ==> digits_value(ds) >= 10,
        ds.len() == 1 ==> digits_value(ds) < 10,
    decreases ds.len(),
{
    let v = digits_value(ds);
    if ds.len() == 1 {
        assert(ds.drop_last() =~= Seq::<char>::empty());
        assert(digits_value(ds.drop_last()) == 0);
        assert(is_digit(ds[0]));
        lemma_digit_round(ds[0]);
        assert(nat_text(v) =~= ds);
    } else {
        let p = ds.drop_last();
        assert(p[0] == ds[0]);
        lemma_digits_canonical(p);
        let pv = digits_value(p);
        let d = digit_value(ds.last());
        assert(d < 10);
        if p.len() == 1 {
            assert(pv >= 1);
        }
        assert(v == pv * 10 + d);
        assert(v / 10 == pv && v % 10 == d) by (nonlinear_arith)
            requires
                v == pv * 10 + d,
                d < 10,
        ;
        assert(is_digit(ds.last()));
        lemma_digit_round(ds.last());
        assert(nat_text(v) == nat_text(pv).push(digit_char(d)));
        assert(p.push(ds.last()) =~= ds);
    }
}

pub proof fn lemma_prefix_value_le(ds: Seq<char>, k: int)
    requires
        0 <= k <= ds.len(),
        all_digits(ds),
    ensures
        digits_value(ds.take(k)) <= digits_value(ds),
    decreases ds.len(),
{
    if k < ds.len() {
        let p = ds.drop_last();
        assert(p.take(k) =~= ds.take(k));
        lemma_prefix_value_le(p, k);
    } else {
        assert(ds.take(k) =~= ds);
    }
}

pub proof fn lemma_escaped_concat(a: Seq<char>, b: Seq<char>)
    ensures
        escaped(a + b) == escaped(a) + escaped(b),
    decreases b.len(),
{
    if b.len() == 0 {
        assert(a + b =~= a);
        assert(escaped(a) + escaped(b) =~= escaped(a));
    } else {
        lemma_escaped_concat(a, b.drop_last());
        assert((a + b).drop_last() =~= a + b.drop_last());
        assert(escaped(a) + escaped(b) =~= escaped(a) + escaped(b.drop_last()) + esc_char(
            b.last(),
        ));
    }
}

pub proof fn lemma_split_rest(s: Seq<char>, pos: int, a: Seq<char>, b: Seq<char>)
    requires
        0 <= pos <= s.len(),
        rest_of(s, pos) == a + b,
    ensures
        pos + a.len() <= s.len(),
        s.subrange(pos, pos + a.len()) == a,
        rest_of(s, pos + a.len()) == b,
{
    assert(s.subrange(pos, pos + a.len()) =~= (a + b).subrange(0, a.len() as int));
    assert(rest_of(s, pos + a.len()) =~= (a + b).subrange(a.len() as int, (a + b).len() as int));
}

pub proof fn lemma_join_rest(s: Seq<char>, pos: int, e: int)
    requires
        0 <= pos <= e <= s.len(),
    ensures
        rest_of(s, pos) == s.subrange(pos, e) + rest_of(s, e),
{
    assert(rest_of(s, pos) =~= s.subrange(pos, e) + rest_of(s, e));
}

pub fn push_lit(out: &mut Vec<char>, lit: &str)
    ensures
        final(out)@ == old(out)@ + lit@,
{
    let n = lit.unicode_len();
    let mut i: usize = 0;
    while i < n
        invariant
            n == lit@.len(),
            i <= n,
            out@ == old(out)@ + lit@.take(i as int),
        decreases n - i,
    {
        let c = lit.get_char(i);
        out.push(c);
        i += 1;
        assert(lit@.take(i as int) =~= lit@.take(i - 1).push(c));
    }
    assert(lit@.take(n as int) =~= lit@);
}

pub fn push_nat(out: &mut Vec<char>, n: u64)
    ensures
        final(out)@ == old(out)@ + nat_text(n as nat),
    decreases n,
{
    if n >= 10 {
        push_nat(out, n / 10);
    }
    let d = (n % 10) as u8;
    out.push(((d + 48) as u8) as char);
    assert(out@ =~= old(out)@ + nat_text(n as nat));
}

pub fn push_int(out: &mut Vec<char>, i: i64)
    ensures
        final(out)@ == old(out)@ + int_text(i as int),
{
    if i < 0 {
        out.push('-');
        let m = (0i128 - (i as i128)) as u64;
        push_nat(out, m);
        assert(out@ =~= old(out)@ + int_text(i as int));
    } else {
        push_nat(out, i as u64);
    }
}

pub fn push_bool(out: &mut Vec<char>, b: bool)
    ensures
        final(out)@ == old(out)@ + bool_text(b),
{
    if b {
        out.push('t');
        out.push('r');
        out.push('u');
        out.push('e');
    } else {
        out.push('f');
        out.push('a');
        out.push('l');
        out.push('s');
        out.push('e');
    }
    assert(out@ =~= old(out)@ + bool_text(b));
}

fn hex_digit(d: u32) -> (c: char)
    requires
        d < 16,
    ensures
        c == hex_char(d as nat),
{
    if d < 10 {
        ((d + 48) as u8) as char
    } else {
        ((d + 87) as u8) as char
    }
}

pub fn push_esc_char(out: &mut Vec<char>, c: char)
    ensures
        final(out)@ == old(out)@ + esc_char(c),
{
    let code = c as u32;
    if c == '"' {
        out.push('\\');
        out.push('"');
    } else if c == '\\' {
        out.push('\\');
        out.push('\\');
    } else if code < 32 {
        out.push('\\');
        out.push('u');
        out.push('0');
        out.push('0');
        out.push(if code < 16 { '0' } else { '1' });
        out.push(hex_digit(code % 16));
    } else {
        out.push(c);
    }
    assert(out@ =~= old(out)@ + esc_char(c));
}

pub fn chars_of(s: &str) -> (r: Vec<char>)
    ensures
        r@ == s@,
{
    let mut v: Vec<char> = Vec::new();
    for c in it: s.chars()
        invariant
            v@ == it.seq().take(it.index() as int),
    {
        v.push(c);
    }
    v
}

pub fn push_str_text(out: &mut Vec<char>, s: &str)
    ensures
        final(out)@ == old(out)@ + str_text(s@),
{
    let cs = chars_of(s);
    out.push('"');
    let ghost start = out@;
    let mut i: usize = 0;
    while i < cs.len()
        invariant
            i <= cs.len(),
            out@ == start + escaped(cs@.take(i as int)),
        decreases cs.len() - i,
    {
        push_esc_char(out, cs[i]);
        proof {
            assert(cs@.take(i + 1).drop_last() =~= cs@.take(i as int));
        }
        i += 1;
    }
    assert(cs@.take(i as int) =~= s@);
    out.push('"');
    assert(out@ =~= old(out)@ + str_text(s@));
}

pub fn push_opt(out: &mut Vec<char>, o: &Option<String>)
    ensures
        final(out)@ == old(out)@ + opt_text(
            match o {
                Some(s) => Some(s@),
                None => None,
            },
        ),
{
    match o {
        Some(s) => push_str_text(out, s.as_str()),
        None => {
            out.push('n');
            out.push('u');
            out.push('l');
            out.push('l');
            assert(out@ =~= old(out)@ + null_text());
        },
    }
}

} // verus!

verus! {

pub fn parse_char(s: &Vec<char>, pos: usize, c: char) -> (r: Option<usize>)
    requires
        pos <= s.len(),
    ensures
        r matches Some(e) ==> e == pos + 1 && e <= s.len() && s@[pos as int] == c,
        pos < s.len() && s@[pos as int] == c ==> r == Some((pos + 1) as usize),
{
    if pos < s.len() && s[pos] == c {
        Some(pos + 1)
    } else {
        None
    }
}

pub fn parse_lit(s: &Vec<char>, pos: usize, lit: &str) -> (r: Option<usize>)
    requires
        pos <= s.len(),
    ensures
        r matches Some(e) ==> e == pos + lit@.len() && e <= s.len() && s@.subrange(
            pos as int,
            e as int,
        ) == lit@,
        pos + lit@.len() <= s.len() && s@.subrange(pos as int, pos + lit@.len()) == lit@ ==> r
            == Some((pos + lit@.len()) as usize),
{
    let n = lit.unicode_len();
    if n > s.len() - pos {
        return None;
    }
    let mut i: usize = 0;
    while i < n
        invariant
            n == lit@.len(),
            pos + n <= s.len(),
            i <= n,
            s@.subrange(pos as int, pos + i) == lit@.take(i as int),
        decreases n - i,
    {
        let c = lit.get_char(i);
        if s[pos + i] != c {
            proof {
                if s@.subrange(pos as int, pos + lit@.len()) == lit@ {
                    assert(s@.subrange(pos as int, pos + lit@.len())[i as int] == s@[pos + i]);
                }
            }
            return None;
        }
        i += 1;
        assert(s@.subrange(pos as int, pos + i) =~= lit@.take(i as int));
    }
    assert(lit@.take(n as int) =~= lit@);
    Some(pos + n)
}

pub fn parse_bool(s: &Vec<char>, pos: usize) -> (r: Option<(bool, usize)>)
    requires
        pos <= s.len(),
    ensures
        r matches Some((b, e)) ==> pos < e <= s.len() && s@.subrange(pos as int, e as int)
            == bool_text(b),
        forall|b: bool, tail: Seq<char>| #[trigger]
            rest_of(s@, pos as int) == bool_text(b) + tail ==> r == Some(
                (b, (pos + bool_text(b).len()) as usize),
            ),
{
    if pos < s.len() && s[pos] == 't' {
        if s.len() - pos >= 4 && s[pos + 1] == 'r' && s[pos + 2] == 'u' && s[pos + 3] == 'e' {
            assert(s@.subrange(pos as int, pos + 4) =~= bool_text(true));
            proof {
                assert forall|b: bool, tail: Seq<char>| #[trigger]
                    rest_of(s@, pos as int) == bool_text(b) + tail implies b == true by {
                    assert(rest_of(s@, pos as int)[0] == s@[pos as int]);
                }
            }
            return Some((true, pos + 4));
        }
    } else if pos < s.len() && s[pos] == 'f' {
        if s.len() - pos >= 5 && s[pos + 1] == 'a' && s[pos + 2] == 'l' && s[pos + 3] == 's'
            && s[pos + 4] == 'e' {
            assert(s@.subrange(pos as int, pos + 5) =~= bool_text(false));
            proof {
                assert forall|b: bool, tail: Seq<char>| #[trigger]
                    rest_of(s@, pos as int) == bool_text(b) + tail implies b == false by {
                    assert(rest_of(s@, pos as int)[0] == s@[pos as int]);
                }
            }
            return Some((false, pos + 5));
        }
    }
    proof {
        assert forall|b: bool, tail: Seq<char>| #[trigger]
            rest_of(s@, pos as int) == bool_text(b) + tail implies false by {
            let r = rest_of(s@, pos as int);
            assert(r.len() == s.len() - pos);
            assert(r.len() >= bool_text(b).len());
            assert(r[0] == s@[pos as int]);
            assert(r[1] == s@[pos + 1]);
            assert(r[2] == s@[pos + 2]);
            assert(r[3] == s@[pos + 3]);
            assert(r[0] == bool_text(b)[0]);
            assert(r[1] == bool_text(b)[1]);
            assert(r[2] == bool_text(b)[2]);
            assert(r[3] == bool_text(b)[3]);
            if !b {
                assert(r[4] == s@[pos + 4]);
                assert(r[4] == bool_text(b)[4]);
            }
        }
    }
    None
}

pub fn parse_nat(s: &Vec<char>, pos: usize) -> (r: Option<(u64, usize)>)
    requires
        pos <= s.len(),
    ensures
        r matches Some((v, e)) ==> pos < e <= s.len() && s@.subrange(pos as int, e as int)
            == nat_text(v as nat) && (e == s.len() || !is_digit(s@[e as int])),
        forall|n: nat, tail: Seq<char>|
            n <= u64::MAX && #[trigger] rest_of(s@, pos as int) == nat_text(n) + tail && (tail.len()
                == 0 || !is_digit(tail[0])) ==> r == Some((n as u64, (pos + nat_text(n).len()) as usize)),
{
    let mut i: usize = pos;
    let mut v: u64 = 0;
    while i < s.len() && (s[i] as u32) >= 48 && (s[i] as u32) <= 57
        invariant
            pos <= i <= s.len(),
            all_digits(s@.subrange(pos as int, i as int)),
            v == digits_value(s@.subrange(pos as int, i as int)),
        decreases s.len() - i,
    {
        let d = ((s[i] as u32) - 48) as u64;
        let ghost ds = s@.subrange(pos as int, i + 1);
        assert(ds.drop_last() =~= s@.subrange(pos as int, i as int));
        assert(digits_value(ds) == v * 10 + d);
        if v > (u64::MAX - d) / 10 {
            proof {
                assert forall|n: nat, tail: Seq<char>|
                    n <= u64::MAX && #[trigger] rest_of(s@, pos as int) == nat_text(n) + tail
                        && (tail.len() == 0 || !is_digit(tail[0])) implies false by {
                    lemma_nat_text(n);
                    let m = nat_text(n).len();
                    lemma_split_rest(s@, pos as int, nat_text(n), tail);
                    if m <= i - pos {
                        assert(rest_of(s@, pos as int)[m as int] == s@[pos + m]);
                        assert(s@.subrange(pos as int, i as int)[m as int] == s@[pos + m]);
                    } else {
                        assert(nat_text(n).take(i + 1 - pos) =~= ds);
                        lemma_prefix_value_le(nat_text(n), i + 1 - pos);
                    }
                }
            }
            return None;
        }
        v = v * 10 + d;
        i += 1;
        assert(all_digits(ds));
    }
    let ghost ds = s@.subrange(pos as int, i as int);
    proof {
        assert forall|n: nat, tail: Seq<char>|
            n <= u64::MAX && #[trigger] rest_of(s@, pos as int) == nat_text(n) + tail && (
            tail.len() == 0 || !is_digit(tail[0])) implies i == pos + nat_text(n).len() && ds
            == nat_text(n) && i > pos && v == n && (s@[pos as int] == '0' ==> i == pos + 1) by {
            lemma_nat_text(n);
            let m = nat_text(n).len();
            lemma_split_rest(s@, pos as int, nat_text(n), tail);
            if m < i - pos {
                assert(rest_of(s@, pos as int)[m as int] == tail[0]);
                assert(ds[m as int] == s@[pos + m]);
            } else if m > i - pos {
                assert(s@.subrange(pos as int, pos + m)[i - pos] == s@[i as int]);
            }
            assert(ds =~= nat_text(n));
            if s@[pos as int] == '0' {
                assert(nat_text(n)[0] == s@[pos as int]);
                assert(nat_text(0).len() == 1);
            }
        }
    }
    if i == pos {
        return None;
    }
    if s[pos] == '0' && i > pos + 1 {
        return None;
    }
    proof {
        lemma_digits_canonical(ds);
    }
    Some((v, i))
}

pub fn parse_int(s: &Vec<char>, pos: usize) -> (r: Option<(i64, usize)>)
    requires
        pos <= s.len(),
    ensures
        r matches Some((v, e)) ==> pos < e <= s.len() && s@.subrange(pos as int, e as int)
            == int_text(v as int) && (e == s.len() || !is_digit(s@[e as int])),
        forall|n: int, tail: Seq<char>|
            i64::MIN <= n <= i64::MAX && #[trigger] rest_of(s@, pos as int) == int_text(n) + tail
                && (tail.len() == 0 || !is_digit(tail[0])) ==> r == Some(
                (n as i64, (pos + int_text(n).len()) as usize),
            ),
{
    if pos < s.len() && s[pos] == '-' {
        proof {
            assert forall|n: int, tail: Seq<char>|
                #[trigger] rest_of(s@, pos as int) == int_text(n) + tail implies n < 0
                && rest_of(s@, pos + 1) == nat_text((-n) as nat) + tail by {
                assert(rest_of(s@, pos as int)[0] == s@[pos as int]);
                if n >= 0 {
                    lemma_nat_text(n as nat);
                    assert(int_text(n)[0] == nat_text(n as nat)[0]);
                    assert((int_text(n) + tail)[0] == int_text(n)[0]);
                } else {
                    assert(int_text(n) + tail =~= seq!['-'] + (nat_text((-n) as nat) + tail));
                    lemma_split_rest(s@, pos as int, seq!['-'], nat_text((-n) as nat) + tail);
                }
            }
        }
        match parse_nat(s, pos + 1) {
            Some((m, e)) => {
                if m == 0 || m > 9223372036854775808u64 {
                    proof {
                        assert forall|n: int, tail: Seq<char>|
                            i64::MIN <= n <= i64::MAX && #[trigger] rest_of(s@, pos as int)
                                == int_text(n) + tail && (tail.len() == 0 || !is_digit(
                                tail[0],
                            )) implies false by {
                            assert(rest_of(s@, pos + 1) == nat_text((-n) as nat) + tail);
                        }
                    }
                    return None;
                }
                let v: i64 = if m == 9223372036854775808u64 {
                    i64::MIN
                } else {
                    -(m as i64)
                };
                assert(s@.subrange(pos as int, e as int) =~= seq!['-'] + s@.subrange(
                    pos + 1,
                    e as int,
                ));
                proof {
                    assert forall|n: int, tail: Seq<char>|
                        i64::MIN <= n <= i64::MAX && #[trigger] rest_of(s@, pos as int)
                            == int_text(n) + tail && (tail.len() == 0 || !is_digit(
                            tail[0],
                        )) implies n == v && e == pos + int_text(n).len() by {
                        assert(rest_of(s@, pos + 1) == nat_text((-n) as nat) + tail);
                    }
                }
                Some((v, e))
            },
            None => {
                proof {
                    assert forall|n: int, tail: Seq<char>|
                        i64::MIN <= n <= i64::MAX && #[trigger] rest_of(s@, pos as int)
                            == int_text(n) + tail && (tail.len() == 0 || !is_digit(
                            tail[0],
                        )) implies false by {
                        assert(rest_of(s@, pos + 1) == nat_text((-n) as nat) + tail);
                    }
                }
                None
            },
        }
    } else {
        proof {
            assert forall|n: int, tail: Seq<char>|
                #[trigger] rest_of(s@, pos as int) == int_text(n) + tail implies n >= 0 by {
                if n < 0 {
                    assert(rest_of(s@, pos as int).len() == s.len() - pos);
                    assert((int_text(n) + tail)[0] == '-');
                    assert(rest_of(s@, pos as int)[0] == s@[pos as int]);
                }
            }
        }
        match parse_nat(s, pos) {
            Some((m, e)) => {
                if m > 9223372036854775807u64 {
                    return None;
                }
                Some((m as i64, e))
            },
            None => None,
        }
    }
}

} // verus!

verus! {

proof fn lemma_escaped_single(c: char)
    ensures
        escaped(seq![c]) == esc_char(c),
{
    assert(seq![c].drop_last() =~= Seq::<char>::empty());
    assert(escaped(Seq::<char>::empty()) + esc_char(c) =~= esc_char(c));
}

/// Inside `str_text(t)`, after the escapes of the first `k` characters, comes
/// the escape of `t[k]`, or the closing quote when `k` is the whole length.
proof fn lemma_str_step(s: Seq<char>, pos: int, i: int, t: Seq<char>, tail: Seq<char>, k: int)
    requires
        0 <= pos < i <= s.len(),
        rest_of(s, pos) == str_text(t) + tail,
        0 <= k <= t.len(),
        s.subrange(pos + 1, i) == escaped(t.take(k)),
    ensures
        k < t.len() ==> i + esc_char(t[k]).len() <= s.len() && s.subrange(
            i,
            i + esc_char(t[k]).len(),
        ) == esc_char(t[k]),
        k == t.len() ==> i < s.len() && s[i] == '"' && i + 1 == pos + str_text(t).len(),
{
    let r = rest_of(s, pos);
    let e = escaped(t);
    assert(str_text(t) + tail =~= seq!['"'] + (e + (seq!['"'] + tail)));
    lemma_split_rest(s, pos, seq!['"'], e + (seq!['"'] + tail));
    let a = escaped(t.take(k));
    assert(a.len() == i - pos - 1);
    if k < t.len() {
        let x = esc_char(t[k]);
        assert(t =~= t.take(k) + (seq![t[k]] + t.skip(k + 1)));
        lemma_escaped_concat(t.take(k), seq![t[k]] + t.skip(k + 1));
        lemma_escaped_concat(seq![t[k]], t.skip(k + 1));
        lemma_escaped_single(t[k]);
        assert(e =~= a + (x + escaped(t.skip(k + 1))));
        assert(e + (seq!['"'] + tail) =~= a + (x + (escaped(t.skip(k + 1)) + (seq!['"'] + tail))));
        lemma_split_rest(s, pos + 1, a, x + (escaped(t.skip(k + 1)) + (seq!['"'] + tail)));
        lemma_split_rest(s, i, x, escaped(t.skip(k + 1)) + (seq!['"'] + tail));
    } else {
        assert(t.take(k) =~= t);
        lemma_split_rest(s, pos + 1, e, seq!['"'] + tail);
        assert(rest_of(s, i)[0] == s[i]);
    }
}

proof fn lemma_code_char(c: char)
    ensures
        ((c as u32) as char) == c,
{
}

proof fn lemma_hex_char(d: nat)
    requires
        d < 16,
    ensures
        (hex_char(d) as u32) == if d < 10 { d + 48 } else { d + 87 },
{
}

/// Two escapes that both start a sequence are the escape of the same character.
proof fn lemma_esc_prefix_free(a: char, b: char, w: Seq<char>)
    requires
        esc_char(a).len() <= w.len(),
        esc_char(b).len() <= w.len(),
        esc_char(a) == w.take(esc_char(a).len() as int),
        esc_char(b) == w.take(esc_char(b).len() as int),
    ensures
        a == b,
{
    let x = esc_char(a);
    let y = esc_char(b);
    assert(x[0] == w[0] && y[0] == w[0]);
    if x[0] == '\\' {
        assert(x[1] == w[1] && y[1] == w[1]);
        if x[1] == 'u' {
            assert(x[4] == w[4] && y[4] == w[4]);
            assert(x[5] == w[5] && y[5] == w[5]);
            let ca = a as u32;
            let cb = b as u32;
            lemma_hex_char((ca % 16) as nat);
            lemma_hex_char((cb % 16) as nat);
            assert(ca % 16 == cb % 16);
            assert(ca == cb);
        }
    }
}

proof fn lemma_str_advance(s: Seq<char>, pos: int, j: int, before: Seq<char>, c: char)
    requires
        0 <= pos < j,
        j + esc_char(c).len() <= s.len(),
        s.subrange(pos + 1, j) == escaped(before),
        s.subrange(j, j + esc_char(c).len()) == esc_char(c),
        forall|t: Seq<char>, tail: Seq<char>| #[trigger]
            rest_of(s, pos) == str_text(t) + tail ==> before.len() <= t.len() && before == t.take(
                before.len() as int,
            ),
    ensures
        s.subrange(pos + 1, j + esc_char(c).len()) == escaped(before.push(c)),
        forall|t: Seq<char>, tail: Seq<char>| #[trigger]
            rest_of(s, pos) == str_text(t) + tail ==> before.len() + 1 <= t.len() && before.push(c)
                == t.take(before.len() + 1 as int),
{
    let n = esc_char(c).len();
    assert(before.push(c).drop_last() =~= before);
    assert(s.subrange(pos + 1, j + n) =~= s.subrange(pos + 1, j) + s.subrange(j, j + n));
    assert forall|t: Seq<char>, tail: Seq<char>| #[trigger]
        rest_of(s, pos) == str_text(t) + tail implies before.len() + 1 <= t.len() && before.push(c)
        == t.take(before.len() + 1 as int) by {
        let k = before.len() as int;
        lemma_str_step(s, pos, j, t, tail, k);
        if k == t.len() {
            assert(esc_char(c)[0] == s[j]);
        } else {
            let w = rest_of(s, j);
            let x = esc_char(t[k]);
            assert(x =~= w.take(x.len() as int));
            assert(esc_char(c) =~= w.take(n as int));
            lemma_esc_prefix_free(t[k], c, w);
            assert(before.push(c) =~= t.take(k + 1));
        }
    }
}

pub fn parse_str(s: &Vec<char>, pos: usize) -> (r: Option<(Vec<char>, usize)>)
    requires
        pos <= s.len(),
    ensures
        r matches Some((v, e)) ==> pos < e <= s.len() && s@.subrange(pos as int, e as int)
            == str_text(v@),
        forall|t: Seq<char>, tail: Seq<char>| #[trigger]
            rest_of(s@, pos as int) == str_text(t) + tail ==> (r matches Some((v, e)) && v@ == t
                && e == pos + str_text(t).len()),
{
    if pos >= s.len() || s[pos] != '"' {
        proof {
            assert forall|t: Seq<char>, tail: Seq<char>| #[trigger]
                rest_of(s@, pos as int) == str_text(t) + tail implies false by {
                assert(rest_of(s@, pos as int).len() == s.len() - pos);
                assert((str_text(t) + tail)[0] == '"');
                assert(rest_of(s@, pos as int)[0] == s@[pos as int]);
            }
        }
        return None;
    }
    let mut i: usize = pos + 1;
    let mut acc: Vec<char> = Vec::new();
    assert(s@.subrange(pos + 1, i as int) =~= escaped(acc@));
    assert forall|t: Seq<char>, tail: Seq<char>| #[trigger]
        rest_of(s@, pos as int) == str_text(t) + tail implies acc@ == t.take(0) by {
        assert(t.take(0) =~= acc@);
    }
    loop
        invariant
            pos < i <= s.len(),
            s@[pos as int] == '"',
            s@.subrange(pos + 1, i as int) == escaped(acc@),
            forall|t: Seq<char>, tail: Seq<char>| #[trigger]
                rest_of(s@, pos as int) == str_text(t) + tail ==> acc@.len() <= t.len() && acc@
                    == t.take(acc@.len() as int),
        decreases s.len() - i,
    {
        let ghost k = acc@.len() as int;
        let ghost before = acc@;
        if i >= s.len() {
            proof {
                assert forall|t: Seq<char>, tail: Seq<char>| #[trigger]
                    rest_of(s@, pos as int) == str_text(t) + tail implies false by {
                    lemma_str_step(s@, pos as int, i as int, t, tail, k);
                }
            }
            return None;
        }
        let c = s[i];
        if c == '"' {
            proof {
                assert(s@.subrange(pos as int, i + 1) =~= str_text(acc@));
                assert forall|t: Seq<char>, tail: Seq<char>| #[trigger]
                    rest_of(s@, pos as int) == str_text(t) + tail implies acc@ == t && i + 1 == pos
                    + str_text(t).len() by {
                    lemma_str_step(s@, pos as int, i as int, t, tail, k);
                    if k < t.len() {
                        assert(esc_char(t[k])[0] == s@[i as int]);
                    }
                    assert(t.take(k) =~= t);
                }
            }
            return Some((acc, i + 1));
        }
        if c == '\\' {
            if i + 1 >= s.len() {
                proof {
                    assert forall|t: Seq<char>, tail: Seq<char>| #[trigger]
                        rest_of(s@, pos as int) == str_text(t) + tail implies false by {
                        lemma_str_step(s@, pos as int, i as int, t, tail, k);
                        if k < t.len() {
                            assert(esc_char(t[k])[0] == s@[i as int]);
                        }
                    }
                }
                return None;
            }
            let d = s[i + 1];
            if d == '"' || d == '\\' {
                assert(s@.subrange(i as int, i + 2) =~= esc_char(d));
                acc.push(d);
                i = i + 2;
            } else if d == 'u' && s.len() - i > 5 && s[i + 2] == '0' && s[i + 3] == '0' && (
            s[i + 4] == '0' || s[i + 4] == '1') && (((s[i + 5] as u32) >= 48 && (s[i + 5] as u32)
                <= 57) || ((s[i + 5] as u32) >= 97 && (s[i + 5] as u32) <= 102)) {
                let h: u32 = if s[i + 4] == '0' {
                    0
                } else {
                    16
                };
                let l = s[i + 5] as u32;
                let lv: u32 = if l <= 57 {
                    l - 48
                } else {
                    l - 87
                };
                let ch = ((h + lv) as u8) as char;
                proof {
                    let sc = s@[i + 5];
                    assert(l == sc as u32);
                    lemma_code_char(sc);
                    lemma_hex_char(lv as nat);
                    assert(ch as u32 == h + lv);
                    assert(s@.subrange(i as int, i + 6) =~= esc_char(ch));
                }
                acc.push(ch);
                i = i + 6;
            } else {
                proof {
                    assert forall|t: Seq<char>, tail: Seq<char>| #[trigger]
                        rest_of(s@, pos as int) == str_text(t) + tail implies false by {
                        lemma_str_step(s@, pos as int, i as int, t, tail, k);
                        if k < t.len() {
                            let x = esc_char(t[k]);
                            assert(x[0] == s@[i as int]);
                            assert(x[1] == s@[i + 1]);
                            if x.len() == 6 {
                                assert(x[2] == s@[i + 2]);
                                assert(x[3] == s@[i + 3]);
                                assert(x[4] == s@[i + 4]);
                                assert(x[5] == s@[i + 5]);
                            }
                        }
                    }
                }
                return None;
            }
        } else {
            if (c as u32) < 32 {
                proof {
                    assert forall|t: Seq<char>, tail: Seq<char>| #[trigger]
                        rest_of(s@, pos as int) == str_text(t) + tail implies false by {
                        lemma_str_step(s@, pos as int, i as int, t, tail, k);
                        if k < t.len() {
                            assert(esc_char(t[k])[0] == s@[i as int]);
                        }
                    }
                }
                return None;
            }
            assert(s@.subrange(i as int, i + 1) =~= esc_char(c));
            acc.push(c);
            i = i + 1;
        }
        proof {
            lemma_str_advance(s@, pos as int, (i - esc_char(acc@.last()).len()) as int, before, acc@.last());
            assert(acc@ =~= before.push(acc@.last()));
        }
    }
}

} // verus!

verus! {

/// Relies on `String: FromIterator<&char>`: the string holds the characters in order.
#[verifier::external_body]
pub(crate) fn string_from_chars(v: &Vec<char>) -> (r: String)
    ensures
        r@ == v@,
{
    v.iter().collect()
}

/// `sep` followed by the key literal, as in `,"email":`.
pub open spec fn key_text(sep: char, key: Seq<char>) -> Seq<char> {
    seq![sep] + key
}

fn parse_key(s: &Vec<char>, pos: usize, sep: char, key: &str) -> (r: Option<usize>)
    requires
        pos <= s.len(),
    ensures
        r matches Some(e) ==> pos <= e <= s.len() && rest_of(s@, pos as int) == key_text(sep, key@)
            + rest_of(s@, e as int),
        forall|tail: Seq<char>| #[trigger]
            rest_of(s@, pos as int) == key_text(sep, key@) + tail ==> (r matches Some(e)
                && rest_of(s@, e as int) == tail),
{
    proof {
        assert forall|tail: Seq<char>| #[trigger]
            rest_of(s@, pos as int) == key_text(sep, key@) + tail implies pos < s.len() && s@[pos as int]
            == sep && pos + 1 + key@.len() <= s.len() && s@.subrange(pos + 1, pos + 1 + key@.len()) == key@ && rest_of(
            s@,
            pos + 1 + key@.len(),
        ) == tail by {
            assert(key_text(sep, key@) + tail =~= seq![sep] + (key@ + tail));
            lemma_split_rest(s@, pos as int, seq![sep], key@ + tail);
            assert(s@.subrange(pos as int, pos + 1)[0] == s@[pos as int]);
            lemma_split_rest(s@, pos + 1, key@, tail);
        }
    }
    let p = match parse_char(s, pos, sep) {
        Some(p) => p,
        None => return None,
    };
    let e = match parse_lit(s, p, key) {
        Some(e) => e,
        None => return None,
    };
    proof {
        lemma_join_rest(s@, pos as int, p as int);
        lemma_join_rest(s@, p as int, e as int);
        assert(s@.subrange(pos as int, p as int) =~= seq![sep]);
        assert(rest_of(s@, pos as int) =~= key_text(sep, key@) + rest_of(s@, e as int));
    }
    Some(e)
}

pub fn parse_bool_field(s: &Vec<char>, pos: usize, sep: char, key: &str) -> (r: Option<
    (bool, usize),
>)
    requires
        pos <= s.len(),
    ensures
        r matches Some((v, e)) ==> pos <= e <= s.len() && rest_of(s@, pos as int) == key_text(
            sep,
            key@,
        ) + (bool_text(v) + rest_of(s@, e as int)),
        forall|v: bool, tail: Seq<char>| #[trigger]
            rest_of(s@, pos as int) == key_text(sep, key@) + (bool_text(v) + tail) ==> (r matches Some(
                (w, e),
            ) && w == v && rest_of(s@, e as int) == tail),
{
    let p = match parse_key(s, pos, sep, key) {
        Some(p) => p,
        None => return None,
    };
    proof {
        assert forall|v: bool, tail: Seq<char>| #[trigger]
            rest_of(s@, pos as int) == key_text(sep, key@) + (bool_text(v) + tail) implies rest_of(
            s@,
            p as int,
        ) == bool_text(v) + tail by {
            lemma_split_rest(s@, pos as int, key_text(sep, key@), bool_text(v) + tail);
        }
    }
    let (v, e) = match parse_bool(s, p) {
        Some(x) => x,
        None => return None,
    };
    proof {
        lemma_join_rest(s@, p as int, e as int);
        assert forall|w: bool, tail: Seq<char>| #[trigger]
            rest_of(s@, pos as int) == key_text(sep, key@) + (bool_text(w) + tail) implies rest_of(
            s@,
            e as int,
        ) == tail by {
            assert(rest_of(s@, p as int) == bool_text(w) + tail);
            lemma_split_rest(s@, p as int, bool_text(w), tail);
        }
    }
    Some((v, e))
}

pub fn parse_int_field(s: &Vec<char>, pos: usize, sep: char, key: &str) -> (r: Option<
    (i64, usize),
>)
    requires
        pos <= s.len(),
    ensures
        r matches Some((v, e)) ==> pos <= e <= s.len() && rest_of(s@, pos as int) == key_text(
            sep,
            key@,
        ) + (int_text(v as int) + rest_of(s@, e as int)),
        forall|v: int, tail: Seq<char>|
            i64::MIN <= v <= i64::MAX && #[trigger] rest_of(s@, pos as int) == key_text(sep, key@) + (
            int_text(v) + tail) && (tail.len() == 0 || !is_digit(tail[0])) ==> (r matches Some(
                (w, e),
            ) && w == v && rest_of(s@, e as int) == tail),
{
    let p = match parse_key(s, pos, sep, key) {
        Some(p) => p,
        None => return None,
    };
    proof {
        assert forall|v: int, tail: Seq<char>| #[trigger]
            rest_of(s@, pos as int) == key_text(sep, key@) + (int_text(v) + tail) implies rest_of(
            s@,
            p as int,
        ) == int_text(v) + tail by {
            lemma_split_rest(s@, pos as int, key_text(sep, key@), int_text(v) + tail);
        }
    }
    let (v, e) = match parse_int(s, p) {
        Some(x) => x,
        None => return None,
    };
    proof {
        lemma_join_rest(s@, p as int, e as int);
        assert forall|w: int, tail: Seq<char>|
            i64::MIN <= w <= i64::MAX && #[trigger] rest_of(s@, pos as int) == key_text(sep, key@) + (
            int_text(w) + tail) && (tail.len() == 0 || !is_digit(tail[0])) implies rest_of(
            s@,
            e as int,
        ) == tail by {
            assert(rest_of(s@, p as int) == int_text(w) + tail);
            lemma_split_rest(s@, p as int, int_text(w), tail);
        }
    }
    Some((v, e))
}

pub fn parse_str_field(s: &Vec<char>, pos: usize, sep: char, key: &str) -> (r: Option<
    (String, usize),
>)
    requires
        pos <= s.len(),
    ensures
        r matches Some((v, e)) ==> pos <= e <= s.len() && rest_of(s@, pos as int) == key_text(
            sep,
            key@,
        ) + (str_text(v@) + rest_of(s@, e as int)),
        forall|v: Seq<char>, tail: Seq<char>| #[trigger]
            rest_of(s@, pos as int) == key_text(sep, key@) + (str_text(v) + tail) ==> (r matches Some(
                (w, e),
            ) && w@ == v && rest_of(s@, e as int) == tail),
{
    let p = match parse_key(s, pos, sep, key) {
        Some(p) => p,
        None => return None,
    };
    proof {
        assert forall|v: Seq<char>, tail: Seq<char>| #[trigger]
            rest_of(s@, pos as int) == key_text(sep, key@) + (str_text(v) + tail) implies rest_of(
            s@,
            p as int,
        ) == str_text(v) + tail by {
            lemma_split_rest(s@, pos as int, key_text(sep, key@), str_text(v) + tail);
        }
    }
    let (v, e) = match parse_str(s, p) {
        Some(x) => x,
        None => return None,
    };
    proof {
        lemma_join_rest(s@, p as int, e as int);
        assert forall|w: Seq<char>, tail: Seq<char>| #[trigger]
            rest_of(s@, pos as int) == key_text(sep, key@) + (str_text(w) + tail) implies rest_of(
            s@,
            e as int,
        ) == tail by {
            assert(rest_of(s@, p as int) == str_text(w) + tail);
            lemma_split_rest(s@, p as int, str_text(w), tail);
        }
    }
    Some((string_from_chars(&v), e))
}

pub open spec fn opt_view(o: Option<String>) -> Option<Seq<char>> {
    match o {
        Some(s) => Some(s@),
        None => None,
    }
}

pub fn parse_opt_field(s: &Vec<char>, pos: usize, sep: char, key: &str) -> (r: Option<
    (Option<String>, usize),
>)
    requires
        pos <= s.len(),
    ensures
        r matches Some((v, e)) ==> pos <= e <= s.len() && rest_of(s@, pos as int) == key_text(
            sep,
            key@,
        ) + (opt_text(opt_view(v)) + rest_of(s@, e as int)),
        forall|v: Option<Seq<char>>, tail: Seq<char>| #[trigger]
            rest_of(s@, pos as int) == key_text(sep, key@) + (opt_text(v) + tail) ==> (r matches Some(
                (w, e),
            ) && opt_view(w) == v && rest_of(s@, e as int) == tail),
{
    let p = match parse_key(s, pos, sep, key) {
        Some(p) => p,
        None => return None,
    };
    proof {
        assert forall|v: Option<Seq<char>>, tail: Seq<char>| #[trigger]
            rest_of(s@, pos as int) == key_text(sep, key@) + (opt_text(v) + tail) implies rest_of(
            s@,
            p as int,
        ) == opt_text(v) + tail by {
            lemma_split_rest(s@, pos as int, key_text(sep, key@), opt_text(v) + tail);
        }
    }
    if p < s.len() && s[p] == 'n' {
        if s.len() - p >= 4 && s[p + 1] == 'u' && s[p + 2] == 'l' && s[p + 3] == 'l' {
            let e = p + 4;
            proof {
                assert(s@.subrange(p as int, e as int) =~= null_text());
                lemma_join_rest(s@, p as int, e as int);
                assert forall|w: Option<Seq<char>>, tail: Seq<char>| #[trigger]
                    rest_of(s@, pos as int) == key_text(sep, key@) + (opt_text(w) + tail) implies w
                    is None && rest_of(s@, e as int) == tail by {
                    assert(rest_of(s@, p as int) == opt_text(w) + tail);
                    assert(rest_of(s@, p as int)[0] == s@[p as int]);
                    if w is Some {
                        assert((opt_text(w) + tail)[0] == '"');
                    }
                    lemma_split_rest(s@, p as int, null_text(), tail);
                }
            }
            return Some((None, e));
        }
        proof {
            assert forall|w: Option<Seq<char>>, tail: Seq<char>| #[trigger]
                rest_of(s@, pos as int) == key_text(sep, key@) + (opt_text(w) + tail) implies false by {
                let r = rest_of(s@, p as int);
                assert(r == opt_text(w) + tail);
                assert(r[0] == s@[p as int]);
                if w is Some {
                    assert((opt_text(w) + tail)[0] == '"');
                } else {
                    assert(r.len() >= 4);
                    assert(r[1] == s@[p + 1]);
                    assert(r[2] == s@[p + 2]);
                    assert(r[3] == s@[p + 3]);
                    assert((opt_text(w) + tail)[1] == 'u');
                    assert((opt_text(w) + tail)[2] == 'l');
                    assert((opt_text(w) + tail)[3] == 'l');
                }
            }
        }
        return None;
    }
    proof {
        assert forall|w: Option<Seq<char>>, tail: Seq<char>| #[trigger]
            rest_of(s@, pos as int) == key_text(sep, key@) + (opt_text(w) + tail) implies w is Some
            && rest_of(s@, p as int) == str_text(w->0) + tail by {
            let r = rest_of(s@, p as int);
            assert(r == opt_text(w) + tail);
            if w is None {
                assert(r.len() == s.len() - p);
                assert((opt_text(w) + tail)[0] == 'n');
                assert(r[0] == s@[p as int]);
            }
        }
    }
    let (v, e) = match parse_str(s, p) {
        Some(x) => x,
        None => return None,
    };
    proof {
        lemma_join_rest(s@, p as int, e as int);
        assert forall|w: Option<Seq<char>>, tail: Seq<char>| #[trigger]
            rest_of(s@, pos as int) == key_text(sep, key@) + (opt_text(w) + tail) implies w == Some(
            v@,
        ) && rest_of(s@, e as int) == tail by {
            assert(rest_of(s@, p as int) == str_text(w->0) + tail);
            lemma_split_rest(s@, p as int, str_text(w->0), tail);
        }
    }
    Some((Some(string_from_chars(&v)), e))
}

/// Whether two texts are equal, character by character.
pub fn same_text(a: &str, b: &str) -> (r: bool)
    ensures
        r == (a@ == b@),
{
    let n = a.unicode_len();
    if n != b.unicode_len() {
        return false;
    }
    let mut i: usize = 0;
    while i < n
        invariant
            n == a@.len(),
            n == b@.len(),
            i <= n,
            a@.take(i as int) == b@.take(i as int),
        decreases n - i,
    {
        if a.get_char(i) != b.get_char(i) {
            assert(a@[i as int] != b@[i as int]);
            return false;
        }
        i += 1;
        assert(a@.take(i as int) =~= b@.take(i as int));
    }
    assert(a@ =~= a@.take(n as int));
    assert(b@ =~= b@.take(n as int));
    true
}

} // verus!
