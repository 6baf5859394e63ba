//! Small text helpers shared by the services.
use vstd::prelude::*;
use crate::text::{chars_of, string_from_chars};
use crate::unicode::{alphanumeric, is_alphanumeric, is_whitespace, lower_of, to_lowercase, whitespace};

verus! {

/// Stateless helpers.
pub struct GenericService;

/// How `slugify` maps one lower-cased character: letters and digits stay,
/// whitespace and `-` become `-`, anything else becomes `'\0'`.
pub open spec fn slug_char(c: char) -> char {
    if alphanumeric(c) {
        c
    } else if whitespace(c) || c == '-' {
        '-'
    } else {
        '\0'
    }
}

/// The non-empty runs between `-` characters of `t`, joined by single `-`.
pub open spec fn dash_joined(t: Seq<char>) -> Seq<char>
    decreases t.len(),
{
    if t.len() == 0 {
        Seq::empty()
    } else {
        let p = t.drop_last();
        let c = t.last();
        if c == '-' {
            dash_joined(p)
        } else if dash_joined(p).len() > 0 && p.last() == '-' {
            dash_joined(p) + seq!['-', c]
        } else {
            dash_joined(p).push(c)
        }
    }
}

pub open spec fn filename_char_ok(c: char) -> bool {
    ('a' <= c <= 'z') || ('A' <= c <= 'Z') || ('0' <= c <= '9') || c == '.' || c == '_' || c
        == '-'
}

pub open spec fn sanitized(s: Seq<char>) -> Seq<char> {
    s.map_values(
        |c: char|
            if filename_char_ok(c) {
                c
            } else {
                '_'
            },
    )
}

/// The characters `random_string` draws from.
pub open spec fn random_charset() -> Seq<char> {
    seq![
        'A', 'B', 'C', 'D', 'E', 'F', 'G', 'H', 'I', 'J', 'K', 'L', 'M', 'N', 'O', 'P', 'Q', 'R',
        'S', 'T', 'U', 'V', 'W', 'X', 'Y', 'Z', '0', '1', '2', '3', '4', '5', '6', '7', '8', '9',
    ]
}

/// Relies on `rand::random_range` over `0..bound`, which is non-empty.
#[verifier::external_body]
fn random_below(bound: usize) -> (r: usize)
    requires
        bound > 0,
    ensures
        r < bound,
{
    rand::random_range(0..bound)
}

fn charset() -> (r: Vec<char>)
    ensures
        r@ == random_charset(),
{
    let v = vec![
        'A', 'B', 'C', 'D', 'E', 'F', 'G', 'H', 'I', 'J', 'K', 'L', 'M', 'N', 'O', 'P', 'Q', 'R',
        'S', 'T', 'U', 'V', 'W', 'X', 'Y', 'Z', '0', '1', '2', '3', '4', '5', '6', '7', '8', '9',
    ];
    assert(v@ =~= random_charset());
    v
}

impl GenericService {
    /// A URL slug of `title`: lower-cased; letters and digits kept; runs of
    /// whitespace and `-` become one `-`, none at either end; other
    /// characters become `'\0'`.
    pub fn slugify(title: &str) -> (r: String)
        ensures
            r@ == dash_joined(lower_of(title@).map_values(|c: char| slug_char(c))),
    {
        let lower = to_lowercase(title);
        Self::slug_from_lowercase(lower.as_str())
    }

    /// The slug of text that is already lower-cased: letters and digits
    /// kept; runs of whitespace and `-` become one `-`, none at either end;
    /// other characters become `'\0'`.
    pub fn slug_from_lowercase(lower: &str) -> (r: String)
        ensures
            r@ == dash_joined(lower@.map_values(|c: char| slug_char(c))),
    {
        let cs = chars_of(lower);
        let ghost mapped = cs@.map_values(|c: char| slug_char(c));
        let mut out: Vec<char> = Vec::new();
        let mut prev_dash = false;
        let mut i: usize = 0;
        while i < cs.len()
            invariant
                i <= cs.len(),
                mapped == cs@.map_values(|c: char| slug_char(c)),
                out@ == dash_joined(mapped.take(i as int)),
                prev_dash == (i > 0 && mapped[i - 1] == '-'),
            decreases cs.len() - i,
        {
            let m = slug_of(cs[i]);
            if m != '-' {
                if out.len() > 0 && prev_dash {
                    out.push('-');
                }
                out.push(m);
            }
            prev_dash = m == '-';
            proof {
                let t = mapped.take(i + 1);
                assert(t.drop_last() =~= mapped.take(i as int));
                if i > 0 {
                    assert(mapped.take(i as int).last() == mapped[i - 1]);
                }
                assert(out@ =~= dash_joined(t));
            }
            i += 1;
        }
        assert(mapped.take(i as int) =~= mapped);
        string_from_chars(&out)
    }

    /// `filename` with every character other than ASCII letters, digits,
    /// `.`, `_` and `-` replaced by `_`.
    pub fn sanitize_filename(filename: &str) -> (r: String)
        ensures
            r@ == sanitized(filename@),
    {
        let cs = chars_of(filename);
        let mut out: Vec<char> = Vec::new();
        let mut i: usize = 0;
        while i < cs.len()
            invariant
                i <= cs.len(),
                out@ == sanitized(cs@.take(i as int)),
            decreases cs.len() - i,
        {
            let c = cs[i];
            let ok = (c >= 'a' && c <= 'z') || (c >= 'A' && c <= 'Z') || (c >= '0' && c <= '9')
                || c == '.' || c == '_' || c == '-';
            out.push(
                if ok {
                    c
                } else {
                    '_'
                },
            );
            i += 1;
            assert(out@ =~= sanitized(cs@.take(i as int)));
        }
        assert(cs@.take(i as int) =~= filename@);
        string_from_chars(&out)
    }

    /// The caller's address: the `X-Forwarded-For` header when present (set
    /// behind a reverse proxy), else the peer address, else `Unknown IP`.
    pub fn get_ip_address(forwarded_for: Option<&str>, peer_ip: Option<&str>) -> (r: String)
        ensures
            r@ == match forwarded_for {
                Some(h) => h@,
                None => match peer_ip {
                    Some(p) => p@,
                    None => "Unknown IP"@,
                },
            },
    {
        match forwarded_for {
            Some(h) => h.to_string(),
            None => match peer_ip {
                Some(p) => p.to_string(),
                None => "Unknown IP".to_string(),
            },
        }
    }

    /// The caller's device label: the `X-Forwarded-Host` header when present,
    /// else `Unknown Device`.
    pub fn get_device_name(forwarded_host: Option<&str>) -> (r: String)
        ensures
            r@ == match forwarded_host {
                Some(h) => h@,
                None => "Unknown Device"@,
            },
    {
        match forwarded_host {
            Some(h) => h.to_string(),
            None => "Unknown Device".to_string(),
        }
    }

    /// Whether the request's `Origin` header value starts with
    /// `http://localhost`.
    pub fn is_localhost_origin(origin: Option<&str>) -> (r: bool)
        ensures
            r == match origin {
                Some(o) => "http://localhost"@.is_prefix_of(o@),
                None => false,
            },
    {
        match origin {
            Some(o) => starts_with(o, "http://localhost"),
            None => false,
        }
    }

    /// A random text of `length` characters, each an upper-case ASCII letter
    /// or a digit.
    pub fn random_string(length: usize) -> (r: String)
        ensures
            r@.len() == length,
            forall|i: int| 0 <= i < length ==> random_charset().contains(#[trigger] r@[i]),
    {
        let set = charset();
        let mut out: Vec<char> = Vec::new();
        let mut i: usize = 0;
        while i < length
            invariant
                set@ == random_charset(),
                i <= length,
                out@.len() == i,
                forall|j: int| 0 <= j < i ==> random_charset().contains(#[trigger] out@[j]),
            decreases length - i,
        {
            let k = random_below(set.len());
            out.push(set[k]);
            assert(random_charset()[k as int] == out@[i as int]);
            i += 1;
        }
        string_from_chars(&out)
    }
}

fn slug_of(c: char) -> (r: char)
    ensures
        r == slug_char(c),
{
    if is_alphanumeric(c) {
        c
    } else if is_whitespace(c) || c == '-' {
        '-'
    } else {
        '\0'
    }
}

fn starts_with(s: &str, prefix: &str) -> (r: bool)
    ensures
        r == prefix@.is_prefix_of(s@),
{
    let n = prefix.unicode_len();
    if n > s.unicode_len() {
        return false;
    }
    let mut i: usize = 0;
    while i < n
        invariant
            n == prefix@.len(),
            n <= s@.len(),
            i <= n,
            forall|j: int| 0 <= j < i ==> prefix@[j] == s@[j],
        decreases n - i,
    {
        if prefix.get_char(i) != s.get_char(i) {
            return false;
        }
        i += 1;
    }
    true
}

} // verus!
