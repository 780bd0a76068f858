//! What the router reads from an incoming request, as plain values.
use vstd::prelude::*;

verus! {

/// The HTTP method, as far as the route tables distinguish it.
#[derive(Clone, Copy, Debug, PartialEq, Eq, Structural)]
pub enum Method {
    Get,
    Post,
    Other,
}

/// What the token-verification collaborator said of the request's
/// credential.
#[derive(Clone, Copy, Debug, PartialEq, Eq, Structural)]
pub enum AuthStatus {
    /// No credential was presented.
    Missing,
    /// A credential was presented and refused (malformed or not verified).
    Refused,
    /// The credential was verified.
    Verified,
}

/// An incoming request: method, path segments, the query string's pairs
/// (`None` when the query string could not be decoded), the credential's
/// verification outcome, and the raw body.
pub struct Request {
    pub method: Method,
    pub segments: Vec<String>,
    pub query: Option<Vec<(String, String)>>,
    pub auth: AuthStatus,
    pub body: Vec<u8>,
}

pub open spec fn is_digit(c: char) -> bool {
    '0' <= c && c <= '9'
}

pub open spec fn all_digits(s: Seq<char>) -> bool {
    forall|i: int| 0 <= i < s.len() ==> is_digit(#[trigger] s[i])
}

/// The decimal value of a string of digits.
pub open spec fn digits_value(s: Seq<char>) -> int
    decreases s.len(),
{
    if s.len() == 0 {
        0
    } else {
        digits_value(s.drop_last()) * 10 + (s.last() as int - '0' as int)
    }
}

/// `s` without its leading sign, if it has one.
pub open spec fn unsigned_part(s: Seq<char>) -> Seq<char> {
    if s.len() > 0 && (s[0] == '-' || s[0] == '+') {
        s.drop_first()
    } else {
        s
    }
}

/// An optional `+` or `-` followed by at least one decimal digit, read as
/// a number in the range of `i16`; anything else is refused.
pub open spec fn parse_i16_spec(s: Seq<char>) -> Option<i16> {
    let ds = unsigned_part(s);
    let v = if s.len() > 0 && s[0] == '-' {
        -digits_value(ds)
    } else {
        digits_value(ds)
    };
    if ds.len() == 0 || !all_digits(ds) || v < i16::MIN || v > i16::MAX {
        None
    } else {
        Some(v as i16)
    }
}

proof fn lemma_digits_value_nonneg(s: Seq<char>)
    requires
        all_digits(s),
    ensures
        digits_value(s) >= 0,
    decreases s.len(),
{
    if s.len() > 0 {
        assert(is_digit(s[s.len() - 1]));
        lemma_digits_value_nonneg(s.drop_last());
    }
}

/// Reads a path segment as an `i16`, as `str::parse::<i16>` does.
pub fn parse_i16(s: &str) -> (r: Option<i16>)
    ensures
        r == parse_i16_spec(s@),
{
    let n = s.unicode_len();
    let mut start: usize = 0;
    let mut neg = false;
    if n > 0 {
        let c0 = s.get_char(0);
        if c0 == '-' || c0 == '+' {
            start = 1;
            neg = c0 == '-';
        }
    }
    let ghost ds = unsigned_part(s@);
    assert(ds =~= s@.subrange(start as int, n as int));
    if start >= n {
        return None;
    }
    let mut acc: i32 = 0;
    let mut big = false;
    let mut i: usize = start;
    while i < n
        invariant
            start <= i <= n,
            n == s@.len(),
            ds == s@.subrange(start as int, n as int),
            ds == unsigned_part(s@),
            neg == (s@.len() > 0 && s@[0] == '-'),
            all_digits(ds.take(i - start)),
            !big ==> acc == digits_value(ds.take(i - start)),
            big ==> digits_value(ds.take(i - start)) > 32768,
            0 <= acc <= 32768,
        decreases n - i,
    {
        let c = s.get_char(i);
        let ghost pre = ds.take(i - start);
        let ghost next = ds.take(i + 1 - start);
        assert(next =~= pre.push(c));
        assert(next.drop_last() =~= pre);
        if !('0' <= c && c <= '9') {
            assert(ds[i - start] == c);
            assert(!all_digits(ds));
            return None;
        }
        assert forall|k: int| 0 <= k < next.len() implies is_digit(#[trigger] next[k]) by {
            if k < pre.len() {
                assert(next[k] == pre[k]);
            }
        }
        proof {
            lemma_digits_value_nonneg(pre);
        }
        if !big {
            let d = (c as u32 - '0' as u32) as i32;
            let v = acc * 10 + d;
            if v > 32768 {
                big = true;
            } else {
                acc = v;
            }
        }
        i = i + 1;
    }
    assert(ds.take(n - start) =~= ds);
    if big {
        return None;
    }
    if neg {
        Some((0 - acc) as i16)
    } else if acc > 32767 {
        None
    } else {
        Some(acc as i16)
    }
}

/// Whether two strings hold the same characters.
pub fn text_eq(a: &str, b: &str) -> (r: bool)
    ensures
        r == (a@ == b@),
{
    let n = a.unicode_len();
    if n != b.unicode_len() {
        return false;
    }
    let mut i: usize = 0;
    while i < n
        invariant
            i <= n,
            n == a@.len(),
            n == b@.len(),
            forall|k: int| 0 <= k < i ==> a@[k] == b@[k],
        decreases n - i,
    {
        if a.get_char(i) != b.get_char(i) {
            return false;
        }
        i = i + 1;
    }
    assert(a@ =~= b@);
    true
}

/// Splits `s[start..]` at each `/`, where `s[start..i]` holds no `/` yet;
/// empty pieces are dropped, so leading, trailing and doubled slashes
/// yield no segment.
pub open spec fn split_from(s: Seq<char>, start: int, i: int, acc: Seq<Seq<char>>) -> Seq<Seq<char>>
    decreases s.len() - i,
{
    if i >= s.len() {
        if start < s.len() {
            acc.push(s.subrange(start, s.len() as int))
        } else {
            acc
        }
    } else if s[i] == '/' {
        split_from(
            s,
            i + 1,
            i + 1,
            if start < i {
                acc.push(s.subrange(start, i))
            } else {
                acc
            },
        )
    } else {
        split_from(s, start, i + 1, acc)
    }
}

/// The non-empty `/`-separated segments of a path, in order.
pub open spec fn segments_of(s: Seq<char>) -> Seq<Seq<char>> {
    split_from(s, 0, 0, Seq::empty())
}

pub open spec fn strings_view(v: Seq<String>) -> Seq<Seq<char>> {
    v.map_values(|x: String| x@)
}

/// The segments of a request path such as `/posts/delete/5`.
pub fn path_segments(path: &str) -> (r: Vec<String>)
    ensures
        strings_view(r@) == segments_of(path@),
{
    let n = path.unicode_len();
    let mut r: Vec<String> = Vec::new();
    let mut start: usize = 0;
    let mut i: usize = 0;
    assert(strings_view(r@) =~= Seq::<Seq<char>>::empty());
    while i < n
        invariant
            start <= i <= n,
            n == path@.len(),
            segments_of(path@) == split_from(path@, start as int, i as int, strings_view(r@)),
        decreases n - i,
    {
        if path.get_char(i) == '/' {
            if start < i {
                let piece = String::from_str(path.substring_char(start, i));
                let ghost before = strings_view(r@);
                r.push(piece);
                assert(strings_view(r@) =~= before.push(path@.subrange(start as int, i as int)));
            }
            start = i + 1;
        }
        i = i + 1;
    }
    if start < n {
        let piece = String::from_str(path.substring_char(start, n));
        let ghost before = strings_view(r@);
        r.push(piece);
        assert(strings_view(r@) =~= before.push(path@.subrange(start as int, n as int)));
    }
    r
}

} // verus!
