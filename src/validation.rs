use vstd::prelude::*;
use crate::rejection::{Rejection, ValidationError};

verus! {

/// The largest number of characters a validated field may hold.
pub const MAX_FIELD_LEN: usize = 255;

/// Unicode `White_Space`, the set that `str::trim` removes.
pub open spec fn is_white(c: char) -> bool {
    ||| c == '\t' || c == '\n' || c == '\u{b}' || c == '\u{c}' || c == '\r' || c == ' '
    ||| c == '\u{85}' || c == '\u{a0}' || c == '\u{1680}'
    ||| ('\u{2000}' <= c && c <= '\u{200a}')
    ||| c == '\u{2028}' || c == '\u{2029}' || c == '\u{202f}' || c == '\u{205f}'
    ||| c == '\u{3000}'
}

/// Control characters and the delimiters that downstream storage treats
/// specially.
pub open spec fn is_forbidden(c: char) -> bool {
    ||| c < ' '
    ||| c == '\u{7f}'
    ||| c == ';' || c == '\'' || c == '"' || c == '\\'
}

/// The field is empty once surrounding whitespace is trimmed.
pub open spec fn is_blank(s: Seq<char>) -> bool {
    forall|i: int| 0 <= i < s.len() ==> is_white(#[trigger] s[i])
}

pub open spec fn has_forbidden(s: Seq<char>) -> bool {
    exists|i: int| 0 <= i < s.len() && is_forbidden(#[trigger] s[i])
}

/// The first rule a field breaks, in the order blank, too long, forbidden
/// character; `None` when it passes all three.
pub open spec fn first_violation(s: Seq<char>) -> Option<ValidationError> {
    if is_blank(s) {
        Some(ValidationError::Empty)
    } else if s.len() > MAX_FIELD_LEN {
        Some(ValidationError::TooLong)
    } else if has_forbidden(s) {
        Some(ValidationError::ForbiddenChar)
    } else {
        None
    }
}

/// What `validate` answers for a field.
pub open spec fn validation_result(s: Seq<char>) -> Result<(), Rejection> {
    match first_violation(s) {
        None => Ok(()),
        Some(e) => Err(Rejection::InvalidInput(e)),
    }
}

pub open spec fn is_valid_field(s: Seq<char>) -> bool {
    first_violation(s) is None
}

fn char_is_white(c: char) -> (r: bool)
    ensures
        r == is_white(c),
{
    c == '\t' || c == '\n' || c == '\u{b}' || c == '\u{c}' || c == '\r' || c == ' '
        || c == '\u{85}' || c == '\u{a0}' || c == '\u{1680}'
        || ('\u{2000}' <= c && c <= '\u{200a}')
        || c == '\u{2028}' || c == '\u{2029}' || c == '\u{202f}' || c == '\u{205f}'
        || c == '\u{3000}'
}

fn char_is_forbidden(c: char) -> (r: bool)
    ensures
        r == is_forbidden(c),
{
    c < ' ' || c == '\u{7f}' || c == ';' || c == '\'' || c == '"' || c == '\\'
}

/// The characters of `s`, in order.
pub fn chars_of(s: &str) -> (r: Vec<char>)
    ensures
        r@ == s@,
{
    let mut r: Vec<char> = Vec::new();
    for c in it: s.chars()
        invariant
            it.seq() == s@,
            r@ == it.seq().take(it.index() as int),
    {
        r.push(c);
    }
    r
}

/// Checks one field: it must not be blank, must hold at most
/// `MAX_FIELD_LEN` characters and must hold no forbidden character. The
/// first broken rule is reported.
pub fn validate(field: &str) -> (r: Result<(), Rejection>)
    ensures
        r == validation_result(field@),
{
    let cs = chars_of(field);
    let mut blank = true;
    let mut i: usize = 0;
    while i < cs.len()
        invariant
            i <= cs@.len(),
            cs@ == field@,
            blank == is_blank(cs@.take(i as int)),
        decreases cs@.len() - i,
    {
        if !char_is_white(cs[i]) {
            blank = false;
        }
        proof {
            let pre = cs@.take(i as int);
            let next = cs@.take(i + 1);
            assert(next =~= pre.push(cs@[i as int]));
            if is_blank(next) {
                assert forall|k: int| 0 <= k < pre.len() implies is_white(#[trigger] pre[k]) by {
                    assert(pre[k] == next[k]);
                }
                assert(is_white(next[i as int]));
            }
        }
        i = i + 1;
    }
    assert(cs@.take(cs@.len() as int) =~= cs@);
    if blank {
        return Err(Rejection::InvalidInput(ValidationError::Empty));
    }
    if cs.len() > MAX_FIELD_LEN {
        return Err(Rejection::InvalidInput(ValidationError::TooLong));
    }
    let mut j: usize = 0;
    while j < cs.len()
        invariant
            j <= cs@.len(),
            cs@ == field@,
            !is_blank(field@),
            field@.len() <= MAX_FIELD_LEN,
            forall|k: int| 0 <= k < j ==> !is_forbidden(#[trigger] cs@[k]),
        decreases cs@.len() - j,
    {
        if char_is_forbidden(cs[j]) {
            assert(is_forbidden(cs@[j as int]));
            return Err(Rejection::InvalidInput(ValidationError::ForbiddenChar));
        }
        j = j + 1;
    }
    Ok(())
}

/// The views of a list of fields.
pub open spec fn fields_view(v: Seq<String>) -> Seq<Seq<char>> {
    v.map_values(|f: String| f@)
}

/// Checks `ps[i..]` in order and stops at the first field that fails.
pub open spec fn check_from(ps: Seq<Seq<char>>, i: int) -> Result<bool, Rejection>
    decreases ps.len() - i,
{
    if i < 0 || i >= ps.len() {
        Ok(true)
    } else if is_valid_field(ps[i]) {
        check_from(ps, i + 1)
    } else {
        Err(Rejection::InvalidInput(first_violation(ps[i])->Some_0))
    }
}

/// Validates every field in order and reports the first failure; later
/// fields are not looked at once one fails.
pub fn validate_all_params(params: Vec<String>) -> (r: Result<bool, Rejection>)
    ensures
        r == check_from(fields_view(params@), 0),
        r is Ok <==> forall|k: int| 0 <= k < params@.len() ==> is_valid_field(#[trigger] params@[k]@),
        r is Ok ==> r == Ok::<bool, Rejection>(true),
{
    let ghost ps = fields_view(params@);
    let mut i: usize = 0;
    while i < params.len()
        invariant
            i <= params@.len(),
            ps == fields_view(params@),
            check_from(ps, 0) == check_from(ps, i as int),
            forall|k: int| 0 <= k < i ==> is_valid_field(#[trigger] params@[k]@),
        decreases params@.len() - i,
    {
        let res = validate(params[i].as_str());
        assert(ps[i as int] == params@[i as int]@);
        match res {
            Ok(()) => {}
            Err(e) => {
                proof {
                    lemma_check_from_all_valid(ps, i as int);
                }
                return Err(e);
            }
        }
        i = i + 1;
    }
    proof {
        lemma_check_from_all_valid(ps, i as int);
    }
    Ok(true)
}

proof fn lemma_check_from_all_valid(ps: Seq<Seq<char>>, i: int)
    requires
        0 <= i <= ps.len(),
    ensures
        i == ps.len() ==> check_from(ps, i) == Ok::<bool, Rejection>(true),
        i < ps.len() && !is_valid_field(ps[i]) ==> check_from(ps, i) == Err::<bool, Rejection>(
            Rejection::InvalidInput(first_violation(ps[i])->Some_0),
        ),
        i < ps.len() && !is_valid_field(ps[i]) ==> validation_result(ps[i]) == Err::<(), Rejection>(
            Rejection::InvalidInput(first_violation(ps[i])->Some_0),
        ),
{
}

/// Fail-fast validation: when fields `a < b` are both invalid and every
/// field before `a` is valid, the error reported is the one of field `a`.
pub proof fn fail_fast(ps: Seq<Seq<char>>, a: int, b: int)
    requires
        0 <= a < b < ps.len(),
        !is_valid_field(ps[a]),
        !is_valid_field(ps[b]),
        forall|k: int| 0 <= k < a ==> is_valid_field(#[trigger] ps[k]),
    ensures
        check_from(ps, 0) == Err::<bool, Rejection>(Rejection::InvalidInput(first_violation(ps[a])->Some_0)),
        validation_result(ps[a]) == Err::<(), Rejection>(Rejection::InvalidInput(first_violation(ps[a])->Some_0)),
        check_from(ps, 0) is Err,
{
    lemma_check_from_skip(ps, 0, a);
}

proof fn lemma_check_from_skip(ps: Seq<Seq<char>>, i: int, a: int)
    requires
        0 <= i <= a < ps.len(),
        forall|k: int| 0 <= k < a ==> is_valid_field(#[trigger] ps[k]),
    ensures
        check_from(ps, i) == check_from(ps, a),
    decreases a - i,
{
    if i < a {
        lemma_check_from_skip(ps, i + 1, a);
    }
}

} // verus!
