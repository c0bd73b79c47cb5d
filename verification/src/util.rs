//! The naming rule of the field resolver: a field's declared name determines
//! its canonical long flag form.

use vstd::prelude::*;
use vstd::string::StrSliceExecFns;

verus! {

/// How one character of a field name appears in the flag spelling:
/// underscores become hyphens, everything else is kept.
pub open spec fn flag_char(c: char) -> char {
    if c == '_' {
        '-'
    } else {
        c
    }
}

/// The canonical long form of a field name: a `--` prefix, with every
/// underscore replaced by a hyphen.
pub open spec fn spec_canonical_name(field: Seq<char>) -> Seq<char> {
    seq!['-', '-'] + field.map_values(|c: char| flag_char(c))
}

/// Relies on `String::push`: appends the given character to the end of the
/// string.
#[verifier::external_body]
pub fn push_char(s: &mut String, c: char)
    ensures
        final(s)@ == old(s)@.push(c),
{
    s.push(c);
}

/// Compares two string slices character by character.
pub fn str_eq(a: &str, b: &str) -> (r: bool)
    ensures
        r == (a@ == b@),
{
    let na = a.unicode_len();
    let nb = b.unicode_len();
    if na != nb {
        return false;
    }
    for i in 0..na
        invariant
            na == a@.len() && nb == b@.len() && na == nb,
            forall|j: int| 0 <= j < i ==> a@[j] == b@[j],
    {
        let ca = a.get_char(i);
        let cb = b.get_char(i);
        if ca != cb {
            return false;
        }
    }
    proof {
        assert(a@ =~= b@);
    }
    true
}

/// Computes the canonical long flag form of a field name: `--` followed by
/// the name with underscores turned into hyphens.
pub fn canonical_field_name(field: &str) -> (r: String)
    ensures
        r@ == spec_canonical_name(field@),
{
    let mut out = String::new();
    push_char(&mut out, '-');
    push_char(&mut out, '-');
    let n = field.unicode_len();
    assert(out@ =~= seq!['-', '-'] + field@.subrange(0, 0).map_values(|c: char| flag_char(c)));
    for i in 0..n
        invariant
            n == field@.len(),
            out@ == seq!['-', '-'] + field@.subrange(0, i as int).map_values(
                |c: char| flag_char(c),
            ),
    {
        let c = field.get_char(i);
        if c == '_' {
            push_char(&mut out, '-');
        } else {
            push_char(&mut out, c);
        }
        assert(out@ =~= seq!['-', '-'] + field@.subrange(0, i + 1).map_values(
            |c: char| flag_char(c),
        ));
    }
    assert(field@.subrange(0, field@.len() as int) =~= field@);
    out
}

} // verus!
