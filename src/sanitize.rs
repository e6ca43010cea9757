//! Sanitizing text taken from DICOM tags before it becomes part of a file
//! path or of a message-bus subject.
use vstd::prelude::*;
use crate::text::{chars_of, string_of};

verus! {

/// Characters that a path component keeps as they are.
pub open spec fn is_kept_path_char(c: char) -> bool {
    ('A' <= c && c <= 'Z') || ('a' <= c && c <= 'z') || ('0' <= c && c <= '9') || c == '.'
        || c == '-'
}

/// Characters that may appear in a sanitized path component.
pub open spec fn is_component_char(c: char) -> bool {
    is_kept_path_char(c) || c == '_'
}

/// Every character of `s` may appear in a sanitized path component.
pub open spec fn all_component_chars(s: Seq<char>) -> bool {
    forall|i: int| 0 <= i < s.len() ==> is_component_char(#[trigger] s[i])
}

/// `s` with every NUL character removed.
pub open spec fn strip_nul(s: Seq<char>) -> Seq<char>
    decreases s.len(),
{
    if s.len() == 0 {
        s
    } else if s.last() == '\0' {
        strip_nul(s.drop_last())
    } else {
        strip_nul(s.drop_last()).push(s.last())
    }
}

/// A path component made from `s`: NUL characters are removed, every other
/// character outside `[A-Za-z0-9.-]` becomes `'_'`, the rest is kept.
pub open spec fn sanitized_component(s: Seq<char>) -> Seq<char>
    decreases s.len(),
{
    if s.len() == 0 {
        s
    } else {
        let c = s.last();
        let p = sanitized_component(s.drop_last());
        if c == '\0' {
            p
        } else if is_kept_path_char(c) {
            p.push(c)
        } else {
            p.push('_')
        }
    }
}

/// A sanitized path component holds only characters of `[A-Za-z0-9._-]`.
pub proof fn lemma_sanitized_component_chars(s: Seq<char>)
    ensures
        all_component_chars(sanitized_component(s)),
    decreases s.len(),
{
    if s.len() > 0 {
        lemma_sanitized_component_chars(s.drop_last());
        let p = sanitized_component(s.drop_last());
        assert forall|i: int| 0 <= i < sanitized_component(s).len() implies is_component_char(
            #[trigger] sanitized_component(s)[i],
        ) by {
            if i < p.len() {
                assert(sanitized_component(s)[i] == p[i]);
            }
        }
    }
}

/// Appends the sanitized form of `s` to `out`.
pub fn push_sanitized(out: &mut Vec<char>, s: &str)
    ensures
        final(out)@ == old(out)@ + sanitized_component(s@),
{
    let ghost start = out@;
    let cs = chars_of(s);
    let mut i: usize = 0;
    while i < cs.len()
        invariant
            i <= cs@.len(),
            cs@ == s@,
            out@ == start + sanitized_component(cs@.subrange(0, i as int)),
        decreases cs@.len() - i,
    {
        let c = cs[i];
        let ghost prefix = cs@.subrange(0, i as int);
        assert(cs@.subrange(0, i + 1).drop_last() == prefix);
        if c == '\0' {
        } else if ('A' <= c && c <= 'Z') || ('a' <= c && c <= 'z') || ('0' <= c && c <= '9') || c
            == '.' || c == '-' {
            out.push(c);
            assert(start + sanitized_component(prefix).push(c) == (start + sanitized_component(
                prefix,
            )).push(c));
        } else {
            out.push('_');
            assert(start + sanitized_component(prefix).push('_') == (start + sanitized_component(
                prefix,
            )).push('_'));
        }
        i = i + 1;
    }
    assert(cs@.subrange(0, cs@.len() as int) == cs@);
}

/// Removes NUL characters and replaces each other character that is not
/// allowed in a path component with `'_'`.
pub fn sanitize_path(s: &str) -> (r: String)
    ensures
        r@ == sanitized_component(s@),
{
    let mut out: Vec<char> = Vec::new();
    push_sanitized(&mut out, s);
    assert(out@ == Seq::<char>::empty() + sanitized_component(s@));
    string_of(&out)
}

/// A subject token made from `s`: `' '`, `'.'`, `'*'` and `'>'` become `'_'`,
/// NUL characters are removed, everything else is kept.
pub open spec fn sanitized_subject_part(s: Seq<char>) -> Seq<char>
    decreases s.len(),
{
    if s.len() == 0 {
        s
    } else {
        let c = s.last();
        let p = sanitized_subject_part(s.drop_last());
        if c == '\0' {
            p
        } else if c == ' ' || c == '.' || c == '*' || c == '>' {
            p.push('_')
        } else {
            p.push(c)
        }
    }
}

/// A subject token holds no separator (`'.'`), wildcard (`'*'`, `'>'`),
/// space or NUL.
pub open spec fn is_subject_token_char(c: char) -> bool {
    c != '.' && c != '*' && c != '>' && c != ' ' && c != '\0'
}

pub proof fn lemma_subject_part_chars(s: Seq<char>)
    ensures
        forall|i: int|
            0 <= i < sanitized_subject_part(s).len() ==> is_subject_token_char(
                #[trigger] sanitized_subject_part(s)[i],
            ),
    decreases s.len(),
{
    if s.len() > 0 {
        lemma_subject_part_chars(s.drop_last());
        let p = sanitized_subject_part(s.drop_last());
        assert forall|i: int| 0 <= i < sanitized_subject_part(s).len() implies is_subject_token_char(
            #[trigger] sanitized_subject_part(s)[i],
        ) by {
            if i < p.len() {
                assert(sanitized_subject_part(s)[i] == p[i]);
            }
        }
    }
}

/// Makes `name` usable as one token of a message-bus subject.
pub fn sanitize_subject_part(name: &str) -> (r: String)
    ensures
        r@ == sanitized_subject_part(name@),
{
    let cs = chars_of(name);
    let mut out: Vec<char> = Vec::new();
    let mut i: usize = 0;
    while i < cs.len()
        invariant
            i <= cs@.len(),
            cs@ == name@,
            out@ == sanitized_subject_part(cs@.subrange(0, i as int)),
        decreases cs@.len() - i,
    {
        let c = cs[i];
        assert(cs@.subrange(0, i + 1).drop_last() == cs@.subrange(0, i as int));
        if c == '\0' {
        } else if c == ' ' || c == '.' || c == '*' || c == '>' {
            out.push('_');
        } else {
            out.push(c);
        }
        i = i + 1;
    }
    assert(cs@.subrange(0, cs@.len() as int) == cs@);
    string_of(&out)
}

} // verus!
