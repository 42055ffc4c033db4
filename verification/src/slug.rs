//! URL slugs: the lower-case names of users and projects that appear in paths.

use vstd::prelude::*;
use crate::text::{ascii_lower, char_ascii_lower, is_ascii_upper, push_char};

verus! {

/// What one character of a name becomes in a slug: lower-case letters, digits,
/// `-` and `_` are kept, upper-case ASCII letters are lowered, a space or a tab
/// becomes `_`, anything else is dropped.
pub open spec fn slug_char(c: char) -> Option<char> {
    if ('a' <= c && c <= 'z') || ('0' <= c && c <= '9') || c == '-' || c == '_' {
        Some(c)
    } else if is_ascii_upper(c) {
        Some(ascii_lower(c))
    } else if c == ' ' || c == '\t' {
        Some('_')
    } else {
        None
    }
}

/// The characters of a name mapped by `slug_char`, dropped ones left out.
pub open spec fn slug_chars(s: Seq<char>) -> Seq<char>
    decreases s.len(),
{
    if s.len() == 0 {
        Seq::empty()
    } else {
        let rest = slug_chars(s.drop_last());
        match slug_char(s.last()) {
            Some(c) => rest.push(c),
            None => rest,
        }
    }
}

/// The slug of a name: its slug characters, or `-` when none is left.
pub open spec fn slug_of(s: Seq<char>) -> Seq<char> {
    if slug_chars(s).len() == 0 {
        seq!['-']
    } else {
        slug_chars(s)
    }
}

/// A character that may stand in a slug.
pub open spec fn is_slug_char(c: char) -> bool {
    ('a' <= c && c <= 'z') || ('0' <= c && c <= '9') || c == '_' || c == '-'
}

/// Every character of `s` may stand in a slug (the empty string included).
pub open spec fn is_valid_slug(s: Seq<char>) -> bool {
    forall|i: int| 0 <= i < s.len() ==> is_slug_char(#[trigger] s[i])
}

/// Turns a display name into a slug.
pub fn slug_from(name: &str) -> (r: String)
    ensures
        r@ == slug_of(name@),
{
    let n = name.unicode_len();
    let mut s = String::new();
    let mut i: usize = 0;
    while i < n
        invariant
            n == name@.len(),
            i <= n,
            s@ == slug_chars(name@.subrange(0, i as int)),
        decreases n - i,
    {
        let c = name.get_char(i);
        proof {
            let pre = name@.subrange(0, i as int + 1);
            assert(pre.drop_last() =~= name@.subrange(0, i as int));
            assert(pre.last() == c);
        }
        if ('a' <= c && c <= 'z') || ('0' <= c && c <= '9') || c == '-' || c == '_' {
            push_char(&mut s, c);
        } else if 'A' <= c && c <= 'Z' {
            let l = char_ascii_lower(c);
            push_char(&mut s, l);
        } else if c == ' ' || c == '\t' {
            push_char(&mut s, '_');
        }
        i = i + 1;
    }
    assert(name@.subrange(0, n as int) =~= name@);
    if s.as_str().is_empty() {
        let dash = String::from_str("-");
        proof {
            reveal_strlit("-");
        }
        assert(dash@ =~= seq!['-']);
        return dash;
    }
    s
}

/// Whether every character of `slug` may stand in a slug.
pub fn slug_valid(slug: &str) -> (r: bool)
    ensures
        r == is_valid_slug(slug@),
{
    let n = slug.unicode_len();
    let mut i: usize = 0;
    while i < n
        invariant
            n == slug@.len(),
            i <= n,
            forall|j: int| 0 <= j < i ==> is_slug_char(#[trigger] slug@[j]),
        decreases n - i,
    {
        let c = slug.get_char(i);
        if !(('a' <= c && c <= 'z') || ('0' <= c && c <= '9') || c == '_' || c == '-') {
            assert(!is_slug_char(slug@[i as int]));
            return false;
        }
        i = i + 1;
    }
    true
}

/// Every character that `slug_char` produces may stand in a slug.
proof fn lemma_slug_char_valid(c: char)
    ensures
        slug_char(c) matches Some(d) ==> is_slug_char(d),
{
}

/// The slug characters of a name are all valid slug characters.
proof fn lemma_slug_chars_valid(s: Seq<char>)
    ensures
        is_valid_slug(slug_chars(s)),
    decreases s.len(),
{
    if s.len() > 0 {
        lemma_slug_chars_valid(s.drop_last());
        lemma_slug_char_valid(s.last());
    }
}

/// On a valid slug, every character maps to itself.
proof fn lemma_slug_chars_of_valid(s: Seq<char>)
    requires
        is_valid_slug(s),
    ensures
        slug_chars(s) == s,
    decreases s.len(),
{
    if s.len() > 0 {
        assert(is_slug_char(s[s.len() - 1]));
        let t = s.drop_last();
        assert(is_valid_slug(t)) by {
            assert forall|i: int| 0 <= i < t.len() implies is_slug_char(#[trigger] t[i]) by {
                assert(t[i] == s[i]);
            }
        }
        lemma_slug_chars_of_valid(t);
        assert(t.push(s.last()) =~= s);
    }
}

/// Whatever the name, its slug is a valid slug, and it is never empty.
pub proof fn law_slug_from_is_valid(name: Seq<char>)
    ensures
        is_valid_slug(slug_of(name)),
        slug_of(name).len() > 0,
{
    lemma_slug_chars_valid(name);
    if slug_chars(name).len() == 0 {
        assert(is_slug_char(seq!['-'][0]));
    }
}

/// A non-empty valid slug is its own slug.
pub proof fn law_slug_from_keeps_valid_slug(s: Seq<char>)
    requires
        is_valid_slug(s),
        s.len() > 0,
    ensures
        slug_of(s) == s,
{
    lemma_slug_chars_of_valid(s);
}

/// Making a slug twice gives the same slug as making it once.
pub proof fn law_slug_from_idempotent(name: Seq<char>)
    ensures
        slug_of(slug_of(name)) == slug_of(name),
{
    law_slug_from_is_valid(name);
    law_slug_from_keeps_valid_slug(slug_of(name));
}

/// The slug characters of a prefix of a name are a prefix of the name's.
proof fn lemma_slug_chars_prefix(s: Seq<char>, j: int)
    requires
        0 <= j <= s.len(),
    ensures
        slug_chars(s.take(j)).len() <= slug_chars(s).len(),
        slug_chars(s.take(j)) == slug_chars(s).take(slug_chars(s.take(j)).len() as int),
    decreases s.len(),
{
    if j < s.len() {
        let t = s.drop_last();
        assert(s.take(j) =~= t.take(j));
        lemma_slug_chars_prefix(t, j);
        let a = slug_chars(t.take(j));
        let b = slug_chars(t);
        assert(slug_chars(s) == b || slug_chars(s) == b.push(slug_char(s.last()).unwrap()));
        assert(slug_chars(s).take(a.len() as int) =~= b.take(a.len() as int));
    } else {
        assert(s.take(j) =~= s);
        assert(slug_chars(s).take(slug_chars(s).len() as int) =~= slug_chars(s));
    }
}

/// Upper-case ASCII letters are lowered, in place: where a name holds a
/// letter `A`..`Z`, its slug holds the letter whose code is 32 higher, at the
/// place that follows the slug characters of what stands before it.
pub proof fn law_slug_lowers_upper_case(name: Seq<char>, i: int)
    requires
        0 <= i < name.len(),
        'A' <= name[i] <= 'Z',
    ensures
        slug_chars(name.take(i)).len() < slug_of(name).len(),
        slug_of(name)[slug_chars(name.take(i)).len() as int] == ((name[i] as u32) + 32) as char,
{
    let k = slug_chars(name.take(i)).len() as int;
    assert(name.take(i + 1).drop_last() =~= name.take(i));
    assert(name.take(i + 1).last() == name[i]);
    assert(slug_chars(name.take(i + 1)) == slug_chars(name.take(i)).push(
        ((name[i] as u32) + 32) as char,
    ));
    lemma_slug_chars_prefix(name, i + 1);
    let p = slug_chars(name.take(i + 1));
    assert(p.len() == k + 1);
    assert(slug_chars(name).len() >= k + 1);
    assert(slug_of(name) == slug_chars(name));
    assert(slug_chars(name)[k] == slug_chars(name).take(k + 1)[k]);
    assert(p[k] == ((name[i] as u32) + 32) as char);
}

} // verus!
