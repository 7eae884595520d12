//! Text primitives: placeholders, prefixes, whitespace removal, and the
//! regular-expression searches that descriptor extraction is built from.

use regex::Regex;
use vstd::prelude::*;

verus! {

/// The leftmost match of `pattern` in `text`, as the text before it, the
/// match itself and the text after it; `None` where there is no match or the
/// pattern is not a valid regular expression.
pub uninterp spec fn first_match(pattern: Seq<char>, text: Seq<char>) -> Option<(Seq<char>, Seq<char>, Seq<char>)>;

/// The text of capture group 1 of the leftmost match of `pattern` in `text`.
pub uninterp spec fn first_capture(pattern: Seq<char>, text: Seq<char>) -> Option<Seq<char>>;

/// The successive non-overlapping matches of `pattern` in `text`.
pub uninterp spec fn all_matches(pattern: Seq<char>, text: Seq<char>) -> Seq<Seq<char>>;

/// Relies on `regex::Regex::new` and `Regex::find`: the leftmost match, whose
/// byte range splits the haystack into the part before, the match and the
/// part after.
#[verifier::external_body]
pub(crate) fn split_first_match(pattern: &str, text: &str) -> (r: Option<(String, String, String)>)
    ensures
        match r {
            Some(parts) => first_match(pattern@, text@) == Some((parts.0@, parts.1@, parts.2@))
                && parts.0@ + parts.1@ + parts.2@ == text@,
            None => first_match(pattern@, text@) is None,
        },
{
    let re = Regex::new(pattern).ok()?;
    let m = re.find(text)?;
    Some((text[..m.start()].to_string(), m.as_str().to_string(), text[m.end()..].to_string()))
}

/// Relies on `regex::Regex::new` and `Regex::captures`: the text of group 1
/// of the leftmost match, if that group took part in it.
#[verifier::external_body]
pub(crate) fn capture_first(pattern: &str, text: &str) -> (r: Option<String>)
    ensures
        match r {
            Some(s) => first_capture(pattern@, text@) == Some(s@),
            None => first_capture(pattern@, text@) is None,
        },
{
    let re = Regex::new(pattern).ok()?;
    re.captures(text)?.get(1).map(|g| g.as_str().to_string())
}

/// Relies on `regex::Regex::new` and `Regex::find_iter`: every
/// non-overlapping match, in order; none for an invalid pattern.
#[verifier::external_body]
pub(crate) fn find_all(pattern: &str, text: &str) -> (r: Vec<String>)
    ensures
        r@.len() == all_matches(pattern@, text@).len(),
        forall|i: int| 0 <= i < r@.len() ==> #[trigger] r@[i]@ == all_matches(pattern@, text@)[i],
{
    match Regex::new(pattern) {
        Ok(re) => re.find_iter(text).map(|m| m.as_str().to_string()).collect(),
        Err(_) => Vec::new(),
    }
}

/// `text` with every regular-expression meta character escaped, so that a
/// pattern holding it matches it literally.
pub uninterp spec fn regex_escaped(text: Seq<char>) -> Seq<char>;

/// Relies on `regex::escape`: the text as a literal for a pattern.
#[verifier::external_body]
pub(crate) fn escape_for_pattern(text: &str) -> (r: String)
    ensures
        r@ == regex_escaped(text@),
{
    regex::escape(text)
}

/// Relies on `String::push`: appends one character.
#[verifier::external_body]
pub(crate) fn push_char(s: &mut String, c: char)
    ensures
        final(s)@ == old(s)@.push(c),
{
    s.push(c);
}

/// A version that refers to a property instead of stating a value.
pub open spec fn is_placeholder(v: Seq<char>) -> bool {
    v.len() > 0 && v[0] == '$'
}

/// Whether `s` begins with `p`.
pub open spec fn has_prefix(s: Seq<char>, p: Seq<char>) -> bool {
    p.len() <= s.len() && s.subrange(0, p.len() as int) == p
}

/// The property name that the placeholder `${name}` refers to; any other
/// text stands for itself.
pub open spec fn placeholder_name(v: Seq<char>) -> Seq<char> {
    if v.len() >= 3 && v[0] == '$' && v[1] == '{' && v[v.len() - 1] == '}' {
        v.subrange(2, v.len() - 1)
    } else {
        v
    }
}

/// The placeholder written for an artifact that declares no version.
pub open spec fn default_placeholder(artifact_id: Seq<char>) -> Seq<char> {
    "${"@ + artifact_id + ".version}"@
}

/// Spaces, tabs and line feeds, which normalized text leaves out.
pub open spec fn is_blank(c: char) -> bool {
    c == ' ' || c == '\t' || c == '\n'
}

/// `s` without its blanks.
pub open spec fn compact(s: Seq<char>) -> Seq<char>
    decreases s.len(),
{
    if s.len() == 0 {
        Seq::empty()
    } else if is_blank(s.last()) {
        compact(s.drop_last())
    } else {
        compact(s.drop_last()).push(s.last())
    }
}

/// The pattern that finds the value of a property, given its name escaped
/// for use in a pattern.
pub open spec fn tag_pattern(name: Seq<char>) -> Seq<char> {
    "<"@ + name + ">(.*)</"@ + name + ">"@
}

/// Whether `v` is a placeholder.
pub fn starts_with_sigil(v: &str) -> (r: bool)
    ensures
        r == is_placeholder(v@),
{
    let n = v.unicode_len();
    if n == 0 {
        false
    } else {
        v.get_char(0) == '$'
    }
}

/// Whether `s` begins with `p`.
pub fn starts_with(s: &str, p: &str) -> (r: bool)
    ensures
        r == has_prefix(s@, p@),
{
    let n = s.unicode_len();
    let m = p.unicode_len();
    if m > n {
        return false;
    }
    let mut i: usize = 0;
    while i < m
        invariant
            m == p@.len(),
            n == s@.len(),
            m <= n,
            i <= m,
            forall|j: int| 0 <= j < i ==> s@[j] == p@[j],
        decreases m - i,
    {
        if s.get_char(i) != p.get_char(i) {
            assert(s@.subrange(0, m as int)[i as int] != p@[i as int]);
            return false;
        }
        i = i + 1;
    }
    assert(s@.subrange(0, m as int) =~= p@);
    true
}

/// The property name that `v` refers to.
pub fn name_of_placeholder(v: &str) -> (r: String)
    ensures
        r@ == placeholder_name(v@),
{
    let n = v.unicode_len();
    if n >= 3 && v.get_char(0) == '$' && v.get_char(1) == '{' && v.get_char(n - 1) == '}' {
        String::from_str(v.substring_char(2, n - 1))
    } else {
        String::from_str(v)
    }
}

/// The placeholder `${artifact_id.version}`.
pub fn default_placeholder_of(artifact_id: &str) -> (r: String)
    ensures
        r@ == default_placeholder(artifact_id@),
{
    let mut r = String::from_str("${");
    r.append(artifact_id);
    r.append(".version}");
    r
}

/// The pattern `<name>(.*)</name>`, for a name already escaped.
pub fn tag_pattern_of(name: &str) -> (r: String)
    ensures
        r@ == tag_pattern(name@),
{
    let mut r = String::from_str("<");
    r.append(name);
    r.append(">(.*)</");
    r.append(name);
    r.append(">");
    r
}

/// `s` with every space, tab and line feed taken out.
pub fn compact_text(s: &str) -> (r: String)
    ensures
        r@ == compact(s@),
{
    let n = s.unicode_len();
    let mut r = String::new();
    let mut i: usize = 0;
    while i < n
        invariant
            n == s@.len(),
            i <= n,
            r@ == compact(s@.subrange(0, i as int)),
        decreases n - i,
    {
        let c = s.get_char(i);
        assert(s@.subrange(0, i + 1).drop_last() =~= s@.subrange(0, i as int));
        if c != ' ' && c != '\t' && c != '\n' {
            push_char(&mut r, c);
        }
        i = i + 1;
    }
    assert(s@.subrange(0, n as int) =~= s@);
    r
}

} // verus!
