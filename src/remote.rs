//! The plain values exchanged with the remote repository: where a parent
//! descriptor is published, and what a latest-version lookup answered.

use crate::model::Coordinate;
use crate::text::push_char;
use vstd::prelude::*;

verus! {

/// Where descriptors are fetched from; the descriptor's path follows.
pub const REPOSITORY: &'static str = "https://search.maven.org/remotecontent?filepath=";

/// A group id as a path: each `.` becomes `/`.
pub open spec fn group_path(group: Seq<char>) -> Seq<char> {
    group.map_values(|c: char| if c == '.' { '/' } else { c })
}

/// The address of the descriptor of `group:artifact:version`:
/// `group/artifact/version/artifact-version.pom` under the repository.
pub open spec fn descriptor_url(group: Seq<char>, artifact: Seq<char>, version: Seq<char>) -> Seq<char> {
    REPOSITORY@ + group_path(group) + "/"@ + artifact + "/"@ + version + "/"@ + artifact + "-"@ + version
        + ".pom"@
}

/// The address of the descriptor of `c`; none where `c` has no group or no
/// version.
pub fn parent_pom_url(c: &Coordinate) -> (r: Option<String>)
    ensures
        match (c.group_id, c.version) {
            (Some(g), Some(v)) => r is Some && r->0@ == descriptor_url(g@, c.artifact_id@, v@),
            _ => r is None,
        },
{
    let (group, version) = match (&c.group_id, &c.version) {
        (Some(g), Some(v)) => (g, v),
        _ => return None,
    };
    let mut path = String::new();
    let n = group.as_str().unicode_len();
    let mut i: usize = 0;
    while i < n
        invariant
            n == group@.len(),
            i <= n,
            path@ == group_path(group@.subrange(0, i as int)),
        decreases n - i,
    {
        let ch = group.as_str().get_char(i);
        if ch == '.' {
            push_char(&mut path, '/');
        } else {
            push_char(&mut path, ch);
        }
        assert(path@ =~= group_path(group@.subrange(0, i + 1)));
        i = i + 1;
    }
    assert(group@.subrange(0, n as int) =~= group@);
    let mut url = String::from_str(REPOSITORY);
    url.append(path.as_str());
    url.append("/");
    url.append(c.artifact_id.as_str());
    url.append("/");
    url.append(version.as_str());
    url.append("/");
    url.append(c.artifact_id.as_str());
    url.append("-");
    url.append(version.as_str());
    url.append(".pom");
    Some(url)
}

/// Whether `c` has the Unicode White_Space property, the set of characters
/// that `char::is_whitespace` accepts.
pub open spec fn is_whitespace(c: char) -> bool {
    let n = c as u32;
    (0x9 <= n <= 0xd) || n == 0x20 || n == 0x85 || n == 0xa0 || n == 0x1680 || (0x2000 <= n <= 0x200a)
        || n == 0x2028 || n == 0x2029 || n == 0x202f || n == 0x205f || n == 0x3000
}

/// `s` without its whitespace characters.
pub open spec fn without_whitespace(s: Seq<char>) -> Seq<char>
    decreases s.len(),
{
    if s.len() == 0 {
        Seq::empty()
    } else if is_whitespace(s.last()) {
        without_whitespace(s.drop_last())
    } else {
        without_whitespace(s.drop_last()).push(s.last())
    }
}

/// The latest version that a lookup printed: its output without any
/// whitespace; none where nothing is left.
pub fn latest_version_of(output: &str) -> (r: Option<String>)
    ensures
        match r {
            Some(v) => v@ == without_whitespace(output@) && v@.len() > 0,
            None => without_whitespace(output@).len() == 0,
        },
{
    let n = output.unicode_len();
    let mut v = String::new();
    let mut i: usize = 0;
    while i < n
        invariant
            n == output@.len(),
            i <= n,
            v@ == without_whitespace(output@.subrange(0, i as int)),
        decreases n - i,
    {
        let c = output.get_char(i);
        assert(output@.subrange(0, i + 1).drop_last() =~= output@.subrange(0, i as int));
        let k = c as u32;
        let blank = (0x9 <= k && k <= 0xd) || k == 0x20 || k == 0x85 || k == 0xa0 || k == 0x1680
            || (0x2000 <= k && k <= 0x200a) || k == 0x2028 || k == 0x2029 || k == 0x202f || k == 0x205f
            || k == 0x3000;
        if !blank {
            push_char(&mut v, c);
        }
        i = i + 1;
    }
    assert(output@.subrange(0, n as int) =~= output@);
    if v.as_str().unicode_len() == 0 {
        None
    } else {
        Some(v)
    }
}

} // verus!
