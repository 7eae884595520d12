//! Extraction of a descriptor's coordinate, parent, dependencies and
//! properties from its text.

use crate::model::{opt_view, Artifact, Module, Pom};
use crate::text::{
    all_matches, capture_first, compact, compact_text, find_all, first_capture, first_match,
    is_placeholder, name_of_placeholder, placeholder_name, split_first_match, starts_with_sigil,
    regex_escaped, escape_for_pattern, tag_pattern, tag_pattern_of,
};
use vstd::prelude::*;

verus! {

pub const BUILD_BLOCK: &'static str = "<build>([\\s\\S]*?)</build>";

pub const PLUGINS_BLOCK: &'static str = "<plugins>([\\s\\S]*?)</plugins>";

pub const PARENT_BLOCK: &'static str = "<parent>([\\s\\S]*?)</parent>";

pub const PROPERTIES_BLOCK: &'static str = "<properties>([\\s\\S]*?)</properties>";

pub const DEPENDENCY_BLOCK: &'static str = "<dependency>([\\s\\S]*?)</dependency>";

/// Where the project's own coordinate is declared.
pub const ROOT_REGION: &'static str = "<modelVersion>([\\s\\S]*?)</properties>";

pub const GROUP_TAG: &'static str = "<groupId>(.*)</groupId>";

pub const ARTIFACT_TAG: &'static str = "<artifactId>(.*)</artifactId>";

pub const VERSION_TAG: &'static str = "<version>(.*)</version>";

/// Why a descriptor could not be loaded.
#[derive(Clone, Copy, Debug, PartialEq, Eq, Structural)]
pub enum LoadError {
    /// The descriptor declares no artifact id of its own.
    MalformedDescriptor,
}

/// Group, artifact id and version of an artifact, as text.
pub type DepView = (Option<Seq<char>>, Seq<char>, Option<Seq<char>>);

pub open spec fn artifact_view(a: Artifact) -> DepView {
    (opt_view(a.group_id), a.artifact_id@, opt_view(a.version))
}

pub open spec fn views(s: Seq<Artifact>) -> Seq<DepView> {
    s.map_values(|a: Artifact| artifact_view(a))
}

/// An artifact as extraction makes it: nothing resolved or looked up yet.
pub open spec fn is_fresh(a: Artifact) -> bool {
    a.latest_version is None && a.resolved_from is None
}

/// `text` without the leftmost match of `pattern`.
pub open spec fn without_first(pattern: Seq<char>, text: Seq<char>) -> Seq<char> {
    match first_match(pattern, text) {
        Some(parts) => parts.0 + parts.2,
        None => text,
    }
}

/// `text` with the leftmost match of `pattern` taken out again and again,
/// until no match is left or a match is empty.
pub open spec fn without_all(pattern: Seq<char>, text: Seq<char>) -> Seq<char>
    decreases text.len(),
{
    match first_match(pattern, text) {
        Some(parts) => if (parts.0 + parts.2).len() < text.len() {
            without_all(pattern, parts.0 + parts.2)
        } else {
            text
        },
        None => text,
    }
}

/// What looking up the property that `prop` refers to in `text` gives: its
/// value, or `prop` itself where `text` does not define it.
pub open spec fn property_or_self(prop: Seq<char>, text: Seq<char>) -> Seq<char> {
    match property_value(prop, text) {
        Some(v) => v,
        None => prop,
    }
}

/// The value that the properties block of `text` gives to the property that
/// `prop` refers to.
pub open spec fn property_value(prop: Seq<char>, text: Seq<char>) -> Option<Seq<char>> {
    match first_match(PROPERTIES_BLOCK@, text) {
        Some(parts) => first_capture(tag_pattern(regex_escaped(placeholder_name(prop))), parts.1),
        None => None,
    }
}

/// A declared version after the descriptor's own properties are applied.
pub open spec fn loaded_version(raw: Option<Seq<char>>, text: Seq<char>) -> Option<Seq<char>> {
    match raw {
        Some(v) => if is_placeholder(v) {
            Some(property_or_self(v, text))
        } else {
            Some(v)
        },
        None => None,
    }
}

/// The coordinate that `block` declares; none without an artifact id.
pub open spec fn declared(block: Seq<char>) -> Option<DepView> {
    match first_capture(ARTIFACT_TAG@, block) {
        Some(aid) => Some((first_capture(GROUP_TAG@, block), aid, first_capture(VERSION_TAG@, block))),
        None => None,
    }
}

/// The dependencies that `blocks` declare, in order, versions resolved
/// against the properties of `text`.
pub open spec fn parsed_dependencies(blocks: Seq<Seq<char>>, text: Seq<char>) -> Seq<DepView>
    decreases blocks.len(),
{
    if blocks.len() == 0 {
        Seq::empty()
    } else {
        let prev = parsed_dependencies(blocks.drop_last(), text);
        match declared(blocks.last()) {
            Some(d) => prev.push((d.0, d.1, loaded_version(d.2, text))),
            None => prev,
        }
    }
}

/// The dependencies declared in `text`.
pub open spec fn dependencies_in(text: Seq<char>) -> Seq<DepView> {
    parsed_dependencies(all_matches(DEPENDENCY_BLOCK@, text), text)
}

/// A descriptor's text without any of its build and plugin sections.
pub open spec fn stripped(text: Seq<char>) -> Seq<char> {
    without_all(PLUGINS_BLOCK@, without_all(BUILD_BLOCK@, text))
}

/// A descriptor's text without build, plugin and parent sections.
pub open spec fn body(text: Seq<char>) -> Seq<char> {
    without_first(PARENT_BLOCK@, stripped(text))
}

/// The parent coordinate that a descriptor declares.
pub open spec fn declared_parent(text: Seq<char>) -> Option<DepView> {
    match first_match(PARENT_BLOCK@, stripped(text)) {
        Some(parts) => declared(parts.1),
        None => None,
    }
}

/// The part of a descriptor that declares its own coordinate.
pub open spec fn root_region(text: Seq<char>) -> Seq<char> {
    match first_match(ROOT_REGION@, body(text)) {
        Some(parts) => parts.1,
        None => body(text),
    }
}

/// `p` holds what the descriptor `text` declares.
pub open spec fn loads_as(text: Seq<char>, p: Pom) -> bool {
    &&& declared(root_region(text)) == Some(artifact_view(p.root))
    &&& is_fresh(p.root)
    &&& match p.parent {
        Some(a) => declared_parent(text) == Some(artifact_view(a)) && is_fresh(a),
        None => declared_parent(text) is None,
    }
    &&& views(p.dependencies@) == dependencies_in(body(text))
    &&& forall|i: int| 0 <= i < p.dependencies@.len() ==> is_fresh(#[trigger] p.dependencies@[i])
    &&& p.source@ == compact(body(text))
}

/// `m` holds what the module descriptor `text` declares.
pub open spec fn module_loads_as(text: Seq<char>, m: Module) -> bool {
    &&& first_capture(ARTIFACT_TAG@, body(text)) == Some(m.artifact.artifact_id@)
    &&& m.artifact.group_id is None
    &&& m.artifact.version is None
    &&& is_fresh(m.artifact)
    &&& views(m.dependencies@) == dependencies_in(body(text))
    &&& forall|i: int| 0 <= i < m.dependencies@.len() ==> is_fresh(#[trigger] m.dependencies@[i])
    &&& m.source@ == compact(text)
}

/// `text` without any match of `pattern`.
fn remove_all(pattern: &str, text: &str) -> (r: String)
    ensures
        r@ == without_all(pattern@, text@),
{
    let mut cur = String::from_str(text);
    let mut done = false;
    while !done
        invariant
            without_all(pattern@, cur@) == without_all(pattern@, text@),
            done ==> without_all(pattern@, cur@) == cur@,
        decreases (if done { 0 } else { cur@.len() + 1 }),
    {
        match split_first_match(pattern, cur.as_str()) {
            Some((before, found, after)) => {
                if found.as_str().unicode_len() > 0 {
                    let mut next = before;
                    next.append(after.as_str());
                    cur = next;
                } else {
                    done = true;
                }
            },
            None => {
                done = true;
            },
        }
    }
    cur
}

/// Looks up the property that `prop` refers to in the properties block of
/// `text`.
pub(crate) fn find_property(prop: &str, text: &str) -> (r: Option<String>)
    ensures
        opt_view(r) == property_value(prop@, text@),
{
    match split_first_match(PROPERTIES_BLOCK, text) {
        Some((_, properties, _)) => {
            let name = name_of_placeholder(prop);
            let literal = escape_for_pattern(name.as_str());
            let pattern = tag_pattern_of(literal.as_str());
            capture_first(pattern.as_str(), properties.as_str())
        },
        None => None,
    }
}

/// The value that the properties block of `text` gives to the property that
/// `prop` refers to, or `prop` itself where the property is not defined.
pub fn get_property(prop: &str, text: &str) -> (r: Option<String>)
    ensures
        r is Some && r->0@ == property_or_self(prop@, text@),
{
    match find_property(prop, text) {
        Some(v) => Some(v),
        None => Some(String::from_str(prop)),
    }
}

/// The coordinate that `block` declares.
pub fn get_artifact(block: &str) -> (r: Option<Artifact>)
    ensures
        match r {
            Some(a) => declared(block@) == Some(artifact_view(a)) && is_fresh(a),
            None => declared(block@) is None,
        },
{
    let artifact_id = capture_first(ARTIFACT_TAG, block);
    match artifact_id {
        Some(artifact_id) => {
            let group_id = capture_first(GROUP_TAG, block);
            let version = capture_first(VERSION_TAG, block);
            Some(Artifact { group_id, artifact_id, version, latest_version: None, resolved_from: None })
        },
        None => None,
    }
}

/// The dependencies declared in `text`, each placeholder version replaced by
/// the value of the descriptor's own property where it has one. A dependency
/// block without an artifact id is passed over.
pub fn get_dependencies(text: &str) -> (r: Vec<Artifact>)
    ensures
        views(r@) == dependencies_in(text@),
        forall|i: int| 0 <= i < r@.len() ==> is_fresh(#[trigger] r@[i]),
{
    let blocks = find_all(DEPENDENCY_BLOCK, text);
    let ghost ms = all_matches(DEPENDENCY_BLOCK@, text@);
    let mut r: Vec<Artifact> = Vec::new();
    let mut i: usize = 0;
    while i < blocks.len()
        invariant
            blocks@.len() == ms.len(),
            forall|k: int| 0 <= k < blocks@.len() ==> #[trigger] blocks@[k]@ == ms[k],
            i <= blocks@.len(),
            views(r@) == parsed_dependencies(ms.subrange(0, i as int), text@),
            forall|k: int| 0 <= k < r@.len() ==> is_fresh(#[trigger] r@[k]),
        decreases blocks.len() - i,
    {
        assert(ms.subrange(0, i + 1).drop_last() =~= ms.subrange(0, i as int));
        assert(blocks@[i as int]@ == ms[i as int]);
        match get_artifact(blocks[i].as_str()) {
            Some(a) => {
                let mut a = a;
                let loaded = match &a.version {
                    Some(v) => if starts_with_sigil(v.as_str()) {
                        get_property(v.as_str(), text)
                    } else {
                        Some(v.clone())
                    },
                    None => None,
                };
                a.version = loaded;
                let ghost before = r@;
                r.push(a);
                assert(views(r@) =~= views(before).push(artifact_view(a)));
            },
            None => {},
        }
        i = i + 1;
    }
    assert(ms.subrange(0, blocks@.len() as int) =~= ms);
    r
}

/// Strips the build, plugin and parent sections; returns the remaining text
/// and the parent section, if there is one.
fn split_descriptor(text: &str) -> (r: (String, Option<String>))
    ensures
        r.0@ == body(text@),
        match r.1 {
            Some(p) => match first_match(PARENT_BLOCK@, stripped(text@)) {
                Some(parts) => parts.1 == p@,
                None => false,
            },
            None => first_match(PARENT_BLOCK@, stripped(text@)) is None,
        },
{
    let without_build = remove_all(BUILD_BLOCK, text);
    let rest = remove_all(PLUGINS_BLOCK, without_build.as_str());
    match split_first_match(PARENT_BLOCK, rest.as_str()) {
        Some((before, parent, after)) => {
            let mut b = before;
            b.append(after.as_str());
            (b, Some(parent))
        },
        None => (rest, None),
    }
}

impl Pom {
    /// Loads a descriptor that has no modules of interest, such as an
    /// ancestor fetched from a repository.
    pub fn from_str(text: &str) -> (r: Result<Pom, LoadError>)
        ensures
            match r {
                Ok(p) => loads_as(text@, p) && p.modules@.len() == 0 && p.skip_group is None,
                Err(e) => e == LoadError::MalformedDescriptor && declared(root_region(text@)) is None,
            },
    {
        let (b, parent_block) = split_descriptor(text);
        let parent = match parent_block {
            Some(pb) => get_artifact(pb.as_str()),
            None => None,
        };
        let region = match split_first_match(ROOT_REGION, b.as_str()) {
            Some((_, region, _)) => region,
            None => b.clone(),
        };
        let root = match get_artifact(region.as_str()) {
            Some(a) => a,
            None => return Err(LoadError::MalformedDescriptor),
        };
        let dependencies = get_dependencies(b.as_str());
        let source = compact_text(b.as_str());
        Ok(Pom { root, parent, modules: Vec::new(), dependencies, source, skip_group: None })
    }

    /// Loads the root project's descriptor, with its loaded modules and the
    /// group prefix that reporting passes over.
    pub fn from_root(text: &str, modules: Vec<Module>, skip_group: &str) -> (r: Result<Pom, LoadError>)
        ensures
            match r {
                Ok(p) => loads_as(text@, p) && p.modules == modules && p.skip_group is Some
                    && p.skip_group->0@ == skip_group@,
                Err(e) => e == LoadError::MalformedDescriptor && declared(root_region(text@)) is None,
            },
    {
        match Pom::from_str(text) {
            Ok(p) => {
                let mut p = p;
                p.modules = modules;
                p.skip_group = Some(String::from_str(skip_group));
                Ok(p)
            },
            Err(e) => Err(e),
        }
    }

    /// Where the root descriptor lies in the directory `root_dir`.
    pub fn get_root_pom_path(root_dir: &str) -> (r: String)
        ensures
            r@ == if root_dir@.len() > 0 && root_dir@.last() == '/' {
                root_dir@ + "pom.xml"@
            } else {
                root_dir@ + "/pom.xml"@
            },
    {
        let mut path = String::from_str(root_dir);
        let n = root_dir.unicode_len();
        if n > 0 && root_dir.get_char(n - 1) == '/' {
            path.append("pom.xml");
        } else {
            path.append("/pom.xml");
        }
        path
    }
}

impl Module {
    /// Loads a module's descriptor.
    pub fn parse(text: &str) -> (r: Result<Module, LoadError>)
        ensures
            match r {
                Ok(m) => module_loads_as(text@, m),
                Err(e) => e == LoadError::MalformedDescriptor
                    && first_capture(ARTIFACT_TAG@, body(text@)) is None,
            },
    {
        let source = compact_text(text);
        let (b, _) = split_descriptor(text);
        let artifact_id = match capture_first(ARTIFACT_TAG, b.as_str()) {
            Some(a) => a,
            None => return Err(LoadError::MalformedDescriptor),
        };
        let dependencies = get_dependencies(b.as_str());
        Ok(Module {
            artifact: Artifact::new(artifact_id.as_str()),
            dependencies,
            source,
        })
    }
}

} // verus!
