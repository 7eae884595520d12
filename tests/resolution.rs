use pom_versions::loader::{get_dependencies, get_property, LoadError};
use pom_versions::model::{Artifact, Coordinate, Module, Pom};
use pom_versions::report::{standalone_first, DependencyReport};

fn descriptor(group: &str, artifact: &str, version: &str, parent: Option<(&str, &str, &str)>, properties: &str, dependencies: &str) -> String {
    let parent_block = match parent {
        Some((g, a, v)) => format!(
            "  <parent>\n    <groupId>{}</groupId>\n    <artifactId>{}</artifactId>\n    <version>{}</version>\n  </parent>\n",
            g, a, v
        ),
        None => String::new(),
    };
    format!(
        "<project>\n{}  <modelVersion>4.0.0</modelVersion>\n  <groupId>{}</groupId>\n  <artifactId>{}</artifactId>\n  <version>{}</version>\n  <properties>\n{}  </properties>\n  <dependencies>\n{}  </dependencies>\n</project>\n",
        parent_block, group, artifact, version, properties, dependencies
    )
}

fn dependency(group: &str, artifact: &str, version: Option<&str>) -> String {
    let version = match version {
        Some(v) => format!("      <version>{}</version>\n", v),
        None => String::new(),
    };
    format!(
        "    <dependency>\n      <groupId>{}</groupId>\n      <artifactId>{}</artifactId>\n{}    </dependency>\n",
        group, artifact, version
    )
}

fn load(text: &str) -> Pom {
    Pom::from_str(text).unwrap()
}

fn version_of(a: &Artifact) -> Option<&str> {
    a.version.as_deref()
}

#[test]
fn loads_coordinate_parent_and_dependencies() {
    let text = descriptor(
        "com.example",
        "app",
        "1.0",
        Some(("com.example", "base", "7")),
        "    <lib.version>2.0</lib.version>\n",
        &format!("{}{}", dependency("org.a", "lib", Some("${lib.version}")), dependency("org.b", "other", None)),
    );
    let pom = load(&text);
    assert_eq!(pom.root.artifact_id, "app");
    assert_eq!(pom.root.group_id.as_deref(), Some("com.example"));
    assert_eq!(pom.root.version.as_deref(), Some("1.0"));
    let parent = pom.parent.as_ref().unwrap();
    assert_eq!(parent.artifact_id, "base");
    assert_eq!(parent.version.as_deref(), Some("7"));
    assert_eq!(pom.dependencies.len(), 2);
    assert_eq!(pom.dependencies[0].artifact_id, "lib");
    assert_eq!(version_of(&pom.dependencies[0]), Some("2.0"));
    assert_eq!(pom.dependencies[1].group_id.as_deref(), Some("org.b"));
    assert_eq!(version_of(&pom.dependencies[1]), None);
    assert!(!pom.source.contains(' '));
    assert!(!pom.source.contains('\n'));
    assert!(!pom.source.contains("<parent>"));
}

#[test]
fn missing_artifact_id_is_malformed() {
    let text = "<project>\n  <modelVersion>4.0.0</modelVersion>\n  <groupId>g</groupId>\n</project>\n";
    assert_eq!(Pom::from_str(text).err(), Some(LoadError::MalformedDescriptor));
    assert_eq!(Module::parse(text).err(), Some(LoadError::MalformedDescriptor));
}

#[test]
fn build_and_plugin_sections_are_ignored() {
    let text = format!(
        "{}<build><plugins><plugin><dependency><groupId>p</groupId><artifactId>plug</artifactId></dependency></plugin></plugins></build>\n",
        descriptor("g", "app", "1", None, "", &dependency("org.a", "lib", Some("1.1")))
    );
    let pom = load(&text);
    assert_eq!(pom.dependencies.len(), 1);
    assert_eq!(pom.dependencies[0].artifact_id, "lib");
}

#[test]
fn property_lookup_finds_value() {
    let text = "<properties>\n<a.version>3.1</a.version>\n<b.version>${a.version}</b.version>\n</properties>";
    assert_eq!(get_property("${a.version}", text).as_deref(), Some("3.1"));
    assert_eq!(get_property("${b.version}", text).as_deref(), Some("${a.version}"));
    assert_eq!(get_property("${c.version}", text).as_deref(), Some("${c.version}"));
    assert_eq!(get_property("${a.version}", "<project></project>").as_deref(), Some("${a.version}"));
}

#[test]
fn dependencies_substitute_own_properties() {
    let text = format!(
        "<properties>\n<x.version>9</x.version>\n</properties>\n{}{}",
        dependency("g", "x", Some("${x.version}")),
        dependency("g", "y", Some("${y.version}"))
    );
    let deps = get_dependencies(&text);
    assert_eq!(deps.len(), 2);
    assert_eq!(version_of(&deps[0]), Some("9"));
    assert_eq!(version_of(&deps[1]), Some("${y.version}"));
}

#[test]
fn literal_version_is_kept() {
    let parent = load(&descriptor("p", "parent", "1", None, "    <lib.version>5.0</lib.version>\n", ""));
    let mut pom = load(&descriptor("g", "app", "1", Some(("p", "parent", "1")), "", &dependency("org", "lib", Some("1.2.3"))));
    pom.fill_missing_properties(&[parent]);
    assert_eq!(version_of(&pom.dependencies[0]), Some("1.2.3"));
    assert!(pom.dependencies[0].resolved_from.is_none());
}

#[test]
fn root_property_resolves_without_ancestor() {
    let parent = load(&descriptor("p", "parent", "1", None, "    <lib.version>5.0</lib.version>\n", ""));
    let mut pom = load(&descriptor(
        "g",
        "app",
        "1",
        Some(("p", "parent", "1")),
        "    <lib.version>4.0</lib.version>\n",
        &dependency("org", "lib", Some("${lib.version}")),
    ));
    pom.fill_missing_properties(&[parent]);
    assert_eq!(version_of(&pom.dependencies[0]), Some("4.0"));
    assert!(pom.dependencies[0].resolved_from.is_none());
}

#[test]
fn ancestor_property_resolves() {
    let parent = load(&descriptor("com.example", "parent", "3", None, "    <lib.version>2.3.0</lib.version>\n", ""));
    let mut pom = load(&descriptor(
        "com.example",
        "app",
        "1",
        Some(("com.example", "parent", "3")),
        "",
        &dependency("com.example", "lib", Some("${lib.version}")),
    ));
    pom.fill_missing_properties(&[parent]);
    assert_eq!(version_of(&pom.dependencies[0]), Some("2.3.0"));
    let from = pom.dependencies[0].resolved_from.as_ref().unwrap();
    assert_eq!(from.artifact_id, "parent");
    assert_eq!(from.group_id.as_deref(), Some("com.example"));
    assert_eq!(from.version.as_deref(), Some("3"));
}

#[test]
fn nearest_ancestor_wins() {
    let near = load(&descriptor("g", "near", "1", Some(("g", "far", "1")), "    <lib.version>1.0</lib.version>\n", ""));
    let far = load(&descriptor("g", "far", "1", None, "    <lib.version>9.0</lib.version>\n", ""));
    let mut pom = load(&descriptor("g", "app", "1", Some(("g", "near", "1")), "", &dependency("g", "lib", Some("${lib.version}"))));
    pom.fill_missing_properties(&[near, far]);
    assert_eq!(version_of(&pom.dependencies[0]), Some("1.0"));
    assert_eq!(pom.dependencies[0].resolved_from.as_ref().unwrap().artifact_id, "near");
}

#[test]
fn missing_version_without_match_is_unresolved() {
    let parent = load(&descriptor("p", "parent", "1", None, "    <other.version>1.0</other.version>\n", &dependency("x", "other", Some("1.0"))));
    let mut pom = load(&descriptor("g", "app", "1", Some(("p", "parent", "1")), "", &dependency("g", "widget", None)));
    pom.fill_missing_properties(&[parent]);
    assert_eq!(version_of(&pom.dependencies[0]), None);
    assert!(pom.dependencies[0].resolved_from.is_none());
}

#[test]
fn unresolved_placeholder_does_not_leak() {
    let parent = load(&descriptor("p", "parent", "1", None, "    <lib.version>${missing}</lib.version>\n", ""));
    let mut pom = load(&descriptor("g", "app", "1", Some(("p", "parent", "1")), "", &dependency("g", "lib", Some("${lib.version}"))));
    pom.fill_missing_properties(&[parent]);
    assert_eq!(version_of(&pom.dependencies[0]), None);
    pom.fill_missing_properties(&[]);
    assert_eq!(version_of(&pom.dependencies[0]), None);
}

#[test]
fn missing_version_found_by_artifact_property() {
    let parent = load(&descriptor("p", "parent", "1", None, "    <widget.version>0.9</widget.version>\n", ""));
    let mut pom = load(&descriptor("g", "app", "1", Some(("p", "parent", "1")), "", &dependency("g", "widget", None)));
    pom.fill_missing_properties(&[parent]);
    assert_eq!(version_of(&pom.dependencies[0]), Some("0.9"));
}

#[test]
fn chained_placeholder_resolves_through_import_list() {
    let near = load(&descriptor(
        "g",
        "platform",
        "2",
        Some(("g", "bom", "2")),
        "    <widget.version>${bom.widget}</widget.version>\n",
        "",
    ));
    let bom = load(&descriptor(
        "g",
        "bom",
        "2",
        None,
        "",
        &format!("<dependencyManagement><dependencies>\n{}</dependencies></dependencyManagement>\n", dependency("w", "widget", Some("4.5.6"))),
    ));
    let mut pom = load(&descriptor("g", "app", "1", Some(("g", "platform", "2")), "", &dependency("w", "widget", Some("${widget.version}"))));
    pom.fill_missing_properties(&[near, bom]);
    assert_eq!(version_of(&pom.dependencies[0]), Some("4.5.6"));
    assert_eq!(pom.dependencies[0].resolved_from.as_ref().unwrap().artifact_id, "bom");
}

#[test]
fn modules_resolve_against_root_first() {
    let parent = load(&descriptor("p", "parent", "1", None, "    <lib.version>5.0</lib.version>\n", ""));
    let module_text = "<project>\n  <parent>\n    <artifactId>app</artifactId>\n  </parent>\n  <artifactId>mod-a</artifactId>\n  <dependencies>\n    <dependency>\n      <groupId>org</groupId>\n      <artifactId>lib</artifactId>\n      <version>${lib.version}</version>\n    </dependency>\n    <dependency>\n      <groupId>org</groupId>\n      <artifactId>core</artifactId>\n    </dependency>\n  </dependencies>\n</project>\n";
    let module = Module::parse(module_text).unwrap();
    assert_eq!(module.artifact.artifact_id, "mod-a");
    assert_eq!(module.dependencies.len(), 2);
    let root_text = descriptor(
        "g",
        "app",
        "1",
        Some(("p", "parent", "1")),
        "    <lib.version>4.0</lib.version>\n",
        &dependency("org", "core", Some("7.7")),
    );
    let mut pom = Pom::from_root(&root_text, vec![module], "g").unwrap();
    assert_eq!(pom.skip_group.as_deref(), Some("g"));
    pom.fill_missing_properties(&[parent]);
    let deps = &pom.modules[0].dependencies;
    assert_eq!(version_of(&deps[0]), Some("4.0"));
    assert!(deps[0].resolved_from.is_none());
    assert_eq!(version_of(&deps[1]), Some("7.7"));
    assert!(deps[1].resolved_from.is_none());
}

#[test]
fn root_pom_path() {
    assert_eq!(Pom::get_root_pom_path("/work/app"), "/work/app/pom.xml");
    assert_eq!(Pom::get_root_pom_path("/work/app/"), "/work/app/pom.xml");
    assert_eq!(Pom::get_root_pom_path(""), "/pom.xml");
}

#[test]
fn excluded_group_is_never_looked_up() {
    let text = descriptor(
        "com.acme",
        "app",
        "1",
        None,
        "",
        &format!(
            "{}{}{}",
            dependency("com.acme.internal", "own", Some("1")),
            dependency("org.public", "lib", Some("2")),
            dependency("com.acmeish", "near", Some("3"))
        ),
    );
    let module = Module::parse(&descriptor("x", "mod", "1", None, "", &format!("{}{}", dependency("com.acme", "m1", Some("1")), dependency("io.other", "m2", Some("1"))))).unwrap();
    let pom = Pom::from_root(&text, vec![module], "com.acme").unwrap();
    let targets = pom.lookup_targets();
    let ids: Vec<&str> = targets.iter().map(|a| a.artifact_id.as_str()).collect();
    assert_eq!(ids, vec!["lib", "m2"]);
}

#[test]
fn no_lookup_without_group_or_prefix() {
    let text = format!("<modelVersion>1</modelVersion><artifactId>a</artifactId><properties></properties>{}", "<dependency><artifactId>nogroup</artifactId></dependency>");
    let pom = Pom::from_root(&text, vec![], "x").unwrap();
    assert!(pom.lookup_targets().is_empty());
    let pom = Pom::from_str(&descriptor("g", "a", "1", None, "", &dependency("org", "lib", Some("1")))).unwrap();
    assert!(pom.lookup_targets().is_empty());
}

#[test]
fn report_flags_outdated_versions() {
    let mut dep = Artifact::new("lib");
    dep.version = Some(String::from("1.0"));
    let same = DependencyReport::new(dep.clone(), Some(String::from("1.0")));
    assert!(same.up_to_date);
    assert_eq!(same.dependency.latest_version.as_deref(), Some("1.0"));
    let newer = DependencyReport::new(dep.clone(), Some(String::from("2.0")));
    assert!(!newer.up_to_date);
    let failed = DependencyReport::new(dep.clone(), None);
    assert!(failed.up_to_date);
    assert_eq!(failed.latest_version, None);
    let unresolved = DependencyReport::new(Artifact::new("x"), Some(String::from("1.0")));
    assert!(!unresolved.up_to_date);
}

#[test]
fn property_names_match_literally() {
    let text = "<properties>\n<libXversion>1</libXversion>\n<a+b>2</a+b>\n</properties>";
    assert_eq!(get_property("${lib.version}", text).as_deref(), Some("${lib.version}"));
    assert_eq!(get_property("${a+b}", text).as_deref(), Some("2"));
}

#[test]
fn root_property_over_several_lines_resolves() {
    let text = descriptor(
        "g",
        "app",
        "1",
        None,
        "    <lib.version>\n      2.0\n    </lib.version>\n",
        &dependency("org", "lib", Some("${lib.version}")),
    );
    let mut pom = load(&text);
    assert_eq!(version_of(&pom.dependencies[0]), Some("${lib.version}"));
    pom.fill_missing_properties(&[]);
    assert_eq!(version_of(&pom.dependencies[0]), Some("2.0"));
    assert!(pom.dependencies[0].resolved_from.is_none());
}

#[test]
fn own_property_beats_ancestor_for_unsubstituted_placeholder() {
    let parent = load(&descriptor("p", "parent", "1", None, "    <lib.version>5.0</lib.version>\n", ""));
    let mut pom = load(&descriptor("g", "app", "1", Some(("p", "parent", "1")), "    <lib.version>4.0</lib.version>\n", ""));
    let mut dep = Artifact::new("lib");
    dep.version = Some(String::from("${lib.version}"));
    pom.dependencies.push(dep);
    pom.fill_missing_properties(&[parent]);
    assert_eq!(version_of(&pom.dependencies[0]), Some("4.0"));
    assert!(pom.dependencies[0].resolved_from.is_none());
}

#[test]
fn every_build_and_plugin_section_is_ignored() {
    let text = format!(
        "{}<build><dependency><artifactId>one</artifactId></dependency></build>\n<build><dependency><artifactId>two</artifactId></dependency></build>\n<plugins><dependency><artifactId>three</artifactId></dependency></plugins>\n<plugins><dependency><artifactId>four</artifactId></dependency></plugins>\n",
        descriptor("g", "app", "1", None, "", &dependency("org.a", "lib", Some("1.1")))
    );
    let pom = load(&text);
    let ids: Vec<&str> = pom.dependencies.iter().map(|d| d.artifact_id.as_str()).collect();
    assert_eq!(ids, vec!["lib"]);
}

#[test]
fn reports_are_presented_standalone_first() {
    let mut inherited_dep = Artifact::new("b");
    inherited_dep.resolved_from = Some(Coordinate { group_id: None, artifact_id: String::from("parent"), version: None });
    let reports = vec![
        DependencyReport::new(inherited_dep, None),
        DependencyReport::new(Artifact::new("a"), None),
        DependencyReport::new(Artifact::new("c"), None),
    ];
    let ordered = standalone_first(&reports);
    let ids: Vec<&str> = ordered.iter().map(|r| r.dependency.artifact_id.as_str()).collect();
    assert_eq!(ids, vec!["a", "c", "b"]);
}
