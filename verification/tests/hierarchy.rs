use ficant_application::error::ApplicationErrorCategory;
use ficant_application::hierarchy::{
    CatalogGroup, CatalogVersion, descendant_group_ids, find_group, group_path, latest_by_id, latest_versions,
};
use ficant_application::primitives::LineageRef;

fn reference(id: &str) -> LineageRef {
    LineageRef::new(id.to_owned(), Some(1), Some(id.as_bytes().to_vec()))
}

fn group(id: &str, code: &str, parent: Option<&str>) -> CatalogGroup {
    CatalogGroup {
        identity: id.to_owned(),
        version: 1,
        content_hash: id.as_bytes().to_vec(),
        code: code.to_owned(),
        parent_group: parent.map(reference),
    }
}

fn catalog() -> Vec<CatalogGroup> {
    vec![
        group("leaf", "L", Some("mid")),
        group("root", "R", None),
        group("mid", "M", Some("root")),
        group("other", "O", None),
        group("side", "S", Some("root")),
    ]
}

#[test]
fn descendants_are_the_closure_under_children() {
    let groups = catalog();
    let mut ids = descendant_group_ids(&groups, &"root".to_owned()).unwrap();
    ids.sort();
    assert_eq!(ids, vec!["leaf", "mid", "root", "side"]);
    let ids = descendant_group_ids(&groups, &"mid".to_owned()).unwrap();
    assert_eq!(ids.len(), 2);
    assert!(ids.contains(&"leaf".to_owned()));
    assert_eq!(descendant_group_ids(&groups, &"other".to_owned()).unwrap(), vec!["other"]);
}

#[test]
fn group_path_joins_codes_from_the_top() {
    let groups = catalog();
    assert_eq!(group_path(&groups, &groups[0]).unwrap(), "R/M/L");
    assert_eq!(group_path(&groups, &groups[1]).unwrap(), "R");
    let mut cyclic = catalog();
    cyclic[1].parent_group = Some(reference("leaf"));
    assert_eq!(group_path(&cyclic, &cyclic[0]).unwrap_err().category(), ApplicationErrorCategory::LineageIncomplete);
    let mut dangling = catalog();
    dangling[2].parent_group = Some(LineageRef::new("root".to_owned(), None, Some(b"root".to_vec())));
    assert!(group_path(&dangling, &dangling[0]).is_err());
    let mut missing = catalog();
    missing[2].parent_group = Some(reference("gone"));
    assert!(group_path(&missing, &missing[0]).is_err());
}

#[test]
fn exact_references_find_their_group() {
    let groups = catalog();
    assert_eq!(find_group(&groups, &reference("mid")), Ok(2));
    assert!(find_group(&groups, &LineageRef::new("mid".to_owned(), Some(2), Some(b"mid".to_vec()))).is_err());
    assert!(find_group(&groups, &LineageRef::new("mid".to_owned(), Some(1), None)).is_err());
}

fn version(id: &str, version: u64, record: char) -> CatalogVersion<char> {
    CatalogVersion { identity: id.to_owned(), version, record }
}

#[test]
fn latest_versions_keep_the_highest_version_of_each_definition() {
    let records = vec![version("b", 1, 'w'), version("a", 2, 'x'), version("b", 3, 'y'), version("a", 1, 'z'), version("c", 1, 'v')];
    let latest = latest_versions(records).unwrap();
    let picked: Vec<(String, u64, char)> = latest.into_iter().map(|v| (v.identity, v.version, v.record)).collect();
    assert_eq!(picked, vec![("a".to_owned(), 2, 'x'), ("b".to_owned(), 3, 'y'), ("c".to_owned(), 1, 'v')]);
    let repeated = vec![version("a", 2, 'x'), version("a", 2, 'y')];
    assert_eq!(latest_versions(repeated).unwrap_err().category(), ApplicationErrorCategory::StateConflict);
    let shadowed = vec![version("a", 3, 'x'), version("a", 1, 'y'), version("a", 1, 'z')];
    assert_eq!(latest_versions(shadowed).unwrap().len(), 1);
}

#[test]
fn latest_by_id_takes_the_last_highest_version() {
    let records = vec![version("a", 2, 'x'), version("b", 5, 'y'), version("a", 2, 'z'), version("a", 1, 'w')];
    assert_eq!(latest_by_id(&records, "a"), Ok(2));
    assert_eq!(latest_by_id(&records, "b"), Ok(1));
    assert_eq!(latest_by_id(&records, "c").unwrap_err().category(), ApplicationErrorCategory::NotFound);
}

#[test]
fn child_path_extends_its_parent_path() {
    let groups = catalog();
    let parent = group_path(&groups, &groups[2]).unwrap();
    let child = group_path(&groups, &groups[0]).unwrap();
    assert_eq!(child, format!("{parent}/L"));
}
