use dvm::clean::exec;
use dvm::meta::{is_installed, DvmMeta, InstalledDirectory, VersionMapping};
use dvm::version::parse;

fn directory(name: &str, intact: bool) -> InstalledDirectory {
    InstalledDirectory { name: String::from(name), intact }
}

fn store(mappings: &[(&str, &str)]) -> DvmMeta {
    let mut meta = DvmMeta::new();
    for (required, current) in mappings {
        meta.set_version_mapping(String::from(*required), parse(current).unwrap());
    }
    meta
}

fn entries(meta: &DvmMeta) -> Vec<(String, String)> {
    meta.versions().iter().map(|m| (m.required.clone(), m.current.to_string())).collect()
}

fn pairs(mappings: &[(&str, &str)]) -> Vec<(String, String)> {
    mappings.iter().map(|(r, c)| (String::from(*r), String::from(*c))).collect()
}

#[test]
fn new_store_is_empty() {
    let meta = DvmMeta::new();
    assert!(meta.versions().is_empty());
    assert_eq!(meta.get_version_mapping(&String::from("A")), None);
}

#[test]
fn store_keeps_one_mapping_for_each_requirement() {
    let mut meta = store(&[("A", "1.2.0"), ("B", "1.3.0"), ("C", "1.2.0")]);
    assert_eq!(entries(&meta), pairs(&[("A", "1.2.0"), ("B", "1.3.0"), ("C", "1.2.0")]));
    assert_eq!(meta.get_version_mapping(&String::from("B")), Some(&parse("1.3.0").unwrap()));
    assert_eq!(meta.get_version_mapping(&String::from("b")), None);
    meta.set_version_mapping(String::from("A"), parse("2.0.0").unwrap());
    assert_eq!(entries(&meta), pairs(&[("B", "1.3.0"), ("C", "1.2.0"), ("A", "2.0.0")]));
    assert_eq!(meta.get_version_mapping(&String::from("A")), Some(&parse("2.0.0").unwrap()));
}

#[test]
fn deleting_a_mapping_twice_is_deleting_it_once() {
    let mut meta = store(&[("A", "1.2.0"), ("B", "1.3.0"), ("C", "1.4.0")]);
    meta.delete_version_mapping(String::from("B"));
    assert_eq!(entries(&meta), pairs(&[("A", "1.2.0"), ("C", "1.4.0")]));
    meta.delete_version_mapping(String::from("B"));
    assert_eq!(entries(&meta), pairs(&[("A", "1.2.0"), ("C", "1.4.0")]));
    meta.delete_version_mapping(String::from("missing"));
    assert_eq!(entries(&meta), pairs(&[("A", "1.2.0"), ("C", "1.4.0")]));
    meta.delete_version_mapping(String::from("A"));
    meta.delete_version_mapping(String::from("C"));
    assert!(meta.versions().is_empty());
    meta.delete_version_mapping(String::from("C"));
    assert!(meta.versions().is_empty());
}

#[test]
fn mapping_is_valid_while_its_directory_is_intact() {
    let mapping = VersionMapping { required: String::from("A"), current: parse("1.2.0").unwrap() };
    assert!(mapping.is_valid_mapping(&vec![directory("1.2.0", true)]));
    assert!(mapping.is_valid_mapping(&vec![directory("1.3.0", true), directory("1.2.0", true)]));
    assert!(!mapping.is_valid_mapping(&vec![directory("1.2.0", false)]));
    assert!(!mapping.is_valid_mapping(&vec![directory("1.2.1", true), directory("1.2", true)]));
    assert!(!mapping.is_valid_mapping(&vec![]));
    assert!(is_installed(&vec![directory("x", true)], &String::from("x")));
    assert!(!is_installed(&vec![directory("x", false)], &String::from("x")));
}

#[test]
fn mapping_goes_stale_when_its_directory_is_deleted() {
    let mut meta = store(&[("A", "1.2.0"), ("B", "1.3.0"), ("C", "1.4.0")]);
    let before = vec![directory("1.2.0", true), directory("1.3.0", true), directory("1.4.0", true)];
    for mapping in meta.versions() {
        assert!(mapping.is_valid_mapping(&before));
    }
    let after = vec![directory("1.2.0", true), directory("1.4.0", true)];
    assert!(!meta.versions()[1].is_valid_mapping(&after));
    let removals = exec(&mut meta, Some(&after));
    assert_eq!(entries(&meta), pairs(&[("A", "1.2.0"), ("C", "1.4.0")]));
    assert_eq!(meta.get_version_mapping(&String::from("B")), None);
    assert!(removals.is_empty());
}

#[test]
fn cleanup_keeps_what_is_valid_and_removes_the_rest() {
    let mut meta = store(&[("A", "1.2.0"), ("B", "1.3.0")]);
    let cache = vec![directory("1.2.0", true), directory("1.1.0", true), directory("0.9.0", false)];
    let removals = exec(&mut meta, Some(&cache));
    assert_eq!(entries(&meta), pairs(&[("A", "1.2.0")]));
    assert_eq!(removals, vec![String::from("1.1.0"), String::from("0.9.0")]);
}

#[test]
fn cleanup_removes_a_broken_directory_and_its_mapping() {
    let mut meta = store(&[("A", "1.2.0"), ("B", "1.3.0")]);
    let cache = vec![directory("1.3.0", false), directory("1.2.0", true)];
    let removals = exec(&mut meta, Some(&cache));
    assert_eq!(entries(&meta), pairs(&[("A", "1.2.0")]));
    assert_eq!(removals, vec![String::from("1.3.0")]);
}

#[test]
fn cleanup_without_a_cache_root_does_nothing() {
    let mut meta = store(&[("A", "1.2.0"), ("B", "1.3.0")]);
    let removals = exec(&mut meta, None);
    assert!(removals.is_empty());
    assert_eq!(entries(&meta), pairs(&[("A", "1.2.0"), ("B", "1.3.0")]));
}

#[test]
fn cleanup_of_an_empty_cache_root_drops_every_mapping() {
    let mut meta = store(&[("A", "1.2.0"), ("B", "1.3.0")]);
    let removals = exec(&mut meta, Some(&vec![]));
    assert!(removals.is_empty());
    assert!(meta.versions().is_empty());
}

#[test]
fn clean_files_on_an_empty_cache_root_removes_nothing() {
    let meta = store(&[("A", "1.2.0"), ("B", "1.3.0")]);
    assert!(meta.clean_files(&vec![]).is_empty());
    assert_eq!(entries(&meta), pairs(&[("A", "1.2.0"), ("B", "1.3.0")]));
    assert!(DvmMeta::new().clean_files(&vec![]).is_empty());
}

#[test]
fn clean_files_removes_what_no_valid_mapping_refers_to() {
    let meta = store(&[("A", "1.2.0"), ("B", "1.3.0"), ("C", "1.2.0")]);
    let cache = vec![
        directory("1.0.0", true),
        directory("1.2.0", true),
        directory("1.3.0", false),
        directory("tmp", true),
    ];
    assert_eq!(
        meta.clean_files(&cache),
        vec![String::from("1.0.0"), String::from("1.3.0"), String::from("tmp")]
    );
    assert_eq!(entries(&meta).len(), 3);
    assert_eq!(
        DvmMeta::new().clean_files(&cache),
        vec![String::from("1.0.0"), String::from("1.2.0"), String::from("1.3.0"), String::from("tmp")]
    );
}

#[test]
fn cleanup_twice_is_cleanup_once() {
    let mut meta = store(&[("A", "1.2.0"), ("B", "1.3.0"), ("C", "2.0.0-rc.1")]);
    let cache = vec![directory("1.2.0", true), directory("1.1.0", true), directory("2.0.0-rc.1", true)];
    let removals = exec(&mut meta, Some(&cache));
    assert_eq!(removals, vec![String::from("1.1.0")]);
    assert_eq!(entries(&meta), pairs(&[("A", "1.2.0"), ("C", "2.0.0-rc.1")]));
    let left = vec![directory("1.2.0", true), directory("2.0.0-rc.1", true)];
    let removals = exec(&mut meta, Some(&left));
    assert!(removals.is_empty());
    assert_eq!(entries(&meta), pairs(&[("A", "1.2.0"), ("C", "2.0.0-rc.1")]));
}
