use src_to_class::names::{file_name_of, has_extension, parent_of, stem_of};
use src_to_class::resolve::{find_class_files, is_class_file_of, matches_unit, ListedFile};
use src_to_class::scan::{collect_source_files, is_source_file};

fn file(name: &str) -> ListedFile {
    ListedFile { name: name.to_string(), is_file: true }
}

fn dir(name: &str) -> ListedFile {
    ListedFile { name: name.to_string(), is_file: false }
}

#[test]
fn splits_names() {
    assert_eq!(file_name_of("pkg/sub/A.java"), "A.java");
    assert_eq!(file_name_of("A.java"), "A.java");
    assert_eq!(parent_of("pkg/sub/A.java"), "pkg/sub");
    assert_eq!(parent_of("A.java"), "");
    assert_eq!(stem_of("A$1.class"), "A$1");
    assert_eq!(stem_of("archive.tar.gz"), "archive.tar");
    assert_eq!(stem_of(".hidden"), ".hidden");
    assert_eq!(stem_of("plain"), "plain");
    assert!(has_extension("A.class", "class"));
    assert!(!has_extension(".class", "class"));
    assert!(!has_extension("A.CLASS", "class"));
    assert!(has_extension("A.", ""));
}

#[test]
fn classifies_source_files() {
    assert!(is_source_file("pkg/A.java"));
    assert!(!is_source_file("pkg/A.JAVA"));
    assert!(!is_source_file("pkg/.java"));
    assert!(!is_source_file("pkg/A.java.bak"));
    let paths: Vec<String> = ["a/B.java", "x.txt", ".java", "C.JAVA", "D.java", "d.java.bak"]
        .iter()
        .map(|s| s.to_string())
        .collect();
    let (sources, others) = collect_source_files(&paths);
    assert_eq!(sources, vec!["a/B.java".to_string(), "D.java".to_string()]);
    assert_eq!(others, vec!["x.txt".to_string(), ".java".to_string(), "C.JAVA".to_string(), "d.java.bak".to_string()]);
}

#[test]
fn nested_units_match_and_lookalikes_do_not() {
    assert!(matches_unit("Stem", "Stem"));
    assert!(matches_unit("Stem", "Stem$1"));
    assert!(matches_unit("Stem", "Stem$Foo"));
    assert!(!matches_unit("Stem", "StemOther"));
    assert!(!matches_unit("Stem", "Ste"));
    assert!(!matches_unit("Stem", "XStem$1"));
    assert!(is_class_file_of("Stem", "Stem$1.class"));
    assert!(!is_class_file_of("Stem", "Stem.java"));
}

#[test]
fn resolves_nested_classes() {
    let listing = vec![
        file("Stem.class"),
        file("Stem$1.class"),
        file("StemOther.class"),
        file("Stem$Foo.class"),
        file("Other.class"),
        dir("Stem$Dir.class"),
        file("Stem.txt"),
    ];
    let r = find_class_files("pkg/Stem.java", Some(&listing));
    assert_eq!(
        r,
        vec!["pkg/Stem.class".to_string(), "pkg/Stem$1.class".to_string(), "pkg/Stem$Foo.class".to_string()]
    );
}

#[test]
fn resolves_at_root() {
    let listing = vec![file("A.class"), file("B.class")];
    let r = find_class_files("A.java", Some(&listing));
    assert_eq!(r, vec!["A.class".to_string()]);
}

#[test]
fn unmatched_unit_resolves_empty() {
    let listing = vec![file("B.class"), file("AB.class")];
    assert!(find_class_files("pkg/A.java", Some(&listing)).is_empty());
}

#[test]
fn absent_package_directory_resolves_empty() {
    assert!(find_class_files("missing/A.java", None).is_empty());
}

#[test]
fn overlapping_unit_names_share_class_files() {
    let listing = vec![file("Foo.class"), file("Foo$Bar.class"), file("Foo$Bar$1.class")];
    assert_eq!(
        find_class_files("p/Foo.java", Some(&listing)),
        vec!["p/Foo.class".to_string(), "p/Foo$Bar.class".to_string(), "p/Foo$Bar$1.class".to_string()]
    );
    assert_eq!(
        find_class_files("p/Foo$Bar.java", Some(&listing)),
        vec!["p/Foo$Bar.class".to_string(), "p/Foo$Bar$1.class".to_string()]
    );
}
