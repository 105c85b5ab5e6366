use src_to_class::header::{decode_header, HeaderError, JavaClassVersion};
use src_to_class::plan::{resolve_units, UnresolvedUnit};
use src_to_class::resolve::ListedFile;
use src_to_class::scan::collect_source_files;
use src_to_class::tally::VersionTally;

fn file(name: &str) -> ListedFile {
    ListedFile { name: name.to_string(), is_file: true }
}

fn strings(v: &[&str]) -> Vec<String> {
    v.iter().map(|s| s.to_string()).collect()
}

#[test]
fn mixed_versions_end_to_end() {
    let found = strings(&["pkg/A.java", "pkg/notes.txt", "README.md"]);
    let (units, others) = collect_source_files(&found);
    assert_eq!(units, strings(&["pkg/A.java"]));
    assert_eq!(others.len(), 2);

    let listings = vec![Some(vec![file("A.class"), file("A$1.class")])];
    let resolved = resolve_units(&units, &listings).unwrap();
    assert_eq!(resolved.len(), 1);
    assert_eq!(resolved[0].unit, "pkg/A.java");
    assert_eq!(resolved[0].artifacts, strings(&["pkg/A.class", "pkg/A$1.class"]));

    let headers: Vec<Vec<u8>> = vec![
        vec![0xCA, 0xFE, 0xBA, 0xBE, 0x00, 0x00, 0x00, 52],
        vec![0xCA, 0xFE, 0xBA, 0xBE, 0x00, 0x00, 0x00, 55],
    ];
    let mut tally = VersionTally::new();
    let mut labels = Vec::new();
    for (path, bytes) in resolved[0].artifacts.iter().zip(headers.iter()) {
        labels.push(tally.record_outcome(decode_header(bytes), path.clone()));
    }
    assert_eq!(labels, strings(&["JDK 8", "JDK 11"]));
    let copied = others.len() + resolved.iter().map(|u| u.artifacts.len()).sum::<usize>();
    assert_eq!(copied, 4);
    assert!(tally.is_mixed());
    assert_eq!(tally.summary_lines(), strings(&["JDK 8: 1", "JDK 11: 1"]));
}

#[test]
fn unresolved_unit_aborts_everything() {
    let units = strings(&["pkg/A.java", "pkg/B.java", "pkg/C.java"]);
    let listing = vec![file("A.class"), file("C.class")];
    let listings = vec![Some(listing.clone()), Some(listing.clone()), Some(listing)];
    assert_eq!(resolve_units(&units, &listings).unwrap_err(), UnresolvedUnit { index: 1 });
}

#[test]
fn missing_package_directory_aborts() {
    let units = strings(&["pkg/A.java", "other/B.java"]);
    let listings = vec![Some(vec![file("A.class")]), None];
    assert_eq!(resolve_units(&units, &listings).unwrap_err(), UnresolvedUnit { index: 1 });
}

#[test]
fn no_units_resolves_trivially() {
    let r = resolve_units(&Vec::new(), &Vec::new()).unwrap();
    assert!(r.is_empty());
}

#[test]
fn tally_groups_by_version() {
    let mut t = VersionTally::new();
    assert!(!t.is_mixed());
    assert!(t.summary_lines().is_empty());
    t.record(JavaClassVersion { major: 52, minor: 0 }, "a/A.class".to_string());
    t.record(JavaClassVersion { major: 52, minor: 3 }, "a/B.class".to_string());
    assert!(!t.is_mixed());
    assert_eq!(t.groups.len(), 1);
    assert_eq!(t.groups[0].files, strings(&["a/A.class", "a/B.class"]));
    t.record(JavaClassVersion { major: 999, minor: 0 }, "a/C.class".to_string());
    t.record(JavaClassVersion { major: 52, minor: 0 }, "a/D.class".to_string());
    assert!(t.is_mixed());
    assert_eq!(
        t.summary_lines(),
        strings(&["JDK 8: 3", "unknown JDK version (major: 999): 1"])
    );
}

#[test]
fn failed_decode_is_not_tallied() {
    let mut t = VersionTally::new();
    let l = t.record_outcome(Err(HeaderError::MalformedArtifact), "x/Bad.class".to_string());
    assert_eq!(l, "unknown version");
    let l = t.record_outcome(Err(HeaderError::InvalidMagicNumber), "x/Worse.class".to_string());
    assert_eq!(l, "unknown version");
    assert!(t.groups.is_empty());
    let l = t.record_outcome(Ok(JavaClassVersion { major: 61, minor: 0 }), "x/Ok.class".to_string());
    assert_eq!(l, "JDK 17");
    assert_eq!(t.summary_lines(), strings(&["JDK 17: 1"]));
}
