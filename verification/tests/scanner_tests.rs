use tfocus::error::TfocusError;
use tfocus::scanner::{classify, Disposition, Entry, EntryKind, Scanner};

fn file(path: &str) -> Entry {
    Entry { path: path.to_string(), kind: EntryKind::File }
}

fn directory(path: &str) -> Entry {
    Entry { path: path.to_string(), kind: EntryKind::Directory }
}

#[test]
fn a_declaration_file_is_collected() {
    assert_eq!(classify("proj/main.tf", EntryKind::File), Disposition::Collect);
    assert_eq!(classify("main.tf", EntryKind::File), Disposition::Collect);
    assert_eq!(classify("proj/a.b.tf", EntryKind::File), Disposition::Collect);
    assert_eq!(classify("proj/..tf", EntryKind::File), Disposition::Collect);
}

#[test]
fn other_files_are_passed_over() {
    assert_eq!(classify("proj/main.tfvars", EntryKind::File), Disposition::Skip);
    assert_eq!(classify("proj/main.tf.json", EntryKind::File), Disposition::Skip);
    assert_eq!(classify("proj/README.md", EntryKind::File), Disposition::Skip);
    assert_eq!(classify("proj/tf", EntryKind::File), Disposition::Skip);
    assert_eq!(classify("proj/maintf", EntryKind::File), Disposition::Skip);
    assert_eq!(classify("proj/main.TF", EntryKind::File), Disposition::Skip);
}

#[test]
fn a_file_named_by_the_ending_alone_is_passed_over() {
    assert_eq!(classify("proj/.tf", EntryKind::File), Disposition::Skip);
    assert_eq!(classify(".tf", EntryKind::File), Disposition::Skip);
    assert_eq!(classify("", EntryKind::File), Disposition::Skip);
}

#[test]
fn files_of_the_tool_state_are_passed_over() {
    assert_eq!(
        classify("proj/.terraform/modules/vpc/main.tf", EntryKind::File),
        Disposition::Skip
    );
    assert_eq!(classify(".terraform/main.tf", EntryKind::File), Disposition::Skip);
}

#[test]
fn files_of_version_control_are_passed_over() {
    assert_eq!(classify("proj/.git/hooks/x.tf", EntryKind::File), Disposition::Skip);
}

#[test]
fn a_name_that_only_resembles_an_excluded_one_is_kept() {
    assert_eq!(classify("proj/.terraform.d/main.tf", EntryKind::File), Disposition::Collect);
    assert_eq!(classify("proj/x.terraform/main.tf", EntryKind::File), Disposition::Collect);
    assert_eq!(classify("proj/.github/main.tf", EntryKind::File), Disposition::Collect);
    assert_eq!(classify("proj/.gitmodules", EntryKind::Directory), Disposition::Descend);
}

#[test]
fn directories_are_walked_unless_excluded() {
    assert_eq!(classify("proj/modules", EntryKind::Directory), Disposition::Descend);
    assert_eq!(classify("proj/dir.tf", EntryKind::Directory), Disposition::Descend);
    assert_eq!(classify("proj/.terraform", EntryKind::Directory), Disposition::Skip);
    assert_eq!(classify("proj/.git", EntryKind::Directory), Disposition::Skip);
    assert_eq!(classify("proj/.terraform/modules", EntryKind::Directory), Disposition::Skip);
    assert_eq!(classify("proj/.git/objects", EntryKind::Directory), Disposition::Skip);
}

#[test]
fn what_is_neither_file_nor_directory_is_passed_over() {
    assert_eq!(classify("proj/main.tf", EntryKind::Other), Disposition::Skip);
}

#[test]
fn a_scan_begins_at_its_root() {
    let mut scan = Scanner::new("proj");
    assert_eq!(scan.next_directory(), Some("proj".to_string()));
    assert_eq!(scan.next_directory(), None);
    assert!(scan.finish().unwrap().is_empty());
}

#[test]
fn a_scan_reads_the_root_even_where_its_path_is_excluded() {
    let mut scan = Scanner::new("work/.git");
    assert_eq!(scan.next_directory(), Some("work/.git".to_string()));
}

#[test]
fn a_scan_walks_the_tree_and_lists_the_declaration_files() {
    let mut scan = Scanner::new("proj");
    assert_eq!(scan.next_directory(), Some("proj".to_string()));
    scan.record(&[
        file("proj/main.tf"),
        directory("proj/modules"),
        file("proj/README.md"),
        directory("proj/env"),
    ]);
    assert_eq!(scan.next_directory(), Some("proj/env".to_string()));
    scan.record(&[file("proj/env/prod.tf"), file("proj/env/prod.tfvars")]);
    assert_eq!(scan.next_directory(), Some("proj/modules".to_string()));
    scan.record(&[directory("proj/modules/vpc")]);
    assert_eq!(scan.next_directory(), Some("proj/modules/vpc".to_string()));
    scan.record(&[file("proj/modules/vpc/vpc.tf")]);
    assert_eq!(scan.next_directory(), None);
    assert_eq!(
        scan.finish().unwrap(),
        vec!["proj/main.tf", "proj/env/prod.tf", "proj/modules/vpc/vpc.tf"]
    );
}

#[test]
fn a_scan_never_enters_the_tool_state_nor_lists_from_it() {
    let mut scan = Scanner::new("proj");
    assert_eq!(scan.next_directory(), Some("proj".to_string()));
    scan.record(&[
        directory("proj/.terraform"),
        directory("proj/.git"),
        file("proj/main.tf"),
        file("proj/.terraform/cached.tf"),
    ]);
    assert_eq!(scan.next_directory(), None);
    scan.record(&[
        file("proj/.terraform/modules/vpc/main.tf"),
        directory("proj/.terraform/modules"),
    ]);
    assert_eq!(scan.next_directory(), None);
    assert_eq!(scan.finish().unwrap(), vec!["proj/main.tf"]);
}

#[test]
fn an_empty_listing_changes_nothing() {
    let mut scan = Scanner::new("proj");
    scan.record(&[]);
    assert_eq!(scan.next_directory(), Some("proj".to_string()));
    scan.record(&[]);
    assert_eq!(scan.next_directory(), None);
    assert!(scan.finish().unwrap().is_empty());
}

#[test]
fn a_directory_that_cannot_be_read_fails_the_whole_scan() {
    let mut scan = Scanner::new("proj");
    assert_eq!(scan.next_directory(), Some("proj".to_string()));
    scan.record(&[file("proj/main.tf"), directory("proj/a"), directory("proj/b")]);
    assert_eq!(scan.next_directory(), Some("proj/b".to_string()));
    scan.abandon("permission denied".to_string());
    assert_eq!(scan.next_directory(), None);
    scan.record(&[file("proj/late.tf"), directory("proj/late")]);
    assert_eq!(scan.next_directory(), None);
    scan.abandon("a later failure".to_string());
    match scan.finish() {
        Err(TfocusError::Io(message)) => assert_eq!(message, "permission denied"),
        other => panic!("unexpected result: {:?}", other),
    }
}
