use bundle_fs::errors::FsErrorKind;
use bundle_fs::replicate::copy_dir_precheck;
use bundle_fs::replicate::copy_file_precheck;
use bundle_fs::replicate::path_is_under;
use bundle_fs::replicate::plan_copy_dir;
use bundle_fs::replicate::plan_entry;
use bundle_fs::replicate::read_file_precheck;
use bundle_fs::replicate::EntryKind;
use bundle_fs::replicate::FsAction;
use bundle_fs::replicate::WalkEntry;
use bundle_fs::text::decode_text;

fn dir_entry(path: &str) -> WalkEntry {
    WalkEntry {
        path: path.to_string(),
        kind: EntryKind::Directory,
        link_target: None,
        link_points_to_dir: false,
    }
}

fn file_entry(path: &str) -> WalkEntry {
    WalkEntry {
        path: path.to_string(),
        kind: EntryKind::RegularFile,
        link_target: None,
        link_points_to_dir: false,
    }
}

fn link_entry(path: &str, target: &str, points_to_dir: bool) -> WalkEntry {
    WalkEntry {
        path: path.to_string(),
        kind: EntryKind::Symlink,
        link_target: Some(target.to_string()),
        link_points_to_dir: points_to_dir,
    }
}

#[test]
fn copy_file_precheck_missing_source() {
    let r = copy_file_precheck("no/such/file", false, false);
    let e = r.err().unwrap();
    assert!(e.kind == FsErrorKind::NotFound);
    assert_eq!(e.path, "no/such/file".to_string());
}

#[test]
fn copy_file_precheck_source_is_directory() {
    let r = copy_file_precheck("some/dir", true, false);
    let e = r.err().unwrap();
    assert!(e.kind == FsErrorKind::WrongType);
    assert_eq!(e.path, "some/dir".to_string());
}

#[test]
fn copy_file_precheck_accepts_regular_file() {
    assert!(copy_file_precheck("some/file.txt", true, true).is_ok());
}

#[test]
fn read_file_precheck_directory_is_wrong_type() {
    let r = read_file_precheck("some/dir", true, false);
    let e = r.err().unwrap();
    assert!(e.kind == FsErrorKind::WrongType);
    assert_eq!(e.path, "some/dir".to_string());
    let r = read_file_precheck("absent", false, false);
    assert!(r.err().unwrap().kind == FsErrorKind::NotFound);
    assert!(read_file_precheck("file.txt", true, true).is_ok());
}

#[test]
fn copy_dir_precheck_rejections() {
    let e = copy_dir_precheck("absent", "dest", false, false, false).err().unwrap();
    assert!(e.kind == FsErrorKind::NotFound);
    assert_eq!(e.path, "absent".to_string());

    let e = copy_dir_precheck("a_file", "dest", true, false, false).err().unwrap();
    assert!(e.kind == FsErrorKind::WrongType);
    assert_eq!(e.path, "a_file".to_string());

    let e = copy_dir_precheck("src_dir", "dest", true, true, true).err().unwrap();
    assert!(e.kind == FsErrorKind::AlreadyExists);
    assert_eq!(e.path, "dest".to_string());

    assert!(copy_dir_precheck("src_dir", "dest", true, true, false).is_ok());
}

#[test]
fn path_is_under_prefix_rules() {
    assert!(path_is_under("orig", "orig"));
    assert!(path_is_under("orig", "orig/sub"));
    assert!(!path_is_under("orig", "original"));
    assert!(!path_is_under("orig", "or"));
    assert!(!path_is_under("orig", "other/orig"));
}

#[test]
fn plan_entry_dispatch() {
    let act = plan_entry("orig", "parent/copy", &dir_entry("orig"));
    match act {
        FsAction::CreateDir { dest } => assert_eq!(dest, "parent/copy".to_string()),
        _ => panic!("expected a directory creation"),
    }

    let act = plan_entry("orig", "parent/copy", &file_entry("orig/sub/file.txt"));
    match act {
        FsAction::CopyFileContents { source, dest } => {
            assert_eq!(source, "orig/sub/file.txt".to_string());
            assert_eq!(dest, "parent/copy/sub/file.txt".to_string());
        }
        _ => panic!("expected a file copy"),
    }

    let act = plan_entry("orig", "parent/copy", &link_entry("orig/link", "orig/sub/file.txt", false));
    match act {
        FsAction::CreateSymlink { raw_target, dest, as_dir } => {
            assert_eq!(raw_target, "orig/sub/file.txt".to_string());
            assert_eq!(dest, "parent/copy/link".to_string());
            assert!(!as_dir);
        }
        _ => panic!("expected a symlink creation"),
    }
}

#[test]
fn copy_dir_plan_with_symlinks() {
    // Source tree:
    //   orig/
    //       sub/
    //           file.txt
    //       link -> orig/sub/file.txt
    let entries = vec![
        dir_entry("orig"),
        dir_entry("orig/sub"),
        file_entry("orig/sub/file.txt"),
        link_entry("orig/link", "orig/sub/file.txt", false),
    ];
    let acts = plan_copy_dir("orig", "parent/copy", true, true, false, &entries).unwrap();
    assert_eq!(acts.len(), 4);
    match &acts[0] {
        FsAction::CreateDir { dest } => assert_eq!(dest, "parent/copy"),
        _ => panic!("expected a directory creation"),
    }
    match &acts[1] {
        FsAction::CreateDir { dest } => assert_eq!(dest, "parent/copy/sub"),
        _ => panic!("expected a directory creation"),
    }
    match &acts[2] {
        FsAction::CopyFileContents { source, dest } => {
            assert_eq!(source, "orig/sub/file.txt");
            assert_eq!(dest, "parent/copy/sub/file.txt");
        }
        _ => panic!("expected a file copy"),
    }
    match &acts[3] {
        FsAction::CreateSymlink { raw_target, dest, as_dir } => {
            assert_eq!(raw_target, "orig/sub/file.txt");
            assert_eq!(dest, "parent/copy/link");
            assert!(!as_dir);
        }
        _ => panic!("expected a symlink creation"),
    }
}

#[test]
fn copy_dir_plan_rejects_existing_destination() {
    let entries = vec![dir_entry("orig")];
    let e = plan_copy_dir("orig", "parent/copy", true, true, true, &entries).err().unwrap();
    assert!(e.kind == FsErrorKind::AlreadyExists);
    assert_eq!(e.path, "parent/copy".to_string());
}

#[test]
fn decode_text_valid_and_invalid() {
    let ok = decode_text("some/file.txt", b"Hello, world!".to_vec()).unwrap();
    assert_eq!(ok, "Hello, world!".to_string());

    let e = decode_text("some/file.txt", vec![0xff, 0xfe, 0x01]).err().unwrap();
    assert!(e.kind == FsErrorKind::DecodeFailure);
    assert_eq!(e.path, "some/file.txt".to_string());
}
