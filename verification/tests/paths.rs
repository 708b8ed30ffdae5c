use bundle_fs::normalize::resource_relpath;
use bundle_fs::retina::is_retina;

#[test]
fn resource_relative_paths() {
    assert_eq!(
        resource_relpath("./data/images/button.png"),
        "data/images/button.png".to_string()
    );
    assert_eq!(
        resource_relpath("../../images/wheel.png"),
        "_up_/_up_/images/wheel.png".to_string()
    );
    assert_eq!(
        resource_relpath("/home/ferris/crab.png"),
        "_root_/home/ferris/crab.png".to_string()
    );
}

#[test]
fn resource_relpath_identity_on_safe_paths() {
    assert_eq!(resource_relpath("data/images/button.png"), "data/images/button.png".to_string());
    assert_eq!(resource_relpath("file.txt"), "file.txt".to_string());
    assert_eq!(resource_relpath(""), "".to_string());
}

#[test]
fn resource_relpath_edge_cases() {
    assert_eq!(resource_relpath("/"), "_root_".to_string());
    assert_eq!(resource_relpath("."), "".to_string());
    assert_eq!(resource_relpath(".."), "_up_".to_string());
    assert_eq!(resource_relpath("a//b"), "a/b".to_string());
    assert_eq!(resource_relpath("a/b/"), "a/b".to_string());
    assert_eq!(resource_relpath("a/./b"), "a/b".to_string());
    assert_eq!(resource_relpath("a/../b"), "a/_up_/b".to_string());
    assert_eq!(resource_relpath("//x"), "_root_/x".to_string());
}

#[test]
fn retina_icon_paths() {
    assert!(!is_retina("data/icons/512x512.png"));
    assert!(is_retina("data/icons/512x512@2x.png"));
}

#[test]
fn retina_stem_edge_cases() {
    assert!(is_retina("icon@2x"));
    assert!(is_retina("a/b/icon@2x.png"));
    assert!(!is_retina("icon@2x.tar.gz"));
    assert!(!is_retina("@2x/icon.png"));
    assert!(!is_retina(""));
    assert!(!is_retina("a/.."));
    assert!(!is_retina(".gitignore"));
}
