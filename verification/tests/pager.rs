use rich_rs::pager::{fallback_pager, pager_from_env, BufferPager, Pager};

#[test]
fn test_buffer_pager() {
    let pager = BufferPager::new();
    pager.show("Hello").unwrap();
    pager.show(" World").unwrap();
    assert_eq!(pager.get_content(), "Hello World");

    pager.clear();
    assert_eq!(pager.get_content(), "");
}

#[test]
fn test_pager_from_env_splits_words() {
    let (cmd, args) = pager_from_env("  most -s  ", false).unwrap();
    assert_eq!(cmd, "most");
    assert_eq!(args, vec!["-s".to_string()]);
    assert!(pager_from_env("   ", true).is_none());
    assert!(pager_from_env("", true).is_none());
}

#[test]
fn test_pager_from_env_adds_raw_flag_for_less() {
    let (cmd, args) = pager_from_env("/usr/bin/less -F", true).unwrap();
    assert_eq!(cmd, "/usr/bin/less");
    assert_eq!(args, vec!["-F".to_string(), "-R".to_string()]);
    let (_, args) = pager_from_env("less -FR", true).unwrap();
    assert_eq!(args, vec!["-FR".to_string()]);
    let (_, args) = pager_from_env("less", false).unwrap();
    assert!(args.is_empty());
    let (_, args) = pager_from_env("more", true).unwrap();
    assert!(args.is_empty());
}

#[test]
fn test_fallback_pager() {
    assert_eq!(fallback_pager(true, true, true), Some(("less".to_string(), vec!["-R".to_string()])));
    assert_eq!(fallback_pager(false, true, false), Some(("less".to_string(), vec![])));
    assert_eq!(fallback_pager(true, false, true), Some(("more".to_string(), vec![])));
    assert_eq!(fallback_pager(true, false, false), None);
}
