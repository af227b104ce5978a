use doclib::config::{default_store, validate_store, Config, ConfigError, OneOrMany};
use doclib::path::{expand_home, join_path};

fn with_stores(stores: &[&str]) -> Config {
    Config {
        stores: stores.iter().map(|s| s.to_string()).collect(),
        ..Config::default_for_home(Some("/home/you"))
    }
}

#[test]
fn accepts_absolute_paths() {
    for store in ["/home/you/library", "/mnt/usb/library", "/"] {
        assert!(
            validate_store(store).is_ok(),
            "rejected valid store {store:?}"
        );
    }
}

#[test]
fn rejects_a_relative_path() {
    for store in ["library", "books/library", "./library", "../shared"] {
        assert!(
            validate_store(store).is_err(),
            "accepted relative path {store:?}"
        );
    }
}

#[test]
fn explains_that_rclone_remotes_are_gone() {
    let message = validate_store("gdrive:library").unwrap_err().message();
    assert!(message.contains("rclone"), "got {message}");
    // A path containing a colon further along is still a path.
    assert!(validate_store("/mnt/my:disk/library").is_ok());
}

#[test]
fn every_store_in_the_list_is_checked() {
    assert!(with_stores(&["/a", "/b"]).validate_stores().is_ok());
    assert!(with_stores(&["/a", "relative"]).validate_stores().is_err());
    assert!(with_stores(&["relative", "/a"]).validate_stores().is_err());
}

#[test]
fn rejects_an_empty_list() {
    assert!(with_stores(&[]).validate_stores().is_err());
}

#[test]
fn the_default_store_is_usable_without_being_edited() {
    let cfg = Config::default_for_home(Some("/home/you"));
    assert_eq!(cfg.stores, vec![default_store(Some("/home/you"))]);
    assert!(cfg.validate_stores().is_ok());
    assert!(default_store(Some("/home/you")).starts_with('/'));
    assert!(default_store(Some("/home/you")).ends_with("doclib"));
}

#[test]
fn a_legacy_remote_path_becomes_a_store() {
    let mut cfg = with_stores(&[]);
    cfg.remote = Some(OneOrMany::One("/home/you/library".to_string()));
    cfg.cache_max_bytes = 0;
    cfg.absorb_legacy_keys();
    assert_eq!(cfg.stores, vec!["/home/you/library".to_string()]);
}

#[test]
fn an_explicit_store_list_wins_over_legacy_keys() {
    let mut cfg = with_stores(&["/new"]);
    cfg.remote = Some(OneOrMany::One("/old".to_string()));
    cfg.remotes = vec!["/older".to_string()];
    cfg.absorb_legacy_keys();
    assert_eq!(cfg.stores, vec!["/new".to_string()]);
    assert!(cfg.remotes.is_empty());
    assert!(cfg.remote.is_none());
}

#[test]
fn expands_a_leading_tilde() {
    let home = "/home/you";
    assert_eq!(
        expand_home("~/library", Some(home)),
        format!("{home}/library")
    );
    // Only a leading tilde, and only as a whole component.
    assert_eq!(expand_home("/mnt/~backup", Some(home)), "/mnt/~backup");
}

#[test]
fn tilde_variants_resolve_to_the_same_place() {
    let home = "/home/you";
    assert_eq!(expand_home("~", Some(home)), "/home/you/");
    assert_eq!(expand_home("~//lib/./", Some(home)), "/home/you/lib");
    assert_eq!(expand_home("~/./lib", Some(home)), "/home/you/lib");
    assert_eq!(expand_home("~backup", Some(home)), "~backup");
    assert_eq!(expand_home("~/lib", None), "~/lib");
}

#[test]
fn without_a_home_the_default_store_is_not_usable() {
    let cfg = Config::default_for_home(None);
    assert_eq!(cfg.stores, vec!["~/doclib".to_string()]);
    assert!(matches!(
        cfg.validate_stores(),
        Err(ConfigError::RelativePath { .. })
    ));
}

#[test]
fn legacy_lists_keep_only_non_blank_entries() {
    let mut cfg = with_stores(&[]);
    cfg.remotes = vec!["/a".to_string(), "  ".to_string()];
    cfg.remote = Some(OneOrMany::Many(vec!["gdrive:lib".to_string(), "".to_string()]));
    cfg.absorb_legacy_keys();
    assert_eq!(cfg.stores, vec!["/a".to_string(), "gdrive:lib".to_string()]);
    assert!(matches!(
        cfg.validate_stores(),
        Err(ConfigError::RcloneRemote { ref store }) if store == "gdrive:lib"
    ));
}

#[test]
fn each_error_names_its_cause() {
    assert!(matches!(validate_store("   "), Err(ConfigError::EmptyPath)));
    assert_eq!(
        ConfigError::EmptyPath.message(),
        "empty path in `stores`"
    );
    let relative = validate_store("library").unwrap_err();
    assert!(matches!(relative, ConfigError::RelativePath { ref store } if store == "library"));
    assert!(relative.message().starts_with("store \"library\" is a relative path"));
    let none = ConfigError::NoStores { config_file: "/c/config.toml".to_string() };
    assert!(none.message().contains("set `stores` in /c/config.toml\n"));
}

#[test]
fn catalog_and_cache_live_in_the_data_dir() {
    let mut cfg = with_stores(&["/a"]);
    cfg.data_dir = "/data/doclib".to_string();
    assert_eq!(cfg.db_path(), "/data/doclib/catalog.db");
    assert_eq!(cfg.cache_dir(), "/data/doclib/cache");
    assert_eq!(
        cfg.cache_path("abcdef", "pdf"),
        "/data/doclib/cache/ab/abcdef.pdf"
    );
    assert_eq!(cfg.stored_path("abcdef", "pdf"), "ab/abcdef.pdf");
}

#[test]
fn joining_follows_path_rules() {
    assert_eq!(join_path("/a", "b"), "/a/b");
    assert_eq!(join_path("/a/", "b"), "/a/b");
    assert_eq!(join_path("", "b"), "b");
    assert_eq!(join_path("/a", "/b"), "/b");
}

#[test]
fn defaults_open_pdfs_with_okular() {
    let cfg = Config::default_for_home(Some("/home/you"));
    assert_eq!(cfg.cache_max_bytes, 20 * 1024 * 1024 * 1024);
    assert_eq!(cfg.openers, vec![("pdf".to_string(), "okular".to_string())]);
}

#[test]
fn cached_copy_sits_at_the_stored_path_under_the_cache() {
    let mut cfg = with_stores(&["/a"]);
    cfg.data_dir = "/d".to_string();
    let stored = cfg.stored_path("920c6224", "pdf");
    assert_eq!(cfg.cache_path("920c6224", "pdf"), "/d/cache/92/920c6224.pdf");
    assert_eq!(
        cfg.cache_path("920c6224", "pdf"),
        join_path(&cfg.cache_dir(), &stored)
    );
}
