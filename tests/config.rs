use s3ite::{
    default_cache_size, default_concurrency_limit, default_journal_mode, default_permissive_cors,
    default_port, default_pragmas, default_read_only, default_root, default_synchronous,
    default_temp_store, Bucket, BucketPragmas, Config, JournalMode, Pragmas, Synchronous, TempStore,
};

fn config_with_bucket() -> Config {
    let mut config = Config::default();
    config.buckets.push((
        "tuned".to_string(),
        Bucket {
            read_only: Some(true),
            sqlite: Some(BucketPragmas {
                journal_mode: Some(JournalMode::DELETE),
                synchronous: None,
                temp_store: Some(TempStore::FILE),
                cache_size: Some(2048),
            }),
        },
    ));
    config.buckets.push((
        "tuned".to_string(),
        Bucket { read_only: Some(false), sqlite: None },
    ));
    config
}

#[test]
fn defaults_match_the_documented_profile() {
    assert_eq!(default_root(), ".");
    assert_eq!(default_port(), 8014);
    assert_eq!(default_concurrency_limit(), 16);
    assert!(default_permissive_cors());
    assert!(!default_read_only());
    assert_eq!(default_journal_mode(), JournalMode::WAL);
    assert_eq!(default_synchronous(), Synchronous::NORMAL);
    assert_eq!(default_temp_store(), TempStore::MEMORY);
    assert_eq!(default_cache_size(), 65_536);
    assert_eq!(default_pragmas(), Pragmas::default());
    let config = Config::default();
    assert_eq!(config.host, "0.0.0.0");
    assert!(config.buckets.is_empty());
}

#[test]
fn bucket_overrides_win_over_global_values() {
    let config = config_with_bucket();
    assert!(config.read_only(Some("tuned")));
    assert!(!config.read_only(Some("other")));
    assert!(!config.read_only(None));
    assert_eq!(config.journal_mode(Some("tuned")), JournalMode::DELETE);
    assert_eq!(config.journal_mode(Some("other")), JournalMode::WAL);
    assert_eq!(config.synchronous(Some("tuned")), Synchronous::NORMAL);
    assert_eq!(config.temp_store(Some("tuned")), TempStore::FILE);
    assert_eq!(config.cache_size(Some("tuned")), 2048);
    assert_eq!(config.cache_size(None), 65_536);
}

#[test]
fn global_read_only_applies_to_every_bucket() {
    let mut config = Config::default();
    config.read_only = true;
    assert!(config.read_only(Some("any")));
    assert!(config.read_only(None));
}

#[test]
fn pragma_script_renders_effective_values() {
    let config = config_with_bucket();
    assert_eq!(
        config.to_sql(None),
        "PRAGMA journal_mode=WAL;\nPRAGMA synchronous=NORMAL;\nPRAGMA temp_store=MEMORY;\n\
         PRAGMA cache_size=-65536;\nPRAGMA query_only=false;\nPRAGMA foreign_keys=true;\n\
         PRAGMA auto_vacuum=INCREMENTAL;\n"
    );
    assert_eq!(
        config.to_sql(Some("tuned")),
        "PRAGMA journal_mode=DELETE;\nPRAGMA synchronous=NORMAL;\nPRAGMA temp_store=FILE;\n\
         PRAGMA cache_size=-2048;\nPRAGMA query_only=true;\nPRAGMA foreign_keys=true;\n\
         PRAGMA auto_vacuum=INCREMENTAL;\n"
    );
}

#[test]
fn pragma_script_renders_zero_and_largest_cache() {
    let mut config = Config::default();
    config.sqlite.cache_size = 0;
    assert!(config.to_sql(None).contains("PRAGMA cache_size=-0;\n"));
    config.sqlite.cache_size = u32::MAX;
    assert!(config.to_sql(None).contains("PRAGMA cache_size=-4294967295;\n"));
}
