use near_lake_s3::checkpoint::{encode_checkpoint, get_synced_block_height, resume_height, CheckpointError};
use near_lake_s3::config::{init_env_config, parse_accounts, parse_bool, ConfigError};

fn vars(v: &[(&str, &str)]) -> Vec<(String, String)> {
    v.iter().map(|(a, b)| (a.to_string(), b.to_string())).collect()
}

fn full() -> Vec<(&'static str, &'static str)> {
    vec![
        ("START_BLOCK_HEIGHT_FROM_CACHE", "true"),
        ("START_BLOCK_HEIGHT", "+12345"),
        ("REDIS_URL", "redis://localhost:6379"),
        ("PUB_LIST", "blocks"),
        ("ACCOUNTS", "a.near, b.near ,c.near"),
        ("LOG_FILE", "/tmp/indexer.log"),
    ]
}

#[test]
fn checkpoint_is_written_as_decimal() {
    assert_eq!(encode_checkpoint(500), "500");
    assert_eq!(encode_checkpoint(0), "0");
    assert_eq!(encode_checkpoint(u64::MAX), "18446744073709551615");
}

#[test]
fn checkpoint_reads_back() {
    assert_eq!(get_synced_block_height(&None), Ok(None));
    assert_eq!(get_synced_block_height(&Some(encode_checkpoint(77))), Ok(Some(77)));
    assert_eq!(get_synced_block_height(&Some(" 12 ".to_string())), Ok(Some(12)));
    assert_eq!(get_synced_block_height(&Some("abc".to_string())), Err(CheckpointError::Unreadable));
    assert_eq!(get_synced_block_height(&Some("-3".to_string())), Err(CheckpointError::Unreadable));
}

#[test]
fn resume_starts_after_checkpoint() {
    assert_eq!(resume_height(true, 7, &Some(encode_checkpoint(41))), Ok(42));
    assert_eq!(resume_height(true, 7, &None), Ok(7));
    assert_eq!(resume_height(false, 7, &Some(encode_checkpoint(41))), Ok(7));
    assert_eq!(resume_height(true, 7, &Some("x".to_string())), Err(CheckpointError::Unreadable));
    assert_eq!(
        resume_height(true, 7, &Some(encode_checkpoint(u64::MAX))),
        Err(CheckpointError::Exhausted)
    );
}

#[test]
fn settings_with_defaults() {
    let e = init_env_config(&vars(&full())).unwrap();
    assert!(e.start_block_height_from_cache);
    assert_eq!(e.start_block_height, 12345);
    assert_eq!(e.redis_url, "redis://localhost:6379");
    assert_eq!(e.pub_list, "blocks");
    assert_eq!(e.accounts, vec!["a.near", "b.near", "c.near"]);
    assert!(!e.parse_tx_hash);
    assert!(e.test);
    assert_eq!(e.log_file, "/tmp/indexer.log");
    assert_eq!(e.log_level, "info");
}

#[test]
fn settings_with_optional_values() {
    let mut v = full();
    v.push(("PARSE_TX_HASH", "true"));
    v.push(("TEST", "false"));
    v.push(("LOG_LEVEL", "debug"));
    let e = init_env_config(&vars(&v)).unwrap();
    assert!(e.parse_tx_hash);
    assert!(!e.test);
    assert_eq!(e.log_level, "debug");
}

#[test]
fn settings_missing_variable() {
    let v: Vec<_> = full().into_iter().filter(|(k, _)| *k != "PUB_LIST").collect();
    assert_eq!(init_env_config(&vars(&v)).err(), Some(ConfigError::Missing("PUB_LIST".to_string())));
}

#[test]
fn settings_invalid_values() {
    let mut v = full();
    v[1] = ("START_BLOCK_HEIGHT", "12a");
    assert_eq!(
        init_env_config(&vars(&v)).err(),
        Some(ConfigError::Invalid("START_BLOCK_HEIGHT".to_string()))
    );
    let mut v = full();
    v.push(("TEST", "yes"));
    assert_eq!(init_env_config(&vars(&v)).err(), Some(ConfigError::Invalid("TEST".to_string())));
}

#[test]
fn accounts_and_booleans() {
    assert_eq!(parse_accounts(" x.near ,y.near"), vec!["x.near", "y.near"]);
    assert_eq!(parse_accounts(""), vec![""]);
    assert_eq!(parse_bool(&"true".to_string()), Some(true));
    assert_eq!(parse_bool(&"false".to_string()), Some(false));
    assert_eq!(parse_bool(&"True".to_string()), None);
}
