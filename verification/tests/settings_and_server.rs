use bottomless::admin::{rows_read_charged, Backend, DatabaseInfo, StatsResponse};
use bottomless::compression::CompressionKind;
use bottomless::config::{parse_number, parse_switch, ConfigError, Options, Settings};
use bottomless::hrana::{
    stmt_shape, BatchError, CloseStreamReq, CloseStreamResp, Col, OpenStreamReq, OpenStreamResp,
    ParamsKind, StmtError,
};
use bottomless::replication::{
    frames_start, Frame, Frames, FramesRequest, ReplicationError, WalIndexMeta, WalIndexMetaData,
};

fn no_settings() -> Settings {
    Settings {
        database_id: None,
        endpoint: None,
        bucket: None,
        batch_interval_secs: None,
        access_key_id: None,
        secret_access_key: None,
        region: None,
        batch_max_frames: None,
        s3_parallel_max: None,
        restore_txn_swap_threshold: None,
        restore_txn_file: None,
        compression: None,
        verify_crc: None,
        snapshot_interval: None,
    }
}

fn text(s: &str) -> Option<String> {
    Some(s.to_string())
}

#[test]
fn default_options() {
    let o = Options::new();
    assert!(o.create_bucket_if_not_exists);
    assert!(o.verify_crc);
    assert_eq!(o.use_compression, CompressionKind::Gzip);
    assert_eq!(o.bucket_name, "bottomless");
    assert_eq!(o.max_frames_per_batch, 500);
    assert_eq!(o.max_batch_interval, 15);
    assert_eq!(o.s3_upload_max_parallelism, 32);
    assert_eq!(o.restore_transaction_page_swap_after, 1000);
    assert_eq!(o.restore_transaction_cache_fpath, ".bottomless.restore");
    assert_eq!(o.snapshot_interval, None);
    assert_eq!(o.db_id, None);
    assert_eq!(o.aws_endpoint, None);
}

#[test]
fn options_from_no_settings_are_the_defaults() {
    let o = Options::from_settings(no_settings()).unwrap();
    let d = Options::new();
    assert_eq!(o.verify_crc, d.verify_crc);
    assert_eq!(o.use_compression, d.use_compression);
    assert_eq!(o.bucket_name, d.bucket_name);
    assert_eq!(o.max_frames_per_batch, d.max_frames_per_batch);
    assert_eq!(o.max_batch_interval, d.max_batch_interval);
    assert_eq!(o.s3_upload_max_parallelism, d.s3_upload_max_parallelism);
    assert_eq!(o.restore_transaction_page_swap_after, d.restore_transaction_page_swap_after);
    assert_eq!(o.restore_transaction_cache_fpath, d.restore_transaction_cache_fpath);
    assert_eq!(o.snapshot_interval, None);
    assert!(o.create_bucket_if_not_exists);
}

#[test]
fn options_from_settings() {
    let mut v = no_settings();
    v.database_id = text("mydb");
    v.endpoint = text("http://localhost:9000");
    v.bucket = text("backups");
    v.batch_interval_secs = text("+7");
    v.access_key_id = text("key");
    v.secret_access_key = text("SECRET-REDACTED");
    v.region = text("eu");
    v.batch_max_frames = text("3");
    v.s3_parallel_max = text("4");
    v.restore_txn_swap_threshold = text("2");
    v.restore_txn_file = text("spill");
    v.compression = text("raw");
    v.verify_crc = text("No");
    v.snapshot_interval = text("3600");
    let o = Options::from_settings(v).unwrap();
    assert_eq!(o.db_id, text("mydb"));
    assert_eq!(o.aws_endpoint, text("http://localhost:9000"));
    assert_eq!(o.bucket_name, "backups");
    assert_eq!(o.max_batch_interval, 7);
    assert_eq!(o.access_key_id, text("key"));
    assert_eq!(o.region, text("eu"));
    assert_eq!(o.max_frames_per_batch, 3);
    assert_eq!(o.s3_upload_max_parallelism, 4);
    assert_eq!(o.restore_transaction_page_swap_after, 2);
    assert_eq!(o.restore_transaction_cache_fpath, "spill");
    assert_eq!(o.use_compression, CompressionKind::Raw);
    assert!(!o.verify_crc);
    assert_eq!(o.snapshot_interval, Some(3600));
}

#[test]
fn first_unreadable_setting_is_the_error() {
    let mut v = no_settings();
    v.batch_interval_secs = text("soon");
    v.batch_max_frames = text("many");
    assert_eq!(Options::from_settings(v).err(), Some(ConfigError::InvalidBatchInterval));
    let mut v = no_settings();
    v.batch_max_frames = text("-1");
    v.verify_crc = text("maybe");
    assert_eq!(Options::from_settings(v).err(), Some(ConfigError::InvalidMaxFramesPerBatch));
    let mut v = no_settings();
    v.s3_parallel_max = text("");
    assert_eq!(Options::from_settings(v).err(), Some(ConfigError::InvalidUploadParallelism));
    let mut v = no_settings();
    v.restore_txn_swap_threshold = text("4294967296");
    assert_eq!(Options::from_settings(v).err(), Some(ConfigError::InvalidPageSwapThreshold));
    let mut v = no_settings();
    v.compression = text("xz");
    assert_eq!(Options::from_settings(v).err(), Some(ConfigError::UnknownCompressionKind));
    let mut v = no_settings();
    v.verify_crc = text("maybe");
    v.snapshot_interval = text("x");
    assert_eq!(Options::from_settings(v).err(), Some(ConfigError::InvalidVerifyCrc));
    let mut v = no_settings();
    v.snapshot_interval = text("1h");
    assert_eq!(Options::from_settings(v).err(), Some(ConfigError::InvalidSnapshotInterval));
}

#[test]
fn switches() {
    for yes in ["yes", "true", "1", "y", "t", "YES", "True", "Y", "T", "tRuE"] {
        assert_eq!(parse_switch(yes), Some(true));
    }
    for no in ["no", "false", "0", "n", "f", "NO", "False", "N", "F"] {
        assert_eq!(parse_switch(no), Some(false));
    }
    for neither in ["", "2", "on", "off", "yes ", " no", "tru", "ye\u{301}s", "\u{212a}"] {
        assert_eq!(parse_switch(neither), None);
    }
}

#[test]
fn numbers() {
    assert_eq!(parse_number("0", u64::MAX), Some(0));
    assert_eq!(parse_number("007", u64::MAX), Some(7));
    assert_eq!(parse_number("18446744073709551615", u64::MAX), Some(u64::MAX));
    assert_eq!(parse_number("18446744073709551616", u64::MAX), None);
    assert_eq!(parse_number("99999999999999999999999", u64::MAX), None);
    assert_eq!(parse_number("500", 500), Some(500));
    assert_eq!(parse_number("501", 500), None);
    assert_eq!(parse_number("", 500), None);
    assert_eq!(parse_number("+5", 500), Some(5));
    assert_eq!(parse_number("+0500", 500), Some(500));
    assert_eq!(parse_number("+501", 500), None);
    assert_eq!(parse_number("+", 500), None);
    assert_eq!(parse_number("++5", 500), None);
    assert_eq!(parse_number("+-5", 500), None);
    assert_eq!(parse_number("5+", 500), None);
    assert_eq!(parse_number("-5", 500), None);
    assert_eq!(parse_number("-0", 500), None);
    assert_eq!(parse_number("5 ", 500), None);
    assert_eq!(parse_number("٥", 500), None);
    assert_eq!(parse_number("9", 5), None);
    assert_eq!(parse_number("0", 0), Some(0));
}

#[test]
fn client_config_asks_for_the_region_first() {
    let mut o = Options::new();
    assert_eq!(o.client_config().err(), Some(ConfigError::RegionNotSet));
    o.region = text("eu");
    assert_eq!(o.client_config().err(), Some(ConfigError::AccessKeyIdNotSet));
    o.access_key_id = text("key");
    assert_eq!(o.client_config().err(), Some(ConfigError::SecretAccessKeyNotSet));
    o.secret_access_key = text("SECRET-REDACTED");
    let c = o.client_config().unwrap();
    assert_eq!(c.region, "eu");
    assert_eq!(c.access_key_id, "key");
    assert_eq!(c.secret_access_key, "SECRET-REDACTED");
}

#[test]
fn frames_are_gathered_in_order() {
    let mut frames = Frames::new();
    assert!(frames.is_empty());
    frames.push(Frame { data: vec![1] });
    frames.push(Frame { data: vec![2, 3] });
    assert!(!frames.is_empty());
    assert_eq!(frames.frames.len(), 2);
    assert_eq!(frames.frames[0].data, vec![1]);
    assert_eq!(frames.frames[1].data, vec![2, 3]);
}

#[test]
fn frames_are_served_from_the_frame_before_the_offset() {
    assert_eq!(frames_start(&FramesRequest { next_offset: 5 }, 9), Some(4));
    assert_eq!(frames_start(&FramesRequest { next_offset: 9 }, 9), Some(8));
    assert_eq!(frames_start(&FramesRequest { next_offset: 10 }, 9), None);
    assert_eq!(frames_start(&FramesRequest { next_offset: 0 }, 0), Some(0));
    assert_eq!(frames_start(&FramesRequest { next_offset: 1 }, 0), None);
}

#[test]
fn replica_meets_its_primary() {
    let id = b"a1a2a3a4-b1b2-c1c2-d1d2-d3d4d5d6d7d8";
    let other = b"a1a2a3a4-b1b2-c1c2-d1d2-d3d4d5d6d7d9";
    let mut meta = WalIndexMeta { data: None };
    assert_eq!(meta.current_frame_no(), None);
    assert!(!meta.set_commit_frame_no(4));
    assert_eq!(meta.merge_hello(b"nonsense"), Err(ReplicationError::InvalidLogId));
    assert_eq!(meta.data, None);
    assert_eq!(meta.merge_hello(id), Ok(()));
    assert_eq!(
        meta.data,
        Some(WalIndexMetaData {
            log_id: 0xa1a2a3a4_b1b2_c1c2_d1d2_d3d4d5d6d7d8,
            committed_frame_no: u64::MAX
        })
    );
    assert_eq!(meta.current_frame_no(), None);
    assert_eq!(meta.merge_hello(id), Ok(()));
    assert_eq!(meta.merge_hello(other), Err(ReplicationError::LogIncompatible));
    assert!(meta.set_commit_frame_no(4));
    assert_eq!(meta.current_frame_no(), Some(4));
    assert_eq!(meta.merge_hello(id), Ok(()));
    assert_eq!(meta.current_frame_no(), Some(4));
}

#[test]
fn batch_error_codes() {
    assert_eq!(BatchError::TransactionTimeout.code(), "TRANSACTION_TIMEOUT");
    assert_eq!(BatchError::TransactionBusy.code(), "TRANSACTION_BUSY");
    assert_eq!(BatchError::TransactionTimeout.message(), "Transaction timed out");
    assert_eq!(
        BatchError::TransactionBusy.message(),
        "Server cannot handle additional transactions"
    );
}

#[test]
fn stream_messages() {
    assert_eq!(OpenStreamReq { stream_id: 3 }, OpenStreamReq { stream_id: 3 });
    assert_ne!(CloseStreamReq { stream_id: 3 }, CloseStreamReq { stream_id: 4 });
    assert_eq!(OpenStreamResp {}, OpenStreamResp {});
    assert_eq!(CloseStreamResp {}, CloseStreamResp {});
    assert_eq!(Col { name: Some("x".to_string()) }.name.unwrap(), "x");
}

#[test]
fn statistics() {
    assert_eq!(rows_read_charged(0, 0), 1);
    assert_eq!(rows_read_charged(0, 3), 0);
    assert_eq!(rows_read_charged(5, 0), 5);
    let s = StatsResponse {
        rows_read_count: 1,
        rows_written_count: 2,
        storage_bytes_used: 3,
        write_requests_delegated: 4,
    };
    assert_eq!(s.rows_written_count, 2);
    assert_eq!(DatabaseInfo { current_frame_no: 9 }.current_frame_no, 9);
    assert_eq!(Backend::Libsql, Backend::Libsql);
}

#[test]
fn shape_of_a_statement() {
    assert_eq!(stmt_shape(0, 0, 0), Err(StmtError::SqlNoStmt));
    assert_eq!(stmt_shape(0, 2, 2), Err(StmtError::SqlNoStmt));
    assert_eq!(stmt_shape(2, 0, 0), Err(StmtError::SqlManyStmts));
    assert_eq!(stmt_shape(usize::MAX, 1, 1), Err(StmtError::SqlManyStmts));
    assert_eq!(stmt_shape(1, 0, 0), Ok(ParamsKind::Positional));
    assert_eq!(stmt_shape(1, 3, 0), Ok(ParamsKind::Positional));
    assert_eq!(stmt_shape(1, 0, 2), Ok(ParamsKind::Named));
    assert_eq!(stmt_shape(1, 1, 1), Err(StmtError::ArgsBothPositionalAndNamed));
}

#[test]
fn statement_error_codes() {
    assert_eq!(StmtError::SqlNoStmt.code(), "SQL_NO_STATEMENT");
    assert_eq!(StmtError::SqlManyStmts.code(), "SQL_MANY_STATEMENTS");
    assert_eq!(StmtError::ArgsBothPositionalAndNamed.code(), "ARGS_BOTH_POSITIONAL_AND_NAMED");
    assert_eq!(StmtError::TransactionTimeout.code(), "TRANSACTION_TIMEOUT");
    assert_eq!(StmtError::TransactionBusy.code(), "TRANSACTION_BUSY");
}
