use ersha::columnar::ClickHouseError;
use ersha::dashboard::DashboardError;
use ersha::dispatch::EdgeConnectionError;
use ersha::registry::InMemoryError;
use ersha::rows::{SqliteDeviceError, SqliteDeviceStatusError, SqliteDispatcherError, SqliteReadingError};
use ersha::storage::{MemoryStorageError, MigrationError, SqliteStorageError};

#[test]
fn in_memory_error_reads_not_found() {
    assert_eq!(InMemoryError::NotFound.message(), "not found");
}

#[test]
fn dashboard_errors_name_their_cause() {
    assert_eq!(DashboardError::InvalidUlid("xyz".to_string()).message(), "Invalid ULID: xyz");
    assert_eq!(DashboardError::NotFound("Device".to_string()).message(), "Resource not found: Device");
    assert_eq!(DashboardError::InvalidSensorKind("Wind".to_string()).message(), "Invalid sensor kind: Wind");
    assert_eq!(DashboardError::Validation("bad".to_string()).message(), "Validation error: bad");
    assert_eq!(DashboardError::Internal("disk".to_string()).message(), "Internal server error");
}

#[test]
fn storage_errors_name_their_cause() {
    assert_eq!(MemoryStorageError::MutexPoisoned("p".to_string()).message(), "Mutex poisoned: p");
    assert_eq!(SqliteStorageError::QueryFailed("q".to_string()).message(), "Query failed: q");
    assert_eq!(SqliteStorageError::PoolError("x".to_string()).message(), "Pool error: x");
    assert_eq!(
        SqliteStorageError::TimeConversionFailed("t".to_string()).message(),
        "Time conversion failed: t"
    );
    assert_eq!(MigrationError::Sqlx("s".to_string()).message(), "SQLx error: s");
    assert_eq!(MigrationError::VersionError("v".to_string()).message(), "Version error: v");
}

#[test]
fn registry_errors_write_numbers_in_decimal() {
    assert_eq!(SqliteDispatcherError::InvalidState(7).message(), "invalid dispatcher state: 7");
    assert_eq!(SqliteDispatcherError::NotFound.message(), "not found");
    assert_eq!(SqliteDeviceError::InvalidTimestamp(-5).message(), "invalid timestamp: -5");
    assert_eq!(SqliteDeviceError::InvalidSensorKind(42).message(), "invalid sensor kind: 42");
    assert_eq!(SqliteReadingError::InvalidMetricType(-1).message(), "invalid metric type: -1");
    assert_eq!(SqliteReadingError::Sqlx("boom".to_string()).message(), "sqlx error: boom");
    assert_eq!(SqliteDeviceStatusError::InvalidErrorCode(9).message(), "invalid error code: 9");
    assert_eq!(SqliteDeviceStatusError::Migration("m".to_string()).message(), "migration error: m");
    assert_eq!(ClickHouseError::InvalidDispatcherState(3).message(), "invalid dispatcher state: 3");
    assert_eq!(ClickHouseError::NotFound.message(), "entity not found");
    assert_eq!(ClickHouseError::Client("c".to_string()).message(), "clickhouse error: c");
}

#[test]
fn edge_errors_match_standard_formatting() {
    let got = [1u8, 20, 255, 0, 7];
    assert_eq!(
        EdgeConnectionError::HandshakeMismatch(got).message(),
        format!("Handshake failed: expected HELLO, got {:?}", got)
    );
    assert_eq!(
        EdgeConnectionError::HandshakeMismatch(got).message(),
        "Handshake failed: expected HELLO, got [1, 20, 255, 0, 7]"
    );
    assert_eq!(
        EdgeConnectionError::InvalidPreamble(0xABCD).message(),
        format!("Invalid packet preamble: {:#010X}", 0xABCDu16)
    );
    assert_eq!(EdgeConnectionError::InvalidPreamble(0x0A5E).message(), "Invalid packet preamble: 0x00000A5E");
    assert_eq!(EdgeConnectionError::InvalidPreamble(0).message(), "Invalid packet preamble: 0x00000000");
    assert_eq!(EdgeConnectionError::ChannelClosed.message(), "Internal data channel closed");
    assert_eq!(EdgeConnectionError::Io("eof".to_string()).message(), "IO error: eof");
}

#[test]
fn numbers_are_written_as_display_writes_them() {
    for n in [0i64, 7, 10, 99, 100, 1_700_000_000, -1, -10, i64::MAX, i64::MIN] {
        assert_eq!(
            SqliteDeviceError::InvalidTimestamp(n).message(),
            format!("invalid timestamp: {}", n)
        );
    }
    for n in [0i32, 9, 10, i32::MAX, i32::MIN] {
        assert_eq!(ClickHouseError::InvalidErrorCode(n).message(), format!("invalid error code: {}", n));
    }
}
