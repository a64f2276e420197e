//! Decoding the rows of the SQLite registries into domain values: every
//! stored code, identifier and time is checked, and the first field that
//! does not decode is reported.
use vstd::prelude::*;

use crate::codes::{
    encode_error_code, encode_sensor_state, error_code_code, sensor_state_code,
    device_kind_code, device_state_code, dispatcher_state_code, encode_device_kind, encode_device_state,
    encode_dispatcher_state, encode_sensor_kind, sensor_kind_code,
    decode_device_kind, decode_device_state, decode_dispatcher_state, decode_error_code, decode_sensor_kind,
    decode_sensor_state, device_kind_from_code, device_state_from_code, dispatcher_state_from_code,
    error_code_from_code, sensor_kind_from_code, sensor_state_from_code,
};
use crate::idtext::{ulid_from_str, ulid_text, ulid_to_string, ulid_value};
use crate::model::{
    text_view, Device, DeviceError, DeviceErrorView, DeviceId, DeviceView, DeviceKind, DeviceState, Dispatcher, DispatcherId,
    FloatBits, H3Cell, Percentage, Sensor, SensorId, SensorKind, SensorMetric, SensorState, SensorStatus,
    Timestamp, copy_text, SensorReading, ReadingId, DeviceStatus, DeviceStatusView, StatusId, DeviceErrorCode,
};
use crate::text::{concat, decimal, owned, with_number};

verus! {

// ---------------------------------------------------------------------------
// Times
// ---------------------------------------------------------------------------

/// The earliest second `jiff` can represent (`Timestamp::MIN`).
pub const MIN_SECOND: i64 = -377705023201;

/// The latest second `jiff` can represent (`Timestamp::MAX`).
pub const MAX_SECOND: i64 = 253402207200;

/// The instant `second` seconds after the epoch, if `jiff` can represent it.
pub open spec fn instant_of_second(second: i64) -> Option<Timestamp> {
    if MIN_SECOND <= second <= MAX_SECOND {
        Some(Timestamp { second, nanosecond: 0 })
    } else {
        None
    }
}

/// The instant `second` seconds after the epoch, made by
/// `jiff::Timestamp::from_second`. Claimed of it, as the crate documents:
/// it fails exactly when the second lies outside `Timestamp::MIN` and
/// `Timestamp::MAX` (whose seconds are the two constants above), and
/// otherwise gives that second with no fraction.
#[verifier::external_body]
pub(crate) fn timestamp_from_second(second: i64) -> (r: Option<Timestamp>)
    ensures
        r == instant_of_second(second),
{
    match jiff::Timestamp::from_second(second) {
        Ok(t) => Some(Timestamp { second: t.as_second(), nanosecond: t.subsec_nanosecond() }),
        Err(_) => None,
    }
}

// ---------------------------------------------------------------------------
// Metric values
// ---------------------------------------------------------------------------

/// A metric value as a row holds it: the bits of the stored number, and
/// that number converted to a whole percentage (saturating, as `as u8`
/// converts).
#[derive(Debug, Clone, Copy, PartialEq, Eq, Structural)]
pub struct RawMetricValue {
    pub bits: FloatBits,
    pub whole: u8,
}

/// Whether these bits are a NaN of the 64-bit floating-point format.
pub open spec fn is_nan_bits(bits: u64) -> bool {
    (bits >> 52u64) & 0x7ffu64 == 0x7ffu64 && bits & 0xf_ffff_ffff_ffffu64 != 0
}

/// Whether a metric type stores a floating-point value.
pub open spec fn is_float_metric_code(code: i32) -> bool {
    code == 1 || code == 2 || code == 4
}

/// A stored whole number as a percentage: a percentage lies between 0 and
/// 100, so a larger stored number reads as 100.
pub open spec fn percent_of(whole: u8) -> Percentage {
    Percentage(if whole > 100 { 100u8 } else { whole })
}

/// Whether a metric's percentage, if it has one, lies between 0 and 100.
pub open spec fn metric_in_range(m: SensorMetric) -> bool {
    match m {
        SensorMetric::SoilMoisture { value } => value.0 <= 100,
        SensorMetric::Humidity { value } => value.0 <= 100,
        _ => true,
    }
}

/// The metric stored under `code` with value `v`.
pub open spec fn metric_of(code: i32, v: RawMetricValue) -> Option<SensorMetric> {
    if code == 0 {
        Some(SensorMetric::SoilMoisture { value: percent_of(v.whole) })
    } else if code == 1 {
        Some(SensorMetric::SoilTemp { value: v.bits })
    } else if code == 2 {
        Some(SensorMetric::AirTemp { value: v.bits })
    } else if code == 3 {
        Some(SensorMetric::Humidity { value: percent_of(v.whole) })
    } else if code == 4 {
        Some(SensorMetric::Rainfall { value: v.bits })
    } else {
        None
    }
}

/// Whether the bits are a NaN, tested on the bits themselves.
pub fn bits_are_nan(bits: u64) -> (b: bool)
    ensures
        b == is_nan_bits(bits),
{
    (bits >> 52u64) & 0x7ffu64 == 0x7ffu64 && bits & 0xf_ffff_ffff_ffffu64 != 0
}

/// The metric stored under `code` with value `v`; `None` for an unknown
/// code. A percentage above 100 reads as 100. A floating-point metric
/// must not hold a NaN.
pub fn decode_metric(code: i32, v: RawMetricValue) -> (r: Option<SensorMetric>)
    requires
        is_float_metric_code(code) ==> !is_nan_bits(v.bits.0),
    ensures
        r == metric_of(code, v),
{
    if code == 0 {
        Some(SensorMetric::SoilMoisture { value: Percentage(if v.whole > 100 { 100 } else { v.whole }) })
    } else if code == 1 {
        Some(SensorMetric::SoilTemp { value: v.bits })
    } else if code == 2 {
        Some(SensorMetric::AirTemp { value: v.bits })
    } else if code == 3 {
        Some(SensorMetric::Humidity { value: Percentage(if v.whole > 100 { 100 } else { v.whole }) })
    } else if code == 4 {
        Some(SensorMetric::Rainfall { value: v.bits })
    } else {
        None
    }
}

/// How a metric is stored: its type code and its value, a whole
/// percentage or the bits of a floating-point number.
#[derive(Debug, Clone, Copy, PartialEq, Eq, Structural)]
pub enum StoredMetricValue {
    Whole(u8),
    Float(FloatBits),
}

/// The type code and value under which a metric is stored.
pub open spec fn stored_metric(m: SensorMetric) -> (i32, StoredMetricValue) {
    match m {
        SensorMetric::SoilMoisture { value } => (0, StoredMetricValue::Whole(value.0)),
        SensorMetric::SoilTemp { value } => (1, StoredMetricValue::Float(value)),
        SensorMetric::AirTemp { value } => (2, StoredMetricValue::Float(value)),
        SensorMetric::Humidity { value } => (3, StoredMetricValue::Whole(value.0)),
        SensorMetric::Rainfall { value } => (4, StoredMetricValue::Float(value)),
    }
}

/// Splits a metric into the type code and value it is stored under.
pub fn disect_metric(metric: SensorMetric) -> (r: (i32, StoredMetricValue))
    ensures
        r == stored_metric(metric),
{
    match metric {
        SensorMetric::SoilMoisture { value } => (0, StoredMetricValue::Whole(value.0)),
        SensorMetric::SoilTemp { value } => (1, StoredMetricValue::Float(value)),
        SensorMetric::AirTemp { value } => (2, StoredMetricValue::Float(value)),
        SensorMetric::Humidity { value } => (3, StoredMetricValue::Whole(value.0)),
        SensorMetric::Rainfall { value } => (4, StoredMetricValue::Float(value)),
    }
}

/// A stored metric reads back as itself, given that its value reads back
/// as what was stored and that its percentage, if any, is at most 100.
pub proof fn law_metric_storage_roundtrip(m: SensorMetric, v: RawMetricValue)
    requires
        metric_in_range(m),
        match stored_metric(m).1 {
            StoredMetricValue::Whole(p) => v.whole == p,
            StoredMetricValue::Float(b) => v.bits == b,
        },
    ensures
        metric_of(stored_metric(m).0, v) == Some(m),
{
}

// ---------------------------------------------------------------------------
// Errors
// ---------------------------------------------------------------------------

/// Why the dispatcher registry failed.
#[derive(Debug)]
pub enum SqliteDispatcherError {
    /// The database reported an error (its message).
    Sqlx(String),
    /// Migrating the schema failed (its message).
    Migration(String),
    InvalidUlid(String),
    InvalidTimestamp(i64),
    InvalidState(i32),
    NotFound,
}

/// The error as text: what was wrong, then the value or detail it carries.
pub open spec fn sqlite_dispatcher_error_text(e: SqliteDispatcherError) -> Seq<char> {
    match e {
        SqliteDispatcherError::Sqlx(m) => "sqlx error: "@ + m@,
        SqliteDispatcherError::Migration(m) => "migration error: "@ + m@,
        SqliteDispatcherError::InvalidUlid(m) => "invalid ULID: "@ + m@,
        SqliteDispatcherError::InvalidTimestamp(n) => "invalid timestamp: "@ + decimal(n as int),
        SqliteDispatcherError::InvalidState(n) => "invalid dispatcher state: "@ + decimal(n as int),
        SqliteDispatcherError::NotFound => "not found"@,
    }
}

impl SqliteDispatcherError {
    /// The error as text.
    pub fn message(&self) -> (s: String)
        ensures
            s@ == sqlite_dispatcher_error_text(*self),
    {
        match self {
            SqliteDispatcherError::Sqlx(m) => concat("sqlx error: ", m.as_str()),
            SqliteDispatcherError::Migration(m) => concat("migration error: ", m.as_str()),
            SqliteDispatcherError::InvalidUlid(m) => concat("invalid ULID: ", m.as_str()),
            SqliteDispatcherError::InvalidTimestamp(n) => with_number("invalid timestamp: ", *n as i64),
            SqliteDispatcherError::InvalidState(n) => with_number("invalid dispatcher state: ", *n as i64),
            SqliteDispatcherError::NotFound => owned("not found"),
        }
    }
}

/// Why the device registry failed.
#[derive(Debug)]
pub enum SqliteDeviceError {
    /// The database reported an error (its message).
    Sqlx(String),
    /// Migrating the schema failed (its message).
    Migration(String),
    InvalidUlid(String),
    InvalidTimestamp(i64),
    InvalidState(i32),
    InvalidDeviceKind(i32),
    InvalidMetricType(i32),
    InvalidSensorKind(i32),
    NotFound,
}

/// The error as text: what was wrong, then the value or detail it carries.
pub open spec fn sqlite_device_error_text(e: SqliteDeviceError) -> Seq<char> {
    match e {
        SqliteDeviceError::Sqlx(m) => "sqlx error: "@ + m@,
        SqliteDeviceError::Migration(m) => "migration error: "@ + m@,
        SqliteDeviceError::InvalidUlid(m) => "invalid ULID: "@ + m@,
        SqliteDeviceError::InvalidTimestamp(n) => "invalid timestamp: "@ + decimal(n as int),
        SqliteDeviceError::InvalidState(n) => "invalid device state: "@ + decimal(n as int),
        SqliteDeviceError::InvalidDeviceKind(n) => "invalid device kind: "@ + decimal(n as int),
        SqliteDeviceError::InvalidMetricType(n) => "invalid metric type: "@ + decimal(n as int),
        SqliteDeviceError::InvalidSensorKind(n) => "invalid sensor kind: "@ + decimal(n as int),
        SqliteDeviceError::NotFound => "not found"@,
    }
}

impl SqliteDeviceError {
    /// The error as text.
    pub fn message(&self) -> (s: String)
        ensures
            s@ == sqlite_device_error_text(*self),
    {
        match self {
            SqliteDeviceError::Sqlx(m) => concat("sqlx error: ", m.as_str()),
            SqliteDeviceError::Migration(m) => concat("migration error: ", m.as_str()),
            SqliteDeviceError::InvalidUlid(m) => concat("invalid ULID: ", m.as_str()),
            SqliteDeviceError::InvalidTimestamp(n) => with_number("invalid timestamp: ", *n as i64),
            SqliteDeviceError::InvalidState(n) => with_number("invalid device state: ", *n as i64),
            SqliteDeviceError::InvalidDeviceKind(n) => with_number("invalid device kind: ", *n as i64),
            SqliteDeviceError::InvalidMetricType(n) => with_number("invalid metric type: ", *n as i64),
            SqliteDeviceError::InvalidSensorKind(n) => with_number("invalid sensor kind: ", *n as i64),
            SqliteDeviceError::NotFound => owned("not found"),
        }
    }
}

/// Why the reading registry failed.
#[derive(Debug)]
pub enum SqliteReadingError {
    /// The database reported an error (its message).
    Sqlx(String),
    /// Migrating the schema failed (its message).
    Migration(String),
    InvalidUlid(String),
    InvalidTimestamp(i64),
    InvalidMetricType(i32),
}

/// The error as text: what was wrong, then the value or detail it carries.
pub open spec fn sqlite_reading_error_text(e: SqliteReadingError) -> Seq<char> {
    match e {
        SqliteReadingError::Sqlx(m) => "sqlx error: "@ + m@,
        SqliteReadingError::Migration(m) => "migration error: "@ + m@,
        SqliteReadingError::InvalidUlid(m) => "invalid ULID: "@ + m@,
        SqliteReadingError::InvalidTimestamp(n) => "invalid timestamp: "@ + decimal(n as int),
        SqliteReadingError::InvalidMetricType(n) => "invalid metric type: "@ + decimal(n as int),
    }
}

impl SqliteReadingError {
    /// The error as text.
    pub fn message(&self) -> (s: String)
        ensures
            s@ == sqlite_reading_error_text(*self),
    {
        match self {
            SqliteReadingError::Sqlx(m) => concat("sqlx error: ", m.as_str()),
            SqliteReadingError::Migration(m) => concat("migration error: ", m.as_str()),
            SqliteReadingError::InvalidUlid(m) => concat("invalid ULID: ", m.as_str()),
            SqliteReadingError::InvalidTimestamp(n) => with_number("invalid timestamp: ", *n as i64),
            SqliteReadingError::InvalidMetricType(n) => with_number("invalid metric type: ", *n as i64),
        }
    }
}

/// Why the device status registry failed.
#[derive(Debug)]
pub enum SqliteDeviceStatusError {
    /// The database reported an error (its message).
    Sqlx(String),
    /// Migrating the schema failed (its message).
    Migration(String),
    InvalidUlid(String),
    InvalidTimestamp(i64),
    InvalidErrorCode(i32),
    InvalidSensorState(i32),
}

/// The error as text: what was wrong, then the value or detail it carries.
pub open spec fn sqlite_device_status_error_text(e: SqliteDeviceStatusError) -> Seq<char> {
    match e {
        SqliteDeviceStatusError::Sqlx(m) => "sqlx error: "@ + m@,
        SqliteDeviceStatusError::Migration(m) => "migration error: "@ + m@,
        SqliteDeviceStatusError::InvalidUlid(m) => "invalid ULID: "@ + m@,
        SqliteDeviceStatusError::InvalidTimestamp(n) => "invalid timestamp: "@ + decimal(n as int),
        SqliteDeviceStatusError::InvalidErrorCode(n) => "invalid error code: "@ + decimal(n as int),
        SqliteDeviceStatusError::InvalidSensorState(n) => "invalid sensor state: "@ + decimal(n as int),
    }
}

impl SqliteDeviceStatusError {
    /// The error as text.
    pub fn message(&self) -> (s: String)
        ensures
            s@ == sqlite_device_status_error_text(*self),
    {
        match self {
            SqliteDeviceStatusError::Sqlx(m) => concat("sqlx error: ", m.as_str()),
            SqliteDeviceStatusError::Migration(m) => concat("migration error: ", m.as_str()),
            SqliteDeviceStatusError::InvalidUlid(m) => concat("invalid ULID: ", m.as_str()),
            SqliteDeviceStatusError::InvalidTimestamp(n) => with_number("invalid timestamp: ", *n as i64),
            SqliteDeviceStatusError::InvalidErrorCode(n) => with_number("invalid error code: ", *n as i64),
            SqliteDeviceStatusError::InvalidSensorState(n) => with_number("invalid sensor state: ", *n as i64),
        }
    }
}

// ---------------------------------------------------------------------------
// Dispatchers
// ---------------------------------------------------------------------------

/// A row of the dispatcher table.
#[derive(Debug, Clone)]
pub struct DispatcherRow {
    pub id: String,
    pub state: i32,
    pub location: i64,
    pub provisioned_at: i64,
}

/// A stored location cell reads back as the same 64 bits.
pub open spec fn cell_of(location: i64) -> H3Cell {
    H3Cell(location as u64)
}

/// What a dispatcher row decodes to: its identifier, time and state are
/// checked in that order, and the first that fails is reported.
pub open spec fn dispatcher_row_decodes(row: DispatcherRow, r: Result<Dispatcher, SqliteDispatcherError>) -> bool {
    match ulid_value(row.id@) {
        None => (r matches Err(SqliteDispatcherError::InvalidUlid(t)) && t@ == row.id@),
        Some(u) => match instant_of_second(row.provisioned_at) {
            None => r == Err::<Dispatcher, SqliteDispatcherError>(SqliteDispatcherError::InvalidTimestamp(row.provisioned_at)),
            Some(t) => match dispatcher_state_from_code(row.state) {
                None => r == Err::<Dispatcher, SqliteDispatcherError>(SqliteDispatcherError::InvalidState(row.state)),
                Some(st) => r == Ok::<Dispatcher, SqliteDispatcherError>(
                    Dispatcher { id: DispatcherId(u), location: cell_of(row.location), state: st, provisioned_at: t },
                ),
            },
        },
    }
}

/// Decodes a dispatcher row.
pub fn decode_dispatcher_row(row: &DispatcherRow) -> (r: Result<Dispatcher, SqliteDispatcherError>)
    ensures
        dispatcher_row_decodes(*row, r),
{
    let id = match ulid_from_str(row.id.as_str()) {
        Some(u) => u,
        None => return Err(SqliteDispatcherError::InvalidUlid(row.id.clone())),
    };
    let provisioned_at = match timestamp_from_second(row.provisioned_at) {
        Some(t) => t,
        None => return Err(SqliteDispatcherError::InvalidTimestamp(row.provisioned_at)),
    };
    let state = match decode_dispatcher_state(row.state) {
        Some(s) => s,
        None => return Err(SqliteDispatcherError::InvalidState(row.state)),
    };
    Ok(Dispatcher { id: DispatcherId(id), location: H3Cell(row.location as u64), state, provisioned_at })
}

// ---------------------------------------------------------------------------
// Devices and their sensors
// ---------------------------------------------------------------------------

/// A row of the sensor table.
#[derive(Debug, Clone)]
pub struct SensorRow {
    pub id: String,
    pub kind: i32,
    pub metric_type: i32,
    pub metric_value: RawMetricValue,
}

/// Whether a sensor row's value can be read: once its identifier and kind
/// have decoded, a floating-point metric holds no NaN.
pub open spec fn sensor_row_readable(row: SensorRow) -> bool {
    ulid_value(row.id@) is Some && sensor_kind_from_code(row.kind) is Some && is_float_metric_code(
        row.metric_type,
    ) ==> !is_nan_bits(row.metric_value.bits.0)
}

/// The sensor a row holds, if every field decodes.
pub open spec fn sensor_of_row(row: SensorRow) -> Option<Sensor> {
    match ulid_value(row.id@) {
        None => None,
        Some(u) => match sensor_kind_from_code(row.kind) {
            None => None,
            Some(k) => match metric_of(row.metric_type, row.metric_value) {
                None => None,
                Some(m) => Some(Sensor { id: SensorId(u), kind: k, metric: m }),
            },
        },
    }
}

/// The error reported for a sensor row that does not decode: identifier,
/// kind and metric type are checked in that order.
pub open spec fn is_sensor_row_error(row: SensorRow, e: SqliteDeviceError) -> bool {
    match ulid_value(row.id@) {
        None => (e matches SqliteDeviceError::InvalidUlid(t) && t@ == row.id@),
        Some(_) => match sensor_kind_from_code(row.kind) {
            None => (e matches SqliteDeviceError::InvalidSensorKind(c) && c == row.kind),
            Some(_) => (e matches SqliteDeviceError::InvalidMetricType(c) && c == row.metric_type),
        },
    }
}

/// What a sensor row decodes to.
pub open spec fn sensor_row_decodes(row: SensorRow, r: Result<Sensor, SqliteDeviceError>) -> bool {
    match sensor_of_row(row) {
        Some(s) => r == Ok::<Sensor, SqliteDeviceError>(s),
        None => (r matches Err(e) && is_sensor_row_error(row, e)),
    }
}

/// Decodes a sensor row.
pub fn map_row_to_sensor(row: &SensorRow) -> (r: Result<Sensor, SqliteDeviceError>)
    requires
        sensor_row_readable(*row),
    ensures
        sensor_row_decodes(*row, r),
{
    let id = match ulid_from_str(row.id.as_str()) {
        Some(u) => u,
        None => return Err(SqliteDeviceError::InvalidUlid(row.id.clone())),
    };
    let kind = match decode_sensor_kind(row.kind) {
        Some(k) => k,
        None => return Err(SqliteDeviceError::InvalidSensorKind(row.kind)),
    };
    let metric = match decode_metric(row.metric_type, row.metric_value) {
        Some(m) => m,
        None => return Err(SqliteDeviceError::InvalidMetricType(row.metric_type)),
    };
    Ok(Sensor { id: SensorId(id), kind, metric })
}

/// A row of the device table.
#[derive(Debug, Clone)]
pub struct DeviceRow {
    pub id: String,
    pub kind: i32,
    pub state: i32,
    pub location: i64,
    pub manufacturer: Option<String>,
    pub provisioned_at: i64,
}

/// What a device row of a listing decodes to (without its sensors, which
/// are attached afterwards): identifier, kind and state are checked in
/// that order.
pub open spec fn device_row_decodes(row: DeviceRow, r: Result<Device, SqliteDeviceError>) -> bool {
    match ulid_value(row.id@) {
        None => (r matches Err(SqliteDeviceError::InvalidUlid(t)) && t@ == row.id@),
        Some(u) => match device_kind_from_code(row.kind) {
            None => (r matches Err(SqliteDeviceError::InvalidDeviceKind(c)) && c == row.kind),
            Some(k) => match device_state_from_code(row.state) {
                None => (r matches Err(SqliteDeviceError::InvalidState(c)) && c == row.state),
                Some(st) => (r matches Ok(d) && d@ == DeviceView {
                    id: DeviceId(u),
                    kind: k,
                    state: st,
                    location: cell_of(row.location),
                    manufacturer: text_view(row.manufacturer),
                    provisioned_at: Timestamp { second: row.provisioned_at, nanosecond: 0 },
                    sensors: Seq::empty(),
                }),
            },
        },
    }
}

/// Whether a device row's time can be read: once its identifier, kind and
/// state have decoded, the time lies in the range `jiff` represents.
pub open spec fn device_row_readable(row: DeviceRow) -> bool {
    ulid_value(row.id@) is Some && device_kind_from_code(row.kind) is Some && device_state_from_code(row.state)
        is Some ==> instant_of_second(row.provisioned_at) is Some
}

/// Decodes a device row of a listing. Its time must be one `jiff` can
/// represent.
pub fn map_row_to_device(row: &DeviceRow) -> (r: Result<Device, SqliteDeviceError>)
    requires
        device_row_readable(*row),
    ensures
        device_row_decodes(*row, r),
{
    let id = match ulid_from_str(row.id.as_str()) {
        Some(u) => u,
        None => return Err(SqliteDeviceError::InvalidUlid(row.id.clone())),
    };
    let kind = match decode_device_kind(row.kind) {
        Some(k) => k,
        None => return Err(SqliteDeviceError::InvalidDeviceKind(row.kind)),
    };
    let state = match decode_device_state(row.state) {
        Some(s) => s,
        None => return Err(SqliteDeviceError::InvalidState(row.state)),
    };
    let provisioned_at = match timestamp_from_second(row.provisioned_at) {
        Some(t) => t,
        None => Timestamp { second: 0, nanosecond: 0 },
    };
    let d = Device {
        id: DeviceId(id),
        kind,
        state,
        location: H3Cell(row.location as u64),
        manufacturer: copy_text(&row.manufacturer),
        provisioned_at,
        sensors: Vec::new(),
    };
    assert(d@.sensors =~= Seq::<Sensor>::empty());
    Ok(d)
}


/// Whether `i` is the first row that does not decode.
pub open spec fn first_bad_sensor_row(rows: Seq<SensorRow>, i: int) -> bool {
    &&& 0 <= i < rows.len()
    &&& sensor_of_row(rows[i]) is None
    &&& forall|k: int| 0 <= k < i ==> #[trigger] sensor_of_row(rows[k]) is Some
}

/// The sensors the rows hold, when every row decodes.
pub open spec fn sensors_of_rows(rows: Seq<SensorRow>) -> Seq<Sensor> {
    rows.map_values(|r: SensorRow| sensor_of_row(r)->0)
}

/// What a device and its sensor rows decode to when the device is fetched
/// by id: the sensors first, in order, then the time, state and kind of
/// the device row.
pub open spec fn device_get_decodes(
    id: DeviceId,
    row: DeviceRow,
    rows: Seq<SensorRow>,
    r: Result<Device, SqliteDeviceError>,
) -> bool {
    if exists|i: int| 0 <= i < rows.len() && #[trigger] sensor_of_row(rows[i]) is None {
        let i = choose|i: int| first_bad_sensor_row(rows, i);
        r matches Err(e) && is_sensor_row_error(rows[i], e)
    } else {
        match instant_of_second(row.provisioned_at) {
            None => (r matches Err(SqliteDeviceError::InvalidTimestamp(s)) && s == row.provisioned_at),
            Some(t) => match device_state_from_code(row.state) {
                None => (r matches Err(SqliteDeviceError::InvalidState(c)) && c == row.state),
                Some(st) => match device_kind_from_code(row.kind) {
                    None => (r matches Err(SqliteDeviceError::InvalidDeviceKind(c)) && c == row.kind),
                    Some(k) => (r matches Ok(d) && d@ == DeviceView {
                        id,
                        kind: k,
                        state: st,
                        location: cell_of(row.location),
                        manufacturer: text_view(row.manufacturer),
                        provisioned_at: t,
                        sensors: sensors_of_rows(rows),
                    }),
                },
            },
        }
    }
}

/// Whether sensor rows can be read one after another: each row that is
/// reached (every row before it decoded) is readable.
pub open spec fn sensor_rows_readable(rows: Seq<SensorRow>) -> bool {
    forall|i: int|
        0 <= i < rows.len() && (forall|k: int| 0 <= k < i ==> #[trigger] sensor_of_row(rows[k]) is Some)
            ==> sensor_row_readable(#[trigger] rows[i])
}

/// Decodes a device fetched by id together with its sensor rows.
pub fn device_from_rows(id: DeviceId, row: &DeviceRow, sensor_rows: &Vec<SensorRow>) -> (r: Result<
    Device,
    SqliteDeviceError,
>)
    requires
        sensor_rows_readable(sensor_rows@),
    ensures
        device_get_decodes(id, *row, sensor_rows@, r),
{
    let ghost rows = sensor_rows@;
    let mut sensors: Vec<Sensor> = Vec::new();
    let mut i: usize = 0;
    while i < sensor_rows.len()
        invariant
            i <= rows.len(),
            rows == sensor_rows@,
            sensor_rows_readable(rows),
            forall|k: int| 0 <= k < i ==> #[trigger] sensor_of_row(rows[k]) is Some,
            sensors@ == sensors_of_rows(rows.take(i as int)),
        decreases rows.len() - i,
    {
        match map_row_to_sensor(&sensor_rows[i]) {
            Ok(s) => {
                sensors.push(s);
                proof {
                    assert(sensors@ =~= sensors_of_rows(rows.take(i + 1)));
                }
            },
            Err(e) => {
                proof {
                    assert(first_bad_sensor_row(rows, i as int));
                    let j = choose|j: int| first_bad_sensor_row(rows, j);
                    assert(first_bad_sensor_row(rows, j));
                    assert(j == i) by {
                        if j < i {
                            assert(sensor_of_row(rows[j]) is Some);
                        }
                        if j > i {
                            assert(sensor_of_row(rows[i as int]) is Some);
                        }
                    }
                }
                return Err(e);
            },
        }
        i = i + 1;
    }
    assert(rows.take(i as int) =~= rows);
    let provisioned_at = match timestamp_from_second(row.provisioned_at) {
        Some(t) => t,
        None => return Err(SqliteDeviceError::InvalidTimestamp(row.provisioned_at)),
    };
    let state = match decode_device_state(row.state) {
        Some(s) => s,
        None => return Err(SqliteDeviceError::InvalidState(row.state)),
    };
    let kind = match decode_device_kind(row.kind) {
        Some(k) => k,
        None => return Err(SqliteDeviceError::InvalidDeviceKind(row.kind)),
    };
    Ok(Device {
        id,
        kind,
        state,
        location: H3Cell(row.location as u64),
        manufacturer: copy_text(&row.manufacturer),
        provisioned_at,
        sensors,
    })
}


/// The abstract content of a list of devices.
pub open spec fn device_views(ds: Seq<Device>) -> Seq<DeviceView> {
    ds.map_values(|d: Device| d@)
}

/// Whether `i` is the first device whose identifier is written `t`.
pub open spec fn first_device_written(ds: Seq<DeviceView>, t: Seq<char>, i: int) -> bool {
    &&& 0 <= i < ds.len()
    &&& ulid_text(ds[i].id.0) == t
    &&& forall|k: int| 0 <= k < i ==> ulid_text(#[trigger] ds[k].id.0) != t
}

/// `ds` after attaching sensor `s` to the first device whose identifier is
/// written `t` (unchanged when there is none).
pub open spec fn attach_one(ds: Seq<DeviceView>, t: Seq<char>, s: Sensor) -> Seq<DeviceView> {
    if exists|i: int| 0 <= i < ds.len() && ulid_text(#[trigger] ds[i].id.0) == t {
        let i = choose|i: int| first_device_written(ds, t, i);
        ds.update(i, DeviceView { sensors: ds[i].sensors.push(s), ..ds[i] })
    } else {
        ds
    }
}

/// `ds` after attaching each sensor, in order, to the device it names.
pub open spec fn attach_all(ds: Seq<DeviceView>, found: Seq<(Seq<char>, Sensor)>) -> Seq<DeviceView>
    decreases found.len(),
{
    if found.len() == 0 {
        ds
    } else {
        let last = found.last();
        attach_one(attach_all(ds, found.drop_last()), last.0, last.1)
    }
}

/// The abstract content of sensor rows tagged with the device they belong to.
pub open spec fn tagged_views(found: Seq<(String, Sensor)>) -> Seq<(Seq<char>, Sensor)> {
    found.map_values(|p: (String, Sensor)| (p.0@, p.1))
}

/// Attaches each sensor, in order, to the first device whose identifier is
/// written as the text it is tagged with; a sensor that names no device is
/// dropped.
pub fn attach_sensors(devices: Vec<Device>, found: Vec<(String, Sensor)>) -> (r: Vec<Device>)
    ensures
        device_views(r@) == attach_all(device_views(devices@), tagged_views(found@)),
{
    let ghost tags = tagged_views(found@);
    let ghost start = device_views(devices@);
    let mut devices = devices;
    let mut j: usize = 0;
    while j < found.len()
        invariant
            j <= found@.len(),
            tags == tagged_views(found@),
            device_views(devices@) == attach_all(start, tags.take(j as int)),
        decreases found@.len() - j,
    {
        let ghost ds = device_views(devices@);
        let t = &found[j].0;
        let s = found[j].1;
        let mut i: usize = 0;
        let mut hit: Option<usize> = None;
        while i < devices.len() && hit.is_none()
            invariant
                i <= devices@.len(),
                ds == device_views(devices@),
                hit matches Some(h) ==> first_device_written(ds, t@, h as int),
                hit is None ==> forall|k: int| 0 <= k < i ==> ulid_text(#[trigger] ds[k].id.0) != t@,
            decreases devices@.len() - i + if hit is None { 1int } else { 0int },
        {
            let text = ulid_to_string(devices[i].id.0);
            if text == *t {
                hit = Some(i);
            } else {
                i = i + 1;
            }
        }
        proof {
            assert(tags.take(j + 1).drop_last() =~= tags.take(j as int));
            assert(tags.take(j + 1).last() == (t@, s));
        }
        match hit {
            Some(h) => {
                proof {
                    let c = choose|c: int| first_device_written(ds, t@, c);
                    assert(first_device_written(ds, t@, c));
                    assert(c == h) by {
                        if c < h {
                            assert(ulid_text(ds[c].id.0) != t@);
                        }
                        if c > h {
                            assert(ulid_text(ds[h as int].id.0) != t@);
                        }
                    }
                }
                let mut d = devices.remove(h);
                let ghost dv = d@;
                d.sensors.push(s);
                devices.insert(h, d);
                proof {
                    assert(device_views(devices@) =~= ds.update(
                        h as int,
                        DeviceView { sensors: dv.sensors.push(s), ..dv },
                    ));
                }
            },
            None => {},
        }
        j = j + 1;
    }
    assert(tags.take(j as int) =~= tags);
    devices
}

// ---------------------------------------------------------------------------
// Readings
// ---------------------------------------------------------------------------

/// A row of the reading table.
#[derive(Debug, Clone)]
pub struct ReadingRow {
    pub id: String,
    pub device_id: String,
    pub dispatcher_id: String,
    pub sensor_id: String,
    pub metric_type: i32,
    pub metric_value: RawMetricValue,
    pub location: i64,
    pub confidence: i32,
    pub timestamp: i64,
}

/// Whether a reading row's value can be read: once its four identifiers
/// have decoded, a floating-point metric holds no NaN.
pub open spec fn reading_row_readable(row: ReadingRow) -> bool {
    ulid_value(row.id@) is Some && ulid_value(row.device_id@) is Some && ulid_value(row.dispatcher_id@)
        is Some && ulid_value(row.sensor_id@) is Some && is_float_metric_code(row.metric_type)
        ==> !is_nan_bits(row.metric_value.bits.0)
}

/// What a reading row decodes to: the four identifiers, the metric and the
/// time are checked in that order.
pub open spec fn reading_row_decodes(row: ReadingRow, r: Result<SensorReading, SqliteReadingError>) -> bool {
    match ulid_value(row.id@) {
        None => (r matches Err(SqliteReadingError::InvalidUlid(t)) && t@ == row.id@),
        Some(id) => match ulid_value(row.device_id@) {
            None => (r matches Err(SqliteReadingError::InvalidUlid(t)) && t@ == row.device_id@),
            Some(dev) => match ulid_value(row.dispatcher_id@) {
                None => (r matches Err(SqliteReadingError::InvalidUlid(t)) && t@ == row.dispatcher_id@),
                Some(disp) => match ulid_value(row.sensor_id@) {
                    None => (r matches Err(SqliteReadingError::InvalidUlid(t)) && t@ == row.sensor_id@),
                    Some(sen) => match metric_of(row.metric_type, row.metric_value) {
                        None => (r matches Err(SqliteReadingError::InvalidMetricType(c)) && c == row.metric_type),
                        Some(m) => match instant_of_second(row.timestamp) {
                            None => (r matches Err(SqliteReadingError::InvalidTimestamp(x)) && x == row.timestamp),
                            Some(t) => (r matches Ok(v) && v == SensorReading {
                                id: ReadingId(id),
                                device_id: DeviceId(dev),
                                dispatcher_id: DispatcherId(disp),
                                sensor_id: SensorId(sen),
                                metric: m,
                                location: cell_of(row.location),
                                confidence: Percentage(row.confidence as u8),
                                timestamp: t,
                            }),
                        },
                    },
                },
            },
        },
    }
}

/// Decodes a reading row.
pub fn map_row_to_reading(row: &ReadingRow) -> (r: Result<SensorReading, SqliteReadingError>)
    requires
        reading_row_readable(*row),
    ensures
        reading_row_decodes(*row, r),
{
    let id = match ulid_from_str(row.id.as_str()) {
        Some(u) => u,
        None => return Err(SqliteReadingError::InvalidUlid(row.id.clone())),
    };
    let device_id = match ulid_from_str(row.device_id.as_str()) {
        Some(u) => u,
        None => return Err(SqliteReadingError::InvalidUlid(row.device_id.clone())),
    };
    let dispatcher_id = match ulid_from_str(row.dispatcher_id.as_str()) {
        Some(u) => u,
        None => return Err(SqliteReadingError::InvalidUlid(row.dispatcher_id.clone())),
    };
    let sensor_id = match ulid_from_str(row.sensor_id.as_str()) {
        Some(u) => u,
        None => return Err(SqliteReadingError::InvalidUlid(row.sensor_id.clone())),
    };
    let metric = match decode_metric(row.metric_type, row.metric_value) {
        Some(m) => m,
        None => return Err(SqliteReadingError::InvalidMetricType(row.metric_type)),
    };
    let timestamp = match timestamp_from_second(row.timestamp) {
        Some(t) => t,
        None => return Err(SqliteReadingError::InvalidTimestamp(row.timestamp)),
    };
    Ok(SensorReading {
        id: ReadingId(id),
        device_id: DeviceId(device_id),
        dispatcher_id: DispatcherId(dispatcher_id),
        sensor_id: SensorId(sensor_id),
        metric,
        location: H3Cell(row.location as u64),
        confidence: Percentage(row.confidence as u8),
        timestamp,
    })
}

// ---------------------------------------------------------------------------
// Device statuses
// ---------------------------------------------------------------------------

/// A row of the status table.
#[derive(Debug, Clone)]
pub struct StatusRow {
    pub id: String,
    pub device_id: String,
    pub dispatcher_id: String,
    pub battery_percent: i32,
    pub uptime_seconds: i64,
    pub signal_rssi: i32,
    pub timestamp: i64,
}

/// A row of the table of errors reported with a status.
#[derive(Debug, Clone)]
pub struct ErrorRow {
    pub error_code: i32,
    pub message: Option<String>,
}

/// A row of the table of sensor states reported with a status.
#[derive(Debug, Clone)]
pub struct SensorStatusRow {
    pub sensor_id: String,
    pub state: i32,
    pub last_reading: Option<i64>,
}

/// The error an error row holds, if its code decodes.
pub open spec fn error_of_row(row: ErrorRow) -> Option<DeviceErrorView> {
    match error_code_from_code(row.error_code) {
        Some(c) => Some(DeviceErrorView { code: c, message: text_view(row.message) }),
        None => None,
    }
}

/// Whether `i` is the first error row whose code does not decode.
pub open spec fn first_bad_error_row(rows: Seq<ErrorRow>, i: int) -> bool {
    &&& 0 <= i < rows.len()
    &&& error_of_row(rows[i]) is None
    &&& forall|k: int| 0 <= k < i ==> #[trigger] error_of_row(rows[k]) is Some
}

/// The errors the rows hold, when every row decodes.
pub open spec fn errors_of_rows(rows: Seq<ErrorRow>) -> Seq<DeviceErrorView> {
    rows.map_values(|r: ErrorRow| error_of_row(r)->0)
}

/// What the error rows of a status decode to: every error in order, or the
/// code of the first row that does not decode.
pub open spec fn error_rows_decode(rows: Seq<ErrorRow>, r: Result<Vec<DeviceError>, SqliteDeviceStatusError>) -> bool {
    if exists|i: int| 0 <= i < rows.len() && #[trigger] error_of_row(rows[i]) is None {
        let i = choose|i: int| first_bad_error_row(rows, i);
        r == Err::<Vec<DeviceError>, SqliteDeviceStatusError>(SqliteDeviceStatusError::InvalidErrorCode(rows[i].error_code))
    } else {
        r matches Ok(v) && v@.map_values(|e: DeviceError| e@) == errors_of_rows(rows)
    }
}

/// Decodes the error rows of a status.
pub fn decode_error_rows(rows: &Vec<ErrorRow>) -> (r: Result<Vec<DeviceError>, SqliteDeviceStatusError>)
    ensures
        error_rows_decode(rows@, r),
{
    let ghost rs = rows@;
    let mut out: Vec<DeviceError> = Vec::new();
    let mut i: usize = 0;
    while i < rows.len()
        invariant
            i <= rs.len(),
            rs == rows@,
            forall|k: int| 0 <= k < i ==> #[trigger] error_of_row(rs[k]) is Some,
            out@.map_values(|e: DeviceError| e@) == errors_of_rows(rs.take(i as int)),
        decreases rs.len() - i,
    {
        match decode_error_code(rows[i].error_code) {
            Some(code) => {
                let e = DeviceError { code, message: copy_text(&rows[i].message) };
                let ghost before = out@.map_values(|e: DeviceError| e@);
                let ghost ev = e@;
                out.push(e);
                proof {
                    assert(out@.map_values(|e: DeviceError| e@) =~= before.push(ev));
                    assert(out@.map_values(|e: DeviceError| e@) =~= errors_of_rows(rs.take(i + 1)));
                }
            },
            None => {
                proof {
                    assert(first_bad_error_row(rs, i as int));
                    let j = choose|j: int| first_bad_error_row(rs, j);
                    assert(first_bad_error_row(rs, j));
                    assert(j == i) by {
                        if j < i {
                            assert(error_of_row(rs[j]) is Some);
                        }
                        if j > i {
                            assert(error_of_row(rs[i as int]) is Some);
                        }
                    }
                }
                return Err(SqliteDeviceStatusError::InvalidErrorCode(rows[i].error_code));
            },
        }
        i = i + 1;
    }
    assert(rs.take(i as int) =~= rs);
    Ok(out)
}


/// The time of the last reading a sensor status row holds, if it decodes
/// (`Some(None)` when the row holds none).
pub open spec fn last_reading_of(t: Option<i64>) -> Option<Option<Timestamp>> {
    match t {
        None => Some(None),
        Some(s) => match instant_of_second(s) {
            Some(x) => Some(Some(x)),
            None => None,
        },
    }
}

/// The sensor state a row holds, if every field decodes.
pub open spec fn sensor_status_of_row(row: SensorStatusRow) -> Option<SensorStatus> {
    match ulid_value(row.sensor_id@) {
        None => None,
        Some(u) => match sensor_state_from_code(row.state) {
            None => None,
            Some(st) => match last_reading_of(row.last_reading) {
                None => None,
                Some(l) => Some(SensorStatus { sensor_id: SensorId(u), state: st, last_reading: l }),
            },
        },
    }
}

/// The error reported for a sensor state row that does not decode:
/// identifier, state and time are checked in that order.
pub open spec fn is_sensor_status_row_error(row: SensorStatusRow, e: SqliteDeviceStatusError) -> bool {
    match ulid_value(row.sensor_id@) {
        None => (e matches SqliteDeviceStatusError::InvalidUlid(t) && t@ == row.sensor_id@),
        Some(_) => match sensor_state_from_code(row.state) {
            None => (e matches SqliteDeviceStatusError::InvalidSensorState(c) && c == row.state),
            Some(_) => (e matches SqliteDeviceStatusError::InvalidTimestamp(x) && Some(x) == row.last_reading),
        },
    }
}

/// Decodes one sensor state row.
fn decode_sensor_status_row(row: &SensorStatusRow) -> (r: Result<SensorStatus, SqliteDeviceStatusError>)
    ensures
        match sensor_status_of_row(*row) {
            Some(st) => r == Ok::<SensorStatus, SqliteDeviceStatusError>(st),
            None => (r matches Err(e) && is_sensor_status_row_error(*row, e)),
        },
{
    let id = match ulid_from_str(row.sensor_id.as_str()) {
        Some(u) => u,
        None => return Err(SqliteDeviceStatusError::InvalidUlid(row.sensor_id.clone())),
    };
    let state = match decode_sensor_state(row.state) {
        Some(s) => s,
        None => return Err(SqliteDeviceStatusError::InvalidSensorState(row.state)),
    };
    let last_reading = match row.last_reading {
        None => None,
        Some(ts) => match timestamp_from_second(ts) {
            Some(t) => Some(t),
            None => return Err(SqliteDeviceStatusError::InvalidTimestamp(ts)),
        },
    };
    Ok(SensorStatus { sensor_id: SensorId(id), state, last_reading })
}

/// Whether `i` is the first sensor state row that does not decode.
pub open spec fn first_bad_sensor_status_row(rows: Seq<SensorStatusRow>, i: int) -> bool {
    &&& 0 <= i < rows.len()
    &&& sensor_status_of_row(rows[i]) is None
    &&& forall|k: int| 0 <= k < i ==> #[trigger] sensor_status_of_row(rows[k]) is Some
}

/// The sensor states the rows hold, when every row decodes.
pub open spec fn sensor_statuses_of_rows(rows: Seq<SensorStatusRow>) -> Seq<SensorStatus> {
    rows.map_values(|r: SensorStatusRow| sensor_status_of_row(r)->0)
}

/// What the sensor state rows of a status decode to: every state in order,
/// or the error of the first row that does not decode.
pub open spec fn sensor_status_rows_decode(
    rows: Seq<SensorStatusRow>,
    r: Result<Vec<SensorStatus>, SqliteDeviceStatusError>,
) -> bool {
    if exists|i: int| 0 <= i < rows.len() && #[trigger] sensor_status_of_row(rows[i]) is None {
        let i = choose|i: int| first_bad_sensor_status_row(rows, i);
        r matches Err(e) && is_sensor_status_row_error(rows[i], e)
    } else {
        r matches Ok(v) && v@ == sensor_statuses_of_rows(rows)
    }
}

/// Decodes the sensor state rows of a status.
pub fn decode_sensor_status_rows(rows: &Vec<SensorStatusRow>) -> (r: Result<Vec<SensorStatus>, SqliteDeviceStatusError>)
    ensures
        sensor_status_rows_decode(rows@, r),
{
    let ghost rs = rows@;
    let mut out: Vec<SensorStatus> = Vec::new();
    let mut i: usize = 0;
    while i < rows.len()
        invariant
            i <= rs.len(),
            rs == rows@,
            forall|k: int| 0 <= k < i ==> #[trigger] sensor_status_of_row(rs[k]) is Some,
            out@ == sensor_statuses_of_rows(rs.take(i as int)),
        decreases rs.len() - i,
    {
        match decode_sensor_status_row(&rows[i]) {
            Ok(st) => {
                out.push(st);
                proof {
                    assert(out@ =~= sensor_statuses_of_rows(rs.take(i + 1)));
                }
            },
            Err(e) => {
                proof {
                    assert(first_bad_sensor_status_row(rs, i as int));
                    let j = choose|j: int| first_bad_sensor_status_row(rs, j);
                    assert(first_bad_sensor_status_row(rs, j));
                    assert(j == i) by {
                        if j < i {
                            assert(sensor_status_of_row(rs[j]) is Some);
                        }
                        if j > i {
                            assert(sensor_status_of_row(rs[i as int]) is Some);
                        }
                    }
                }
                return Err(e);
            },
        }
        i = i + 1;
    }
    assert(rs.take(i as int) =~= rs);
    Ok(out)
}

/// What a status row with its error rows and sensor state rows decodes to:
/// its three identifiers and its time are checked in that order, then the
/// error rows, then the sensor state rows.
pub open spec fn status_rows_decode(
    row: StatusRow,
    errors: Seq<ErrorRow>,
    sensors: Seq<SensorStatusRow>,
    r: Result<DeviceStatus, SqliteDeviceStatusError>,
) -> bool {
    match ulid_value(row.id@) {
        None => (r matches Err(SqliteDeviceStatusError::InvalidUlid(t)) && t@ == row.id@),
        Some(id) => match ulid_value(row.device_id@) {
            None => (r matches Err(SqliteDeviceStatusError::InvalidUlid(t)) && t@ == row.device_id@),
            Some(dev) => match ulid_value(row.dispatcher_id@) {
                None => (r matches Err(SqliteDeviceStatusError::InvalidUlid(t)) && t@ == row.dispatcher_id@),
                Some(disp) => match instant_of_second(row.timestamp) {
                    None => (r matches Err(SqliteDeviceStatusError::InvalidTimestamp(x)) && x == row.timestamp),
                    Some(t) => if exists|i: int| 0 <= i < errors.len() && #[trigger] error_of_row(errors[i]) is None {
                        let i = choose|i: int| first_bad_error_row(errors, i);
                        (r matches Err(SqliteDeviceStatusError::InvalidErrorCode(c)) && c == errors[i].error_code)
                    } else if exists|i: int| 0 <= i < sensors.len() && #[trigger] sensor_status_of_row(sensors[i]) is None {
                        let i = choose|i: int| first_bad_sensor_status_row(sensors, i);
                        (r matches Err(e) && is_sensor_status_row_error(sensors[i], e))
                    } else {
                        (r matches Ok(v) && v@ == DeviceStatusView {
                            id: StatusId(id),
                            device_id: DeviceId(dev),
                            dispatcher_id: DispatcherId(disp),
                            battery_percent: Percentage(row.battery_percent as u8),
                            uptime_seconds: row.uptime_seconds as u64,
                            signal_rssi: row.signal_rssi as i16,
                            errors: errors_of_rows(errors),
                            timestamp: t,
                            sensor_statuses: sensor_statuses_of_rows(sensors),
                        })
                    },
                },
            },
        },
    }
}

/// Decodes a status row together with its error rows and sensor state rows.
pub fn map_row_to_status(row: &StatusRow, errors: &Vec<ErrorRow>, sensors: &Vec<SensorStatusRow>) -> (r: Result<
    DeviceStatus,
    SqliteDeviceStatusError,
>)
    ensures
        status_rows_decode(*row, errors@, sensors@, r),
{
    let id = match ulid_from_str(row.id.as_str()) {
        Some(u) => u,
        None => return Err(SqliteDeviceStatusError::InvalidUlid(row.id.clone())),
    };
    let device_id = match ulid_from_str(row.device_id.as_str()) {
        Some(u) => u,
        None => return Err(SqliteDeviceStatusError::InvalidUlid(row.device_id.clone())),
    };
    let dispatcher_id = match ulid_from_str(row.dispatcher_id.as_str()) {
        Some(u) => u,
        None => return Err(SqliteDeviceStatusError::InvalidUlid(row.dispatcher_id.clone())),
    };
    let timestamp = match timestamp_from_second(row.timestamp) {
        Some(t) => t,
        None => return Err(SqliteDeviceStatusError::InvalidTimestamp(row.timestamp)),
    };
    let errs = match decode_error_rows(errors) {
        Ok(v) => v,
        Err(e) => return Err(e),
    };
    let states = match decode_sensor_status_rows(sensors) {
        Ok(v) => v,
        Err(e) => return Err(e),
    };
    Ok(DeviceStatus {
        id: StatusId(id),
        device_id: DeviceId(device_id),
        dispatcher_id: DispatcherId(dispatcher_id),
        battery_percent: Percentage(row.battery_percent as u8),
        uptime_seconds: row.uptime_seconds as u64,
        signal_rssi: row.signal_rssi as i16,
        errors: errs,
        timestamp,
        sensor_statuses: states,
    })
}


// ---------------------------------------------------------------------------
// Writing rows
// ---------------------------------------------------------------------------

/// The row under which a dispatcher is stored.
pub fn dispatcher_row_of(d: &Dispatcher) -> (row: DispatcherRow)
    ensures
        row.id@ == ulid_text(d.id.0),
        ulid_value(row.id@) == Some(d.id.0),
        row.state == dispatcher_state_code(d.state),
        row.location == d.location.0 as i64,
        row.provisioned_at == d.provisioned_at.second,
{
    DispatcherRow {
        id: ulid_to_string(d.id.0),
        state: encode_dispatcher_state(d.state),
        location: d.location.0 as i64,
        provisioned_at: d.provisioned_at.as_second(),
    }
}

/// The row under which a device is stored (its sensors go to rows of their
/// own).
pub fn device_row_of(d: &Device) -> (row: DeviceRow)
    ensures
        row.id@ == ulid_text(d.id.0),
        ulid_value(row.id@) == Some(d.id.0),
        row.kind == device_kind_code(d.kind),
        row.state == device_state_code(d.state),
        row.location == d.location.0 as i64,
        text_view(row.manufacturer) == text_view(d.manufacturer),
        row.provisioned_at == d.provisioned_at.second,
{
    DeviceRow {
        id: ulid_to_string(d.id.0),
        kind: encode_device_kind(d.kind),
        state: encode_device_state(d.state),
        location: d.location.0 as i64,
        manufacturer: copy_text(&d.manufacturer),
        provisioned_at: d.provisioned_at.as_second(),
    }
}

/// What a sensor is stored as, beside the device it belongs to: its
/// identifier and its device's as text, its kind and metric under their
/// codes.
#[derive(Debug)]
pub struct SensorRecord {
    pub id: String,
    pub device_id: String,
    pub kind: i32,
    pub metric_type: i32,
    pub metric_value: StoredMetricValue,
}

/// The record under which a sensor of device `device_id` is stored.
pub fn sensor_record_of(device_id: DeviceId, s: &Sensor) -> (rec: SensorRecord)
    ensures
        rec.id@ == ulid_text(s.id.0),
        ulid_value(rec.id@) == Some(s.id.0),
        rec.device_id@ == ulid_text(device_id.0),
        ulid_value(rec.device_id@) == Some(device_id.0),
        rec.kind == sensor_kind_code(s.kind),
        (rec.metric_type, rec.metric_value) == stored_metric(s.metric),
{
    let (metric_type, metric_value) = disect_metric(s.metric);
    SensorRecord {
        id: ulid_to_string(s.id.0),
        device_id: ulid_to_string(device_id.0),
        kind: encode_sensor_kind(s.kind),
        metric_type,
        metric_value,
    }
}

/// What a reading is stored as: its identifiers as text, its metric under
/// its code, its location, confidence and time as plain numbers.
#[derive(Debug)]
pub struct ReadingRecord {
    pub id: String,
    pub device_id: String,
    pub dispatcher_id: String,
    pub sensor_id: String,
    pub metric_type: i32,
    pub metric_value: StoredMetricValue,
    pub location: i64,
    pub confidence: i32,
    pub timestamp: i64,
}

/// The record under which a reading is stored.
pub fn reading_record_of(r: &SensorReading) -> (rec: ReadingRecord)
    ensures
        rec.id@ == ulid_text(r.id.0),
        ulid_value(rec.id@) == Some(r.id.0),
        rec.device_id@ == ulid_text(r.device_id.0),
        ulid_value(rec.device_id@) == Some(r.device_id.0),
        rec.dispatcher_id@ == ulid_text(r.dispatcher_id.0),
        ulid_value(rec.dispatcher_id@) == Some(r.dispatcher_id.0),
        rec.sensor_id@ == ulid_text(r.sensor_id.0),
        ulid_value(rec.sensor_id@) == Some(r.sensor_id.0),
        (rec.metric_type, rec.metric_value) == stored_metric(r.metric),
        rec.location == r.location.0 as i64,
        rec.confidence == r.confidence.0 as i32,
        rec.timestamp == r.timestamp.second,
{
    let (metric_type, metric_value) = disect_metric(r.metric);
    ReadingRecord {
        id: ulid_to_string(r.id.0),
        device_id: ulid_to_string(r.device_id.0),
        dispatcher_id: ulid_to_string(r.dispatcher_id.0),
        sensor_id: ulid_to_string(r.sensor_id.0),
        metric_type,
        metric_value,
        location: r.location.0 as i64,
        confidence: r.confidence.0 as i32,
        timestamp: r.timestamp.as_second(),
    }
}

/// Whether a reading row holds what `reading_record_of` writes for `s`:
/// identifiers that read back, the metric under its code and value, and
/// the plain numbers.
pub open spec fn reading_row_holds(row: ReadingRow, s: SensorReading) -> bool {
    &&& ulid_value(row.id@) == Some(s.id.0)
    &&& ulid_value(row.device_id@) == Some(s.device_id.0)
    &&& ulid_value(row.dispatcher_id@) == Some(s.dispatcher_id.0)
    &&& ulid_value(row.sensor_id@) == Some(s.sensor_id.0)
    &&& row.metric_type == stored_metric(s.metric).0
    &&& holds_stored_value(row.metric_value, stored_metric(s.metric).1)
    &&& row.location == s.location.0 as i64
    &&& row.confidence == s.confidence.0 as i32
    &&& row.timestamp == s.timestamp.second
}

/// Whether a value read from a row is the one a metric was stored with.
pub open spec fn holds_stored_value(v: RawMetricValue, stored: StoredMetricValue) -> bool {
    match stored {
        StoredMetricValue::Whole(p) => v.whole == p,
        StoredMetricValue::Float(b) => v.bits == b,
    }
}

proof fn lemma_cell_bits(x: u64)
    ensures
        (x as i64) as u64 == x,
{
    assert((x as i64) as u64 == x) by (bit_vector);
}

/// Whether an instant is stored without loss: whole seconds within the
/// range `jiff` represents.
pub open spec fn storable_instant(t: Timestamp) -> bool {
    t.nanosecond == 0 && MIN_SECOND <= t.second <= MAX_SECOND
}

/// A dispatcher read back from the row it was written to is the same
/// dispatcher, provided its time is storable.
pub proof fn law_dispatcher_row_roundtrip(
    d: Dispatcher,
    row: DispatcherRow,
    r: Result<Dispatcher, SqliteDispatcherError>,
)
    requires
        storable_instant(d.provisioned_at),
        ulid_value(row.id@) == Some(d.id.0),
        row.state == dispatcher_state_code(d.state),
        row.location == d.location.0 as i64,
        row.provisioned_at == d.provisioned_at.second,
        dispatcher_row_decodes(row, r),
    ensures
        r == Ok::<Dispatcher, SqliteDispatcherError>(d),
{
    lemma_cell_bits(d.location.0);
}

/// A device read back from the row it was written to is the same device
/// (without its sensors, which are stored apart), provided its time is
/// storable.
pub proof fn law_device_row_roundtrip(
    d: DeviceView,
    row: DeviceRow,
    r: Result<Device, SqliteDeviceError>,
)
    requires
        storable_instant(d.provisioned_at),
        ulid_value(row.id@) == Some(d.id.0),
        row.kind == device_kind_code(d.kind),
        row.state == device_state_code(d.state),
        row.location == d.location.0 as i64,
        text_view(row.manufacturer) == d.manufacturer,
        row.provisioned_at == d.provisioned_at.second,
        device_row_decodes(row, r),
    ensures
        r matches Ok(x) && x@ == (DeviceView { sensors: Seq::empty(), ..d }),
{
    lemma_cell_bits(d.location.0);
}

/// A sensor read back from the row it was written to is the same sensor,
/// provided its percentage, if any, is at most 100.
pub proof fn law_sensor_row_roundtrip(s: Sensor, row: SensorRow)
    requires
        metric_in_range(s.metric),
        ulid_value(row.id@) == Some(s.id.0),
        row.kind == sensor_kind_code(s.kind),
        row.metric_type == stored_metric(s.metric).0,
        holds_stored_value(row.metric_value, stored_metric(s.metric).1),
    ensures
        sensor_of_row(row) == Some(s),
{
}

/// A reading read back from the row it was written to is the same
/// reading, provided its time is storable and its percentage, if any, is
/// at most 100.
pub proof fn law_reading_row_roundtrip(s: SensorReading, row: ReadingRow, r: Result<SensorReading, SqliteReadingError>)
    requires
        metric_in_range(s.metric),
        storable_instant(s.timestamp),
        reading_row_holds(row, s),
        reading_row_decodes(row, r),
    ensures
        r == Ok::<SensorReading, SqliteReadingError>(s),
{
    lemma_cell_bits(s.location.0);
}

/// Whether the rows of a status hold what the status holds: its
/// identifiers as text, its numbers widened, its times as seconds, its
/// errors and sensor states in order under their codes.
pub open spec fn status_rows_hold(
    s: DeviceStatusView,
    row: StatusRow,
    errors: Seq<ErrorRow>,
    sensors: Seq<SensorStatusRow>,
) -> bool {
    &&& ulid_value(row.id@) == Some(s.id.0)
    &&& ulid_value(row.device_id@) == Some(s.device_id.0)
    &&& ulid_value(row.dispatcher_id@) == Some(s.dispatcher_id.0)
    &&& row.battery_percent == s.battery_percent.0 as i32
    &&& row.uptime_seconds == s.uptime_seconds as i64
    &&& row.signal_rssi == s.signal_rssi as i32
    &&& row.timestamp == s.timestamp.second
    &&& errors.len() == s.errors.len()
    &&& forall|k: int| 0 <= k < errors.len() ==> #[trigger] errors[k].error_code == error_code_code(s.errors[k].code)
        && text_view(errors[k].message) == s.errors[k].message
    &&& sensors.len() == s.sensor_statuses.len()
    &&& forall|k: int| 0 <= k < sensors.len() ==> {
        &&& ulid_value(#[trigger] sensors[k].sensor_id@) == Some(s.sensor_statuses[k].sensor_id.0)
        &&& sensors[k].state == sensor_state_code(s.sensor_statuses[k].state)
        &&& sensors[k].last_reading == match s.sensor_statuses[k].last_reading {
            Some(t) => Some(t.second),
            None => None,
        }
    }
}

/// The rows under which a status is stored: the status row, its error
/// rows and its sensor state rows.
pub fn status_rows_of(s: &DeviceStatus) -> (r: (StatusRow, Vec<ErrorRow>, Vec<SensorStatusRow>))
    ensures
        status_rows_hold(s@, r.0, r.1@, r.2@),
{
    let row = StatusRow {
        id: ulid_to_string(s.id.0),
        device_id: ulid_to_string(s.device_id.0),
        dispatcher_id: ulid_to_string(s.dispatcher_id.0),
        battery_percent: s.battery_percent.0 as i32,
        uptime_seconds: s.uptime_seconds as i64,
        signal_rssi: s.signal_rssi as i32,
        timestamp: s.timestamp.as_second(),
    };
    let ghost sv = s@;
    let mut errors: Vec<ErrorRow> = Vec::new();
    let mut i: usize = 0;
    while i < s.errors.len()
        invariant
            i <= s.errors@.len(),
            sv == s@,
            errors@.len() == i,
            forall|k: int| 0 <= k < i ==> #[trigger] errors@[k].error_code == error_code_code(sv.errors[k].code)
                && text_view(errors@[k].message) == sv.errors[k].message,
        decreases s.errors@.len() - i,
    {
        let e = &s.errors[i];
        errors.push(ErrorRow { error_code: encode_error_code(e.code), message: copy_text(&e.message) });
        i = i + 1;
    }
    let mut sensors: Vec<SensorStatusRow> = Vec::new();
    let mut j: usize = 0;
    while j < s.sensor_statuses.len()
        invariant
            j <= s.sensor_statuses@.len(),
            sv == s@,
            sensors@.len() == j,
            forall|k: int| 0 <= k < j ==> {
                &&& ulid_value(#[trigger] sensors@[k].sensor_id@) == Some(sv.sensor_statuses[k].sensor_id.0)
                &&& sensors@[k].state == sensor_state_code(sv.sensor_statuses[k].state)
                &&& sensors@[k].last_reading == match sv.sensor_statuses[k].last_reading {
                    Some(t) => Some(t.second),
                    None => None,
                }
            },
        decreases s.sensor_statuses@.len() - j,
    {
        let st = s.sensor_statuses[j];
        let last_reading = match st.last_reading {
            Some(t) => Some(t.as_second()),
            None => None,
        };
        let sensor_id = ulid_to_string(st.sensor_id.0);
        let state = encode_sensor_state(st.state);
        let ghost before = sensors@;
        sensors.push(SensorStatusRow { sensor_id, state, last_reading });
        proof {
            assert(st == sv.sensor_statuses[j as int]);
            assert(ulid_value(sensors@[j as int].sensor_id@) == Some(sv.sensor_statuses[j as int].sensor_id.0));
            assert(sensors@[j as int].state == sensor_state_code(sv.sensor_statuses[j as int].state));
            assert(sensors@[j as int].last_reading == match sv.sensor_statuses[j as int].last_reading {
                Some(t) => Some(t.second),
                None => None,
            });
            assert forall|k: int| 0 <= k < j + 1 implies {
                &&& ulid_value(#[trigger] sensors@[k].sensor_id@) == Some(sv.sensor_statuses[k].sensor_id.0)
                &&& sensors@[k].state == sensor_state_code(sv.sensor_statuses[k].state)
                &&& sensors@[k].last_reading == match sv.sensor_statuses[k].last_reading {
                    Some(t) => Some(t.second),
                    None => None,
                }
            } by {
                if k < j {
                    assert(sensors@[k] == before[k]);
                }
            }
        }
        j = j + 1;
    }
    (row, errors, sensors)
}

/// Whether the time of a sensor's last reading, if any, is storable.
pub open spec fn storable_reading_time(st: SensorStatus) -> bool {
    match st.last_reading {
        Some(t) => storable_instant(t),
        None => true,
    }
}

proof fn lemma_narrowing(b: u8, u: u64, r: i16)
    ensures
        ((b as i32) as u8) == b,
        (u <= i64::MAX ==> ((u as i64) as u64) == u),
        ((r as i32) as i16) == r,
{
    assert(((b as i32) as u8) == b) by (bit_vector);
    assert(u <= 0x7fff_ffff_ffff_ffffu64 ==> ((u as i64) as u64) == u) by (bit_vector);
    assert(((r as i32) as i16) == r) by (bit_vector);
}

/// A status read back from the rows it was written to is the same status,
/// provided its times are storable and its uptime fits in an `i64`.
pub proof fn law_status_rows_roundtrip(
    s: DeviceStatusView,
    row: StatusRow,
    errors: Seq<ErrorRow>,
    sensors: Seq<SensorStatusRow>,
    r: Result<DeviceStatus, SqliteDeviceStatusError>,
)
    requires
        storable_instant(s.timestamp),
        s.uptime_seconds <= i64::MAX,
        forall|k: int| 0 <= k < s.sensor_statuses.len() ==> storable_reading_time(#[trigger] s.sensor_statuses[k]),
        status_rows_hold(s, row, errors, sensors),
        status_rows_decode(row, errors, sensors, r),
    ensures
        r matches Ok(x) && x@ == s,
{
    lemma_narrowing(s.battery_percent.0, s.uptime_seconds, s.signal_rssi);
    assert forall|i: int| 0 <= i < errors.len() implies #[trigger] error_of_row(errors[i]) is Some by {
        assert(errors[i].error_code == error_code_code(s.errors[i].code));
    }
    assert forall|i: int| 0 <= i < sensors.len() implies #[trigger] sensor_status_of_row(sensors[i]) is Some by {
        assert(ulid_value(sensors[i].sensor_id@) == Some(s.sensor_statuses[i].sensor_id.0));
        assert(sensors[i].state == sensor_state_code(s.sensor_statuses[i].state));
    }
    assert(errors_of_rows(errors) =~= s.errors) by {
        assert forall|i: int| 0 <= i < errors.len() implies errors_of_rows(errors)[i] == s.errors[i] by {
            assert(errors[i].error_code == error_code_code(s.errors[i].code));
        }
    }
    assert(sensor_statuses_of_rows(sensors) =~= s.sensor_statuses) by {
        assert forall|i: int| 0 <= i < sensors.len() implies sensor_statuses_of_rows(sensors)[i] == s.sensor_statuses[i] by {
            assert(ulid_value(sensors[i].sensor_id@) == Some(s.sensor_statuses[i].sensor_id.0));
            assert(sensors[i].state == sensor_state_code(s.sensor_statuses[i].state));
        }
    }
}

/// A metric is stored under the code of its type (soil moisture 0, soil
/// temperature 1, air temperature 2, humidity 3, rainfall 4) with its
/// percentage as a whole number or its measurement as the bits given.
pub proof fn law_metric_storage_codes(p: Percentage, b: FloatBits)
    ensures
        stored_metric(SensorMetric::SoilMoisture { value: p }) == (0i32, StoredMetricValue::Whole(p.0)),
        stored_metric(SensorMetric::SoilTemp { value: b }) == (1i32, StoredMetricValue::Float(b)),
        stored_metric(SensorMetric::AirTemp { value: b }) == (2i32, StoredMetricValue::Float(b)),
        stored_metric(SensorMetric::Humidity { value: p }) == (3i32, StoredMetricValue::Whole(p.0)),
        stored_metric(SensorMetric::Rainfall { value: b }) == (4i32, StoredMetricValue::Float(b)),
{
}

} // verus!
