use ersha::codes::{decode_device_state, encode_device_state, encode_error_code, metric_type};
use ersha::columnar::{dispatcher_from_row, ClickHouseError};
use ersha::filter::SensorMetricType;
use ersha::model::{
    ReadingId, SensorReading,
    Device, DeviceError, DeviceErrorCode, DeviceId, DeviceKind, DeviceState, DeviceStatus, Dispatcher, DispatcherId,
    DispatcherState, FloatBits, H3Cell, Percentage, Sensor, SensorId, SensorKind, SensorMetric, SensorState,
    SensorStatus, StatusId, Timestamp,
};
use ersha::rows::{
    attach_sensors, decode_dispatcher_row, device_from_rows, device_row_of, disect_metric, dispatcher_row_of,
    map_row_to_device, map_row_to_reading, map_row_to_sensor, map_row_to_status, reading_record_of, sensor_record_of,
    status_rows_of, DispatcherRow,
    RawMetricValue, ReadingRow, SensorRow, SqliteDeviceError, SqliteDeviceStatusError, SqliteDispatcherError,
    SqliteReadingError, StoredMetricValue, MAX_SECOND, MIN_SECOND,
};

const ID_TEXT: &str = "21850M2GA1850M2GA1850M2GA1";
const ID_VALUE: u128 = 0x41414141414141414141414141414141;

fn dispatcher_row(id: &str, state: i32, provisioned_at: i64) -> DispatcherRow {
    DispatcherRow { id: id.to_string(), state, location: -1, provisioned_at }
}

#[test]
fn dispatcher_row_decodes_in_order() {
    let d = decode_dispatcher_row(&dispatcher_row(ID_TEXT, 1, 100)).unwrap();
    assert_eq!(d.id, DispatcherId(ID_VALUE));
    assert_eq!(d.state, DispatcherState::Suspended);
    assert_eq!(d.location, H3Cell(u64::MAX));
    assert_eq!(d.provisioned_at, Timestamp { second: 100, nanosecond: 0 });
    assert!(matches!(
        decode_dispatcher_row(&dispatcher_row("nope", 7, MAX_SECOND + 1)),
        Err(SqliteDispatcherError::InvalidUlid(t)) if t == "nope"
    ));
    assert!(matches!(
        decode_dispatcher_row(&dispatcher_row(ID_TEXT, 7, MAX_SECOND + 1)),
        Err(SqliteDispatcherError::InvalidTimestamp(s)) if s == MAX_SECOND + 1
    ));
    assert!(matches!(
        decode_dispatcher_row(&dispatcher_row(ID_TEXT, 7, MIN_SECOND)),
        Err(SqliteDispatcherError::InvalidState(7))
    ));
    // The ClickHouse registry checks the state before the time.
    assert_eq!(
        dispatcher_from_row(&dispatcher_row(ID_TEXT, 7, MAX_SECOND + 1)),
        Err(ClickHouseError::InvalidDispatcherState(7))
    );
}

#[test]
fn lowercase_ids_are_read() {
    let d = decode_dispatcher_row(&dispatcher_row(&ID_TEXT.to_lowercase(), 0, 0)).unwrap();
    assert_eq!(d.id.0, ID_VALUE);
}

#[test]
fn dispatcher_written_then_read_is_the_same() {
    let d = Dispatcher {
        id: DispatcherId(12345),
        location: H3Cell(0x8a2a1072b59ffff),
        state: DispatcherState::Active,
        provisioned_at: Timestamp { second: 1_700_000_000, nanosecond: 0 },
    };
    let row = dispatcher_row_of(&d);
    assert_eq!(row.id.len(), 26);
    assert_eq!(decode_dispatcher_row(&row).unwrap(), d);
}

#[test]
fn device_rows_and_sensors() {
    let d = Device {
        id: DeviceId(77),
        kind: DeviceKind::Sensor,
        state: DeviceState::Suspended,
        location: H3Cell(3),
        manufacturer: Some("Acme".to_string()),
        provisioned_at: Timestamp { second: 22, nanosecond: 0 },
        sensors: vec![],
    };
    let row = device_row_of(&d);
    let back = map_row_to_device(&row).unwrap();
    assert_eq!(back.id, d.id);
    assert_eq!(back.state, d.state);
    assert_eq!(back.manufacturer, d.manufacturer);
    assert!(back.sensors.is_empty());

    let sensor_row = SensorRow {
        id: ID_TEXT.to_string(),
        kind: 3,
        metric_type: 3,
        metric_value: RawMetricValue { bits: FloatBits(0), whole: 45 },
    };
    let s = map_row_to_sensor(&sensor_row).unwrap();
    assert_eq!(s.kind, SensorKind::Humidity);
    assert_eq!(s.metric, SensorMetric::Humidity { value: Percentage(45) });
    let bad = SensorRow { kind: 9, ..sensor_row.clone() };
    assert!(matches!(map_row_to_sensor(&bad), Err(SqliteDeviceError::InvalidSensorKind(9))));

    let got = device_from_rows(DeviceId(77), &row, &vec![sensor_row.clone(), bad.clone()]);
    assert!(matches!(got, Err(SqliteDeviceError::InvalidSensorKind(9))));
    let got = device_from_rows(DeviceId(77), &row, &vec![sensor_row.clone()]).unwrap();
    assert_eq!(got.sensors.len(), 1);

    let attached = attach_sensors(vec![back], vec![(row.id.clone(), s), ("other".to_string(), s)]);
    assert_eq!(attached[0].sensors, vec![s]);
}

#[test]
fn reading_rows() {
    let row = ReadingRow {
        id: ID_TEXT.to_string(),
        device_id: ID_TEXT.to_string(),
        dispatcher_id: ID_TEXT.to_string(),
        sensor_id: ID_TEXT.to_string(),
        metric_type: 2,
        metric_value: RawMetricValue { bits: FloatBits(25.5f64.to_bits()), whole: 25 },
        location: 9,
        confidence: 90,
        timestamp: 5,
    };
    let r = map_row_to_reading(&row).unwrap();
    assert_eq!(r.metric, SensorMetric::AirTemp { value: FloatBits(25.5f64.to_bits()) });
    assert_eq!(r.confidence, Percentage(90));
    let bad = ReadingRow { metric_type: 5, ..row.clone() };
    assert!(matches!(map_row_to_reading(&bad), Err(SqliteReadingError::InvalidMetricType(5))));
    let bad = ReadingRow { sensor_id: "x".to_string(), ..row };
    assert!(matches!(map_row_to_reading(&bad), Err(SqliteReadingError::InvalidUlid(t)) if t == "x"));
}

#[test]
fn status_written_then_read_is_the_same() {
    let s = DeviceStatus {
        id: StatusId(1),
        device_id: DeviceId(2),
        dispatcher_id: DispatcherId(3),
        battery_percent: Percentage(75),
        uptime_seconds: 7200,
        signal_rssi: -60,
        errors: vec![DeviceError { code: DeviceErrorCode::LowBattery, message: Some("Battery low".to_string()) }],
        timestamp: Timestamp { second: 1000, nanosecond: 0 },
        sensor_statuses: vec![SensorStatus {
            sensor_id: SensorId(4),
            state: SensorState::Faulty,
            last_reading: Some(Timestamp { second: 900, nanosecond: 0 }),
        }],
    };
    let (row, errors, sensors) = status_rows_of(&s);
    let back = map_row_to_status(&row, &errors, &sensors).unwrap();
    assert_eq!(back.battery_percent, Percentage(75));
    assert_eq!(back.uptime_seconds, 7200);
    assert_eq!(back.signal_rssi, -60);
    assert_eq!(back.errors.len(), 1);
    assert_eq!(back.errors[0].message.as_deref(), Some("Battery low"));
    assert_eq!(back.sensor_statuses, s.sensor_statuses);

    let mut bad_errors = errors.clone();
    bad_errors[0].error_code = 11;
    assert!(matches!(
        map_row_to_status(&row, &bad_errors, &sensors),
        Err(SqliteDeviceStatusError::InvalidErrorCode(11))
    ));
}

#[test]
fn codes_and_metrics() {
    assert_eq!(encode_device_state(DeviceState::Suspended), 1);
    assert_eq!(decode_device_state(1), Some(DeviceState::Suspended));
    assert_eq!(decode_device_state(2), None);
    assert_eq!(encode_error_code(DeviceErrorCode::Unknown), 3);
    assert_eq!(metric_type(SensorMetric::Rainfall { value: FloatBits(0) }), SensorMetricType::Rainfall);
    assert_eq!(
        disect_metric(SensorMetric::SoilMoisture { value: Percentage(42) }),
        (0, StoredMetricValue::Whole(42))
    );
    assert_eq!(disect_metric(SensorMetric::SoilTemp { value: FloatBits(7) }), (1, StoredMetricValue::Float(FloatBits(7))));
}

fn raw_of(v: StoredMetricValue) -> RawMetricValue {
    match v {
        StoredMetricValue::Whole(p) => RawMetricValue { bits: FloatBits((p as f64).to_bits()), whole: p },
        StoredMetricValue::Float(b) => RawMetricValue { bits: b, whole: f64::from_bits(b.0) as u8 },
    }
}

#[test]
fn sensor_written_then_read_is_the_same() {
    let sensor = Sensor {
        id: SensorId(ID_VALUE),
        kind: SensorKind::Rainfall,
        metric: SensorMetric::Rainfall { value: FloatBits(12.5f64.to_bits()) },
    };
    let rec = sensor_record_of(DeviceId(77), &sensor);
    assert_eq!(rec.id, ID_TEXT);
    assert_eq!(rec.device_id, "0000000000000000000000002D");
    assert_eq!(rec.metric_type, 4);
    let row = SensorRow { id: rec.id.clone(), kind: rec.kind, metric_type: rec.metric_type, metric_value: raw_of(rec.metric_value) };
    assert_eq!(map_row_to_sensor(&row).unwrap(), sensor);
}

#[test]
fn reading_written_then_read_is_the_same() {
    let reading = SensorReading {
        id: ReadingId(1),
        device_id: DeviceId(2),
        dispatcher_id: DispatcherId(3),
        sensor_id: SensorId(4),
        metric: SensorMetric::SoilMoisture { value: Percentage(55) },
        location: H3Cell(u64::MAX - 1),
        confidence: Percentage(90),
        timestamp: Timestamp { second: 1_700_000_000, nanosecond: 0 },
    };
    let rec = reading_record_of(&reading);
    assert_eq!(rec.id, "00000000000000000000000001");
    assert_eq!(rec.metric_type, 0);
    assert_eq!(rec.metric_value, StoredMetricValue::Whole(55));
    assert_eq!(rec.location, -2);
    assert_eq!(rec.confidence, 90);
    assert_eq!(rec.timestamp, 1_700_000_000);
    let row = ReadingRow {
        id: rec.id.clone(),
        device_id: rec.device_id.clone(),
        dispatcher_id: rec.dispatcher_id.clone(),
        sensor_id: rec.sensor_id.clone(),
        metric_type: rec.metric_type,
        metric_value: raw_of(rec.metric_value),
        location: rec.location,
        confidence: rec.confidence,
        timestamp: rec.timestamp,
    };
    assert_eq!(map_row_to_reading(&row).unwrap(), reading);
}

#[test]
fn stored_percentages_above_one_hundred_read_as_one_hundred() {
    let row = SensorRow {
        id: ID_TEXT.to_string(),
        kind: 0,
        metric_type: 0,
        metric_value: RawMetricValue { bits: FloatBits(150f64.to_bits()), whole: 150 },
    };
    assert_eq!(map_row_to_sensor(&row).unwrap().metric, SensorMetric::SoilMoisture { value: Percentage(100) });
}

#[test]
fn earlier_faults_are_reported_before_unreadable_values() {
    let nan = RawMetricValue { bits: FloatBits(f64::NAN.to_bits()), whole: 0 };
    let sensor = SensorRow { id: "bad".to_string(), kind: 1, metric_type: 1, metric_value: nan };
    assert!(matches!(map_row_to_sensor(&sensor), Err(SqliteDeviceError::InvalidUlid(t)) if t == "bad"));
    let sensor = SensorRow { id: ID_TEXT.to_string(), kind: 9, metric_type: 1, metric_value: nan };
    assert!(matches!(map_row_to_sensor(&sensor), Err(SqliteDeviceError::InvalidSensorKind(9))));
    let reading = ReadingRow {
        id: ID_TEXT.to_string(),
        device_id: "nope".to_string(),
        dispatcher_id: ID_TEXT.to_string(),
        sensor_id: ID_TEXT.to_string(),
        metric_type: 2,
        metric_value: nan,
        location: 0,
        confidence: 50,
        timestamp: 0,
    };
    assert!(matches!(map_row_to_reading(&reading), Err(SqliteReadingError::InvalidUlid(t)) if t == "nope"));
    let device = ersha::rows::DeviceRow {
        id: ID_TEXT.to_string(),
        kind: 4,
        state: 0,
        location: 0,
        manufacturer: None,
        provisioned_at: MAX_SECOND + 1,
    };
    assert!(matches!(map_row_to_device(&device), Err(SqliteDeviceError::InvalidDeviceKind(4))));
    // The sensors of a device are read until one fails; a later row is never read.
    let good = SensorRow {
        id: ID_TEXT.to_string(),
        kind: 0,
        metric_type: 0,
        metric_value: RawMetricValue { bits: FloatBits(0), whole: 5 },
    };
    let bad_kind = SensorRow { kind: 7, ..good.clone() };
    let unreadable = SensorRow { kind: 1, metric_type: 1, metric_value: nan, ..good.clone() };
    let ok_device = ersha::rows::DeviceRow { kind: 0, provisioned_at: 0, ..device };
    assert!(matches!(
        device_from_rows(DeviceId(ID_VALUE), &ok_device, &vec![good, bad_kind, unreadable]),
        Err(SqliteDeviceError::InvalidSensorKind(7))
    ));
}
