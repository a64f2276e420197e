//! The shared domain model: devices, dispatchers, sensors, readings and
//! status reports.
//!
//! Identifiers are 128-bit ULID values, timestamps are instants split into
//! whole seconds and a nanosecond part of the same sign, and floating point
//! measurements are carried as their IEEE 754 binary64 bit pattern so that
//! they can be stored, compared for identity and handed back unchanged.
use vstd::prelude::*;

verus! {

/// Unique identifier for an edge device.
#[derive(Debug, Clone, Copy, PartialEq, Eq, Hash, Structural)]
pub struct DeviceId(pub u128);

/// Unique identifier for a telemetry reading event.
#[derive(Debug, Clone, Copy, PartialEq, Eq, Hash, Structural)]
pub struct ReadingId(pub u128);

/// Unique identifier for a device status report event.
#[derive(Debug, Clone, Copy, PartialEq, Eq, Hash, Structural)]
pub struct StatusId(pub u128);

/// Unique identifier for a dispatcher device.
#[derive(Debug, Clone, Copy, PartialEq, Eq, Hash, Structural)]
pub struct DispatcherId(pub u128);

/// Unique identifier for an upload batch.
#[derive(Debug, Clone, Copy, PartialEq, Eq, Hash, Structural)]
pub struct BatchId(pub u128);

/// Unique identifier for a sensor.
#[derive(Debug, Clone, Copy, PartialEq, Eq, Hash, Structural)]
pub struct SensorId(pub u128);

/// H3 cell index (hex-like 64-bit integer) representing a spatial cell.
#[derive(Debug, Clone, Copy, PartialEq, Eq, Hash, Structural)]
pub struct H3Cell(pub u64);

/// Percentage value in the range 0–100 (inclusive).
#[derive(Debug, Clone, Copy, PartialEq, Eq, Hash, Structural)]
pub struct Percentage(pub u8);

/// The bit pattern of an IEEE 754 binary64 measurement value.
#[derive(Debug, Clone, Copy, PartialEq, Eq, Hash, Structural)]
pub struct FloatBits(pub u64);

/// An instant: whole seconds since the Unix epoch and the nanoseconds
/// within that second (both of the same sign).
#[derive(Debug, Clone, Copy, PartialEq, Eq, Hash, Structural)]
pub struct Timestamp {
    pub second: i64,
    pub nanosecond: i32,
}

/// Whether instant `a` is strictly earlier than instant `b`.
pub open spec fn timestamp_lt(a: Timestamp, b: Timestamp) -> bool {
    a.second < b.second || (a.second == b.second && a.nanosecond < b.nanosecond)
}

impl Timestamp {
    /// The instant `second` seconds after the epoch.
    pub fn from_second(second: i64) -> (t: Timestamp)
        ensures
            t == (Timestamp { second, nanosecond: 0 }),
    {
        Timestamp { second, nanosecond: 0 }
    }

    /// Whole seconds since the epoch (truncated toward zero).
    pub fn as_second(&self) -> (s: i64)
        ensures
            s == self.second,
    {
        self.second
    }

    /// Whether this instant is strictly earlier than `other`.
    pub fn is_before(&self, other: &Timestamp) -> (b: bool)
        ensures
            b == timestamp_lt(*self, *other),
    {
        self.second < other.second || (self.second == other.second && self.nanosecond
            < other.nanosecond)
    }

    /// Whether this instant is strictly later than `other`.
    pub fn is_after(&self, other: &Timestamp) -> (b: bool)
        ensures
            b == timestamp_lt(*other, *self),
    {
        other.is_before(self)
    }
}

/// Sensor health state.
#[derive(Debug, Clone, Copy, PartialEq, Eq, Hash, Structural)]
pub enum SensorState {
    Active,
    Faulty,
    Inactive,
}

/// What a sensor measures.
#[derive(Debug, Clone, Copy, PartialEq, Eq, Hash, Structural)]
pub enum SensorKind {
    SoilMoisture,
    SoilTemp,
    AirTemp,
    Humidity,
    Rainfall,
}

/// Device classification.
#[derive(Debug, Clone, Copy, PartialEq, Eq, Hash, Structural)]
pub enum DeviceKind {
    Sensor,
}

/// Device state.
#[derive(Debug, Clone, Copy, PartialEq, Eq, Hash, Structural)]
pub enum DeviceState {
    /// Device is permitted to upload telemetry.
    Active,
    /// Device is blocked (e.g., compromised, decommissioned, etc.).
    Suspended,
}

/// Supported sensor metrics.
#[allow(inconsistent_fields)]
#[derive(Debug, Clone, Copy, PartialEq, Eq, Hash, Structural)]
pub enum SensorMetric {
    /// Soil moisture as a percentage.
    SoilMoisture { value: Percentage },
    /// Soil temperature in degrees Celsius.
    SoilTemp { value: FloatBits },
    /// Air temperature in degrees Celsius.
    AirTemp { value: FloatBits },
    /// Relative humidity as a percentage.
    Humidity { value: Percentage },
    /// Rainfall in millimeters.
    Rainfall { value: FloatBits },
}

/// Units used by metrics.
#[derive(Debug, Clone, Copy, PartialEq, Eq, Hash, Structural)]
pub enum MetricUnit {
    /// Percent (%) values.
    Percent,
    /// Degrees Celsius (°C).
    Celsius,
    /// Millimeters (mm).
    Mm,
}

/// A sensor attached to a device.
#[derive(Debug, Clone, Copy, PartialEq, Eq, Hash, Structural)]
pub struct Sensor {
    pub id: SensorId,
    pub metric: SensorMetric,
    pub kind: SensorKind,
}

/// The state of one sensor as reported in a status message.
#[derive(Debug, Clone, Copy, PartialEq, Eq, Hash, Structural)]
pub struct SensorStatus {
    pub sensor_id: SensorId,
    pub state: SensorState,
    pub last_reading: Option<Timestamp>,
}

/// A registered edge device in the platform.
#[derive(Debug, Clone)]
pub struct Device {
    /// Stable identity of this device.
    pub id: DeviceId,
    /// Type of the device.
    pub kind: DeviceKind,
    /// Operational state of device.
    pub state: DeviceState,
    /// Canonical location cell for the device.
    pub location: H3Cell,
    /// Manufacturer or vendor string.
    pub manufacturer: Option<String>,
    /// Provisioning timestamp.
    pub provisioned_at: Timestamp,
    /// Sensors attached to this device.
    pub sensors: Vec<Sensor>,
}

/// A single sensor reading emitted by an edge device and forwarded by a dispatcher.
#[derive(Debug, Clone, Copy, PartialEq, Eq, Hash, Structural)]
pub struct SensorReading {
    /// Unique id for this reading.
    pub id: ReadingId,
    /// Source device that generated this reading.
    pub device_id: DeviceId,
    /// Dispatcher that forwarded this reading to central.
    pub dispatcher_id: DispatcherId,
    /// The measured quantity and value.
    pub metric: SensorMetric,
    /// H3 cell where the reading was taken.
    pub location: H3Cell,
    /// Quality of this reading.
    pub confidence: Percentage,
    /// Timestamp of the reading event.
    pub timestamp: Timestamp,
    /// The specific sensor that produced this reading.
    pub sensor_id: SensorId,
}

/// Device error codes.
#[derive(Debug, Clone, Copy, PartialEq, Eq, Hash, Structural)]
pub enum DeviceErrorCode {
    LowBattery,
    SensorFault,
    RadioFault,
    Unknown,
}

/// A structured error from a device.
#[derive(Debug, Clone)]
pub struct DeviceError {
    /// Canonical error category.
    pub code: DeviceErrorCode,
    /// Optional human-readable message from firmware.
    pub message: Option<String>,
}

/// A status report emitted by a device.
#[derive(Debug, Clone)]
pub struct DeviceStatus {
    /// Unique id for this status record.
    pub id: StatusId,
    /// Source device that generated this status report.
    pub device_id: DeviceId,
    /// Dispatcher that forwarded this status report.
    pub dispatcher_id: DispatcherId,
    /// Battery charge level expressed as a percentage.
    pub battery_percent: Percentage,
    /// Device uptime (seconds since last reboot).
    pub uptime_seconds: u64,
    /// Received signal strength indicator (RSSI).
    pub signal_rssi: i16,
    /// Any errors reported by device firmware.
    pub errors: Vec<DeviceError>,
    /// Timestamp when status was captured.
    pub timestamp: Timestamp,
    /// The status of each sensor attached to this device.
    pub sensor_statuses: Vec<SensorStatus>,
}

/// Dispatcher state.
#[derive(Debug, Clone, Copy, PartialEq, Eq, Hash, Structural)]
pub enum DispatcherState {
    /// Dispatcher is permitted to upload data.
    Active,
    /// Dispatcher is blocked (e.g., compromised, decommissioned).
    Suspended,
}

/// A registered dispatcher in the platform.
#[derive(Debug, Clone, Copy, PartialEq, Eq, Hash, Structural)]
pub struct Dispatcher {
    /// Stable identity of this dispatcher.
    pub id: DispatcherId,
    /// Dispatcher location cell.
    pub location: H3Cell,
    /// Operational state.
    pub state: DispatcherState,
    /// Provisioning timestamp.
    pub provisioned_at: Timestamp,
}

/// A batch of telemetry uploaded by a dispatcher.
#[derive(Debug, Clone)]
pub struct BatchUploadRequest {
    /// Unique id for this batch.
    pub id: BatchId,
    /// Dispatcher that created and is uploading this batch.
    pub dispatcher_id: DispatcherId,
    /// Telemetry readings included in this batch.
    pub readings: Vec<SensorReading>,
    /// Device status records included in this batch.
    pub statuses: Vec<DeviceStatus>,
    /// Timestamp when the batch was created by dispatcher.
    pub timestamp: Timestamp,
}

/// Acknowledgement of a batch upload.
#[derive(Debug, Clone, Copy, PartialEq, Eq, Hash, Structural)]
pub struct BatchUploadResponse {
    pub id: BatchId,
}

/// A copy of `v`, element by element.
pub fn copy_sensors(v: &Vec<Sensor>) -> (r: Vec<Sensor>)
    ensures
        r@ == v@,
{
    let mut r: Vec<Sensor> = Vec::new();
    let mut i: usize = 0;
    while i < v.len()
        invariant
            i <= v@.len(),
            r@ == v@.take(i as int),
        decreases v@.len() - i,
    {
        r.push(v[i]);
        i = i + 1;
        assert(r@ =~= v@.take(i as int));
    }
    assert(v@.take(v@.len() as int) =~= v@);
    r
}

/// A copy of an optional text, character for character.
pub fn copy_text(s: &Option<String>) -> (r: Option<String>)
    ensures
        r == *s,
{
    match s {
        Some(t) => Some(t.clone()),
        None => None,
    }
}

/// The abstract content of an optional text.
pub open spec fn text_view(s: Option<String>) -> Option<Seq<char>> {
    match s {
        Some(t) => Some(t@),
        None => None,
    }
}

/// The abstract content of a device.
pub struct DeviceView {
    pub id: DeviceId,
    pub kind: DeviceKind,
    pub state: DeviceState,
    pub location: H3Cell,
    pub manufacturer: Option<Seq<char>>,
    pub provisioned_at: Timestamp,
    pub sensors: Seq<Sensor>,
}

impl View for Device {
    type V = DeviceView;

    open spec fn view(&self) -> DeviceView {
        DeviceView {
            id: self.id,
            kind: self.kind,
            state: self.state,
            location: self.location,
            manufacturer: text_view(self.manufacturer),
            provisioned_at: self.provisioned_at,
            sensors: self.sensors@,
        }
    }
}

/// The abstract content of a device error.
pub struct DeviceErrorView {
    pub code: DeviceErrorCode,
    pub message: Option<Seq<char>>,
}

impl View for DeviceError {
    type V = DeviceErrorView;

    open spec fn view(&self) -> DeviceErrorView {
        DeviceErrorView { code: self.code, message: text_view(self.message) }
    }
}

/// The abstract content of a device status report.
pub struct DeviceStatusView {
    pub id: StatusId,
    pub device_id: DeviceId,
    pub dispatcher_id: DispatcherId,
    pub battery_percent: Percentage,
    pub uptime_seconds: u64,
    pub signal_rssi: i16,
    pub errors: Seq<DeviceErrorView>,
    pub timestamp: Timestamp,
    pub sensor_statuses: Seq<SensorStatus>,
}

impl View for DeviceStatus {
    type V = DeviceStatusView;

    open spec fn view(&self) -> DeviceStatusView {
        DeviceStatusView {
            id: self.id,
            device_id: self.device_id,
            dispatcher_id: self.dispatcher_id,
            battery_percent: self.battery_percent,
            uptime_seconds: self.uptime_seconds,
            signal_rssi: self.signal_rssi,
            errors: self.errors@.map_values(|e: DeviceError| e@),
            timestamp: self.timestamp,
            sensor_statuses: self.sensor_statuses@,
        }
    }
}

impl Device {
    /// A copy of this device with the same content.
    pub fn duplicate(&self) -> (r: Device)
        ensures
            r@ == self@,
    {
        Device {
            id: self.id,
            kind: self.kind,
            state: self.state,
            location: self.location,
            manufacturer: copy_text(&self.manufacturer),
            provisioned_at: self.provisioned_at,
            sensors: copy_sensors(&self.sensors),
        }
    }
}

impl DeviceError {
    /// A copy of this error with the same content.
    pub fn duplicate(&self) -> (r: DeviceError)
        ensures
            r@ == self@,
    {
        DeviceError { code: self.code, message: copy_text(&self.message) }
    }
}

/// A copy of a list of device errors with the same content.
pub fn copy_errors(v: &Vec<DeviceError>) -> (r: Vec<DeviceError>)
    ensures
        r@.map_values(|e: DeviceError| e@) == v@.map_values(|e: DeviceError| e@),
{
    let mut r: Vec<DeviceError> = Vec::new();
    let mut i: usize = 0;
    while i < v.len()
        invariant
            i <= v@.len(),
            r@.len() == i,
            forall|k: int| 0 <= k < i ==> r@[k]@ == v@[k]@,
        decreases v@.len() - i,
    {
        r.push(v[i].duplicate());
        i = i + 1;
    }
    assert(r@.map_values(|e: DeviceError| e@) =~= v@.map_values(|e: DeviceError| e@));
    r
}

/// A copy of a list of sensor states.
pub fn copy_sensor_statuses(v: &Vec<SensorStatus>) -> (r: Vec<SensorStatus>)
    ensures
        r@ == v@,
{
    let mut r: Vec<SensorStatus> = Vec::new();
    let mut i: usize = 0;
    while i < v.len()
        invariant
            i <= v@.len(),
            r@ == v@.take(i as int),
        decreases v@.len() - i,
    {
        r.push(v[i]);
        i = i + 1;
        assert(r@ =~= v@.take(i as int));
    }
    assert(v@.take(v@.len() as int) =~= v@);
    r
}

impl DeviceStatus {
    /// A copy of this status report with the same content.
    pub fn duplicate(&self) -> (r: DeviceStatus)
        ensures
            r@ == self@,
    {
        DeviceStatus {
            id: self.id,
            device_id: self.device_id,
            dispatcher_id: self.dispatcher_id,
            battery_percent: self.battery_percent,
            uptime_seconds: self.uptime_seconds,
            signal_rssi: self.signal_rssi,
            errors: copy_errors(&self.errors),
            timestamp: self.timestamp,
            sensor_statuses: copy_sensor_statuses(&self.sensor_statuses),
        }
    }
}

} // verus!
