//! The integer codes under which enumerations are stored in the databases,
//! and their decoding; every code decodes back to what it encodes.
use vstd::prelude::*;

use crate::filter::SensorMetricType;
use crate::model::{
    DeviceErrorCode, DeviceKind, DeviceState, DispatcherState, SensorKind, SensorMetric, SensorState,
};

verus! {

// ---------------------------------------------------------------------------
// Device state
// ---------------------------------------------------------------------------

pub open spec fn device_state_code(s: DeviceState) -> i32 {
    match s {
        DeviceState::Active => 0,
        DeviceState::Suspended => 1,
    }
}

pub open spec fn device_state_from_code(c: i32) -> Option<DeviceState> {
    if c == 0 {
        Some(DeviceState::Active)
    } else if c == 1 {
        Some(DeviceState::Suspended)
    } else {
        None
    }
}

/// The stored code of a device state.
pub fn encode_device_state(s: DeviceState) -> (c: i32)
    ensures
        c == device_state_code(s),
{
    match s {
        DeviceState::Active => 0,
        DeviceState::Suspended => 1,
    }
}

/// The device state stored under `c`, if `c` is a valid code.
pub fn decode_device_state(c: i32) -> (r: Option<DeviceState>)
    ensures
        r == device_state_from_code(c),
{
    if c == 0 {
        Some(DeviceState::Active)
    } else if c == 1 {
        Some(DeviceState::Suspended)
    } else {
        None
    }
}

// ---------------------------------------------------------------------------
// Device kind
// ---------------------------------------------------------------------------

pub open spec fn device_kind_code(k: DeviceKind) -> i32 {
    match k {
        DeviceKind::Sensor => 0,
    }
}

pub open spec fn device_kind_from_code(c: i32) -> Option<DeviceKind> {
    if c == 0 {
        Some(DeviceKind::Sensor)
    } else {
        None
    }
}

/// The stored code of a device kind.
pub fn encode_device_kind(k: DeviceKind) -> (c: i32)
    ensures
        c == device_kind_code(k),
{
    match k {
        DeviceKind::Sensor => 0,
    }
}

/// The device kind stored under `c`, if `c` is a valid code.
pub fn decode_device_kind(c: i32) -> (r: Option<DeviceKind>)
    ensures
        r == device_kind_from_code(c),
{
    if c == 0 {
        Some(DeviceKind::Sensor)
    } else {
        None
    }
}

// ---------------------------------------------------------------------------
// Dispatcher state
// ---------------------------------------------------------------------------

pub open spec fn dispatcher_state_code(s: DispatcherState) -> i32 {
    match s {
        DispatcherState::Active => 0,
        DispatcherState::Suspended => 1,
    }
}

pub open spec fn dispatcher_state_from_code(c: i32) -> Option<DispatcherState> {
    if c == 0 {
        Some(DispatcherState::Active)
    } else if c == 1 {
        Some(DispatcherState::Suspended)
    } else {
        None
    }
}

/// The stored code of a dispatcher state.
pub fn encode_dispatcher_state(s: DispatcherState) -> (c: i32)
    ensures
        c == dispatcher_state_code(s),
{
    match s {
        DispatcherState::Active => 0,
        DispatcherState::Suspended => 1,
    }
}

/// The dispatcher state stored under `c`, if `c` is a valid code.
pub fn decode_dispatcher_state(c: i32) -> (r: Option<DispatcherState>)
    ensures
        r == dispatcher_state_from_code(c),
{
    if c == 0 {
        Some(DispatcherState::Active)
    } else if c == 1 {
        Some(DispatcherState::Suspended)
    } else {
        None
    }
}

// ---------------------------------------------------------------------------
// Sensor kind
// ---------------------------------------------------------------------------

pub open spec fn sensor_kind_code(k: SensorKind) -> i32 {
    match k {
        SensorKind::SoilMoisture => 0,
        SensorKind::SoilTemp => 1,
        SensorKind::AirTemp => 2,
        SensorKind::Humidity => 3,
        SensorKind::Rainfall => 4,
    }
}

pub open spec fn sensor_kind_from_code(c: i32) -> Option<SensorKind> {
    if c == 0 {
        Some(SensorKind::SoilMoisture)
    } else if c == 1 {
        Some(SensorKind::SoilTemp)
    } else if c == 2 {
        Some(SensorKind::AirTemp)
    } else if c == 3 {
        Some(SensorKind::Humidity)
    } else if c == 4 {
        Some(SensorKind::Rainfall)
    } else {
        None
    }
}

/// The stored code of a sensor kind.
pub fn encode_sensor_kind(k: SensorKind) -> (c: i32)
    ensures
        c == sensor_kind_code(k),
{
    match k {
        SensorKind::SoilMoisture => 0,
        SensorKind::SoilTemp => 1,
        SensorKind::AirTemp => 2,
        SensorKind::Humidity => 3,
        SensorKind::Rainfall => 4,
    }
}

/// The sensor kind stored under `c`, if `c` is a valid code.
pub fn decode_sensor_kind(c: i32) -> (r: Option<SensorKind>)
    ensures
        r == sensor_kind_from_code(c),
{
    if c == 0 {
        Some(SensorKind::SoilMoisture)
    } else if c == 1 {
        Some(SensorKind::SoilTemp)
    } else if c == 2 {
        Some(SensorKind::AirTemp)
    } else if c == 3 {
        Some(SensorKind::Humidity)
    } else if c == 4 {
        Some(SensorKind::Rainfall)
    } else {
        None
    }
}

// ---------------------------------------------------------------------------
// Sensor state
// ---------------------------------------------------------------------------

pub open spec fn sensor_state_code(s: SensorState) -> i32 {
    match s {
        SensorState::Active => 0,
        SensorState::Faulty => 1,
        SensorState::Inactive => 2,
    }
}

pub open spec fn sensor_state_from_code(c: i32) -> Option<SensorState> {
    if c == 0 {
        Some(SensorState::Active)
    } else if c == 1 {
        Some(SensorState::Faulty)
    } else if c == 2 {
        Some(SensorState::Inactive)
    } else {
        None
    }
}

/// The stored code of a sensor state.
pub fn encode_sensor_state(s: SensorState) -> (c: i32)
    ensures
        c == sensor_state_code(s),
{
    match s {
        SensorState::Active => 0,
        SensorState::Faulty => 1,
        SensorState::Inactive => 2,
    }
}

/// The sensor state stored under `c`, if `c` is a valid code.
pub fn decode_sensor_state(c: i32) -> (r: Option<SensorState>)
    ensures
        r == sensor_state_from_code(c),
{
    if c == 0 {
        Some(SensorState::Active)
    } else if c == 1 {
        Some(SensorState::Faulty)
    } else if c == 2 {
        Some(SensorState::Inactive)
    } else {
        None
    }
}

// ---------------------------------------------------------------------------
// Device error code
// ---------------------------------------------------------------------------

pub open spec fn error_code_code(e: DeviceErrorCode) -> i32 {
    match e {
        DeviceErrorCode::LowBattery => 0,
        DeviceErrorCode::SensorFault => 1,
        DeviceErrorCode::RadioFault => 2,
        DeviceErrorCode::Unknown => 3,
    }
}

pub open spec fn error_code_from_code(c: i32) -> Option<DeviceErrorCode> {
    if c == 0 {
        Some(DeviceErrorCode::LowBattery)
    } else if c == 1 {
        Some(DeviceErrorCode::SensorFault)
    } else if c == 2 {
        Some(DeviceErrorCode::RadioFault)
    } else if c == 3 {
        Some(DeviceErrorCode::Unknown)
    } else {
        None
    }
}

/// The stored code of a device error code.
pub fn encode_error_code(e: DeviceErrorCode) -> (c: i32)
    ensures
        c == error_code_code(e),
{
    match e {
        DeviceErrorCode::LowBattery => 0,
        DeviceErrorCode::SensorFault => 1,
        DeviceErrorCode::RadioFault => 2,
        DeviceErrorCode::Unknown => 3,
    }
}

/// The device error code stored under `c`, if `c` is a valid code.
pub fn decode_error_code(c: i32) -> (r: Option<DeviceErrorCode>)
    ensures
        r == error_code_from_code(c),
{
    if c == 0 {
        Some(DeviceErrorCode::LowBattery)
    } else if c == 1 {
        Some(DeviceErrorCode::SensorFault)
    } else if c == 2 {
        Some(DeviceErrorCode::RadioFault)
    } else if c == 3 {
        Some(DeviceErrorCode::Unknown)
    } else {
        None
    }
}

// ---------------------------------------------------------------------------
// Metric type
// ---------------------------------------------------------------------------

pub open spec fn metric_type_code(t: SensorMetricType) -> i32 {
    match t {
        SensorMetricType::SoilMoisture => 0,
        SensorMetricType::SoilTemp => 1,
        SensorMetricType::AirTemp => 2,
        SensorMetricType::Humidity => 3,
        SensorMetricType::Rainfall => 4,
    }
}

/// The kind of quantity a metric measures.
pub open spec fn metric_type_of(m: SensorMetric) -> SensorMetricType {
    match m {
        SensorMetric::SoilMoisture { .. } => SensorMetricType::SoilMoisture,
        SensorMetric::SoilTemp { .. } => SensorMetricType::SoilTemp,
        SensorMetric::AirTemp { .. } => SensorMetricType::AirTemp,
        SensorMetric::Humidity { .. } => SensorMetricType::Humidity,
        SensorMetric::Rainfall { .. } => SensorMetricType::Rainfall,
    }
}

/// The stored code of a metric type.
pub fn encode_metric_type(t: SensorMetricType) -> (c: i32)
    ensures
        c == metric_type_code(t),
{
    match t {
        SensorMetricType::SoilMoisture => 0,
        SensorMetricType::SoilTemp => 1,
        SensorMetricType::AirTemp => 2,
        SensorMetricType::Humidity => 3,
        SensorMetricType::Rainfall => 4,
    }
}

/// The metric type of a metric.
pub fn metric_type(m: SensorMetric) -> (t: SensorMetricType)
    ensures
        t == metric_type_of(m),
{
    match m {
        SensorMetric::SoilMoisture { .. } => SensorMetricType::SoilMoisture,
        SensorMetric::SoilTemp { .. } => SensorMetricType::SoilTemp,
        SensorMetric::AirTemp { .. } => SensorMetricType::AirTemp,
        SensorMetric::Humidity { .. } => SensorMetricType::Humidity,
        SensorMetric::Rainfall { .. } => SensorMetricType::Rainfall,
    }
}

// ---------------------------------------------------------------------------
// Laws
// ---------------------------------------------------------------------------

/// Every stored code decodes back to what it encodes, and a code decodes to
/// a value only if it is that value's code.
pub proof fn law_codes_roundtrip(
    ds: DeviceState,
    dk: DeviceKind,
    ps: DispatcherState,
    sk: SensorKind,
    ss: SensorState,
    ec: DeviceErrorCode,
    c: i32,
)
    ensures
        device_state_from_code(device_state_code(ds)) == Some(ds),
        device_kind_from_code(device_kind_code(dk)) == Some(dk),
        dispatcher_state_from_code(dispatcher_state_code(ps)) == Some(ps),
        sensor_kind_from_code(sensor_kind_code(sk)) == Some(sk),
        sensor_state_from_code(sensor_state_code(ss)) == Some(ss),
        error_code_from_code(error_code_code(ec)) == Some(ec),
        device_state_from_code(c) matches Some(x) ==> device_state_code(x) == c,
        device_kind_from_code(c) matches Some(x) ==> device_kind_code(x) == c,
        dispatcher_state_from_code(c) matches Some(x) ==> dispatcher_state_code(x) == c,
        sensor_kind_from_code(c) matches Some(x) ==> sensor_kind_code(x) == c,
        sensor_state_from_code(c) matches Some(x) ==> sensor_state_code(x) == c,
        error_code_from_code(c) matches Some(x) ==> error_code_code(x) == c,
{
}

/// The stored codes, fixed so that databases written earlier read back the
/// same: active before suspended, sensor kinds and metric types in the
/// order soil moisture, soil temperature, air temperature, humidity,
/// rainfall, error codes and sensor states in their declared order, each
/// numbered from zero.
pub proof fn law_stored_code_values()
    ensures
        device_state_code(DeviceState::Active) == 0,
        device_state_code(DeviceState::Suspended) == 1,
        device_kind_code(DeviceKind::Sensor) == 0,
        dispatcher_state_code(DispatcherState::Active) == 0,
        dispatcher_state_code(DispatcherState::Suspended) == 1,
        sensor_kind_code(SensorKind::SoilMoisture) == 0,
        sensor_kind_code(SensorKind::SoilTemp) == 1,
        sensor_kind_code(SensorKind::AirTemp) == 2,
        sensor_kind_code(SensorKind::Humidity) == 3,
        sensor_kind_code(SensorKind::Rainfall) == 4,
        metric_type_code(SensorMetricType::SoilMoisture) == 0,
        metric_type_code(SensorMetricType::SoilTemp) == 1,
        metric_type_code(SensorMetricType::AirTemp) == 2,
        metric_type_code(SensorMetricType::Humidity) == 3,
        metric_type_code(SensorMetricType::Rainfall) == 4,
        error_code_code(DeviceErrorCode::LowBattery) == 0,
        error_code_code(DeviceErrorCode::SensorFault) == 1,
        error_code_code(DeviceErrorCode::RadioFault) == 2,
        error_code_code(DeviceErrorCode::Unknown) == 3,
        sensor_state_code(SensorState::Active) == 0,
        sensor_state_code(SensorState::Faulty) == 1,
        sensor_state_code(SensorState::Inactive) == 2,
{
}

} // verus!
