use ersha::edge::{
    register_sensor, Engine, Error, SensorMetric, SensorMetricKind, SensorRegistry, TaggedReading, MAX_SENSORS,
};

#[test]
fn calibration_clamps_and_saturates() {
    assert_eq!(SensorMetric::SoilMoisture(95).calibrate(10), SensorMetric::SoilMoisture(100));
    assert_eq!(SensorMetric::Humidity(5).calibrate(-10), SensorMetric::Humidity(0));
    assert_eq!(SensorMetric::Humidity(50).calibrate(7), SensorMetric::Humidity(57));
    assert_eq!(SensorMetric::SoilTemp(i16::MAX - 1).calibrate(5), SensorMetric::SoilTemp(i16::MAX));
    assert_eq!(SensorMetric::AirTemp(i16::MIN + 1).calibrate(-5), SensorMetric::AirTemp(i16::MIN));
    assert_eq!(SensorMetric::AirTemp(2543).calibrate(-43), SensorMetric::AirTemp(2500));
    assert_eq!(SensorMetric::Rainfall(10).calibrate(-20), SensorMetric::Rainfall(0));
    assert_eq!(SensorMetric::Rainfall(u16::MAX - 1).calibrate(100), SensorMetric::Rainfall(u16::MAX));
}

#[test]
fn engine_numbers_readings_and_wraps() {
    let mut engine = Engine::new(42);
    let reading = TaggedReading { sensor_id: 7, metric: SensorMetric::SoilMoisture(3) };
    let first = engine.next_packet(reading);
    assert_eq!(first.reading_id, 0);
    assert_eq!(first.device_id, 42);
    for _ in 0..65534 {
        engine.next_packet(reading);
    }
    assert_eq!(engine.next_packet(reading).reading_id, 65535);
    assert_eq!(engine.next_packet(reading).reading_id, 0);
}

#[test]
fn sensor_registry_fills_up() {
    let mut registry = SensorRegistry::new();
    assert_eq!(register_sensor(&mut registry, SensorMetricKind::AirTemp), Ok(0));
    assert_eq!(register_sensor(&mut registry, SensorMetricKind::Rainfall), Ok(1));
    let caps = registry.capabilities();
    assert_eq!(caps.len(), 2);
    assert_eq!(caps[1].sensor_id, 1);
    assert_eq!(caps[1].metric, SensorMetricKind::Rainfall);
    for _ in 2..MAX_SENSORS {
        registry.register(SensorMetricKind::Humidity).unwrap();
    }
    assert_eq!(register_sensor(&mut registry, SensorMetricKind::AirTemp), Err(Error::TooManySensors));
    assert_eq!(registry.capabilities().len(), MAX_SENSORS);
}
