//! The edge device: its metrics and their calibration, its sensor
//! registry, the frames it sends, and the numbering of its readings.
use vstd::prelude::*;

verus! {

// ---------------------------------------------------------------------------
// Errors
// ---------------------------------------------------------------------------

/// Why the device could not do what it was asked.
#[derive(Debug, Clone, Copy, PartialEq, Eq, Structural)]
pub enum Error {
    UnableToSend,
    SerializationFailed,
    ServerNotFound,
    TooManySensors,
}

/// Why a sensor could not be read.
#[derive(Debug, Clone, Copy, PartialEq, Eq, Structural)]
pub enum SensorError {
    Timeout,
    InvalidData,
}

// ---------------------------------------------------------------------------
// Metrics
// ---------------------------------------------------------------------------

/// A measurement as the device encodes it: percentages as whole numbers,
/// temperatures and rainfall scaled by 100.
#[derive(Debug, Clone, Copy, PartialEq, Eq, Structural)]
pub enum SensorMetric {
    /// Percentage 0-100.
    SoilMoisture(u8),
    /// Degrees Celsius times 100.
    SoilTemp(i16),
    /// Degrees Celsius times 100.
    AirTemp(i16),
    /// Percentage 0-100.
    Humidity(u8),
    /// Millimetres times 100.
    Rainfall(u16),
}

/// `v` limited to `lo..=hi`.
pub open spec fn clamp(v: int, lo: int, hi: int) -> int {
    if v < lo {
        lo
    } else if v > hi {
        hi
    } else {
        v
    }
}

/// Whether calibrating `m` by `offset` stays within the arithmetic the
/// device does: a percentage plus the offset must fit in an `i16`.
pub open spec fn calibration_defined(m: SensorMetric, offset: i16) -> bool {
    match m {
        SensorMetric::SoilMoisture(v) => i16::MIN <= v + offset <= i16::MAX,
        SensorMetric::Humidity(v) => i16::MIN <= v + offset <= i16::MAX,
        _ => true,
    }
}

/// `m` with `offset` added: percentages are kept within 0 to 100,
/// temperatures saturate at the ends of `i16`, rainfall is kept within
/// 0 to `u16::MAX`.
pub open spec fn calibrated(m: SensorMetric, offset: i16) -> SensorMetric {
    match m {
        SensorMetric::SoilMoisture(v) => SensorMetric::SoilMoisture(clamp(v + offset, 0, 100) as u8),
        SensorMetric::Humidity(v) => SensorMetric::Humidity(clamp(v + offset, 0, 100) as u8),
        SensorMetric::SoilTemp(v) => SensorMetric::SoilTemp(clamp(v + offset, i16::MIN as int, i16::MAX as int) as i16),
        SensorMetric::AirTemp(v) => SensorMetric::AirTemp(clamp(v + offset, i16::MIN as int, i16::MAX as int) as i16),
        SensorMetric::Rainfall(v) => SensorMetric::Rainfall(clamp(v + offset, 0, u16::MAX as int) as u16),
    }
}

fn clamp_percent(v: i16) -> (r: u8)
    ensures
        r == clamp(v as int, 0, 100),
{
    if v < 0 {
        0
    } else if v > 100 {
        100
    } else {
        v as u8
    }
}

/// `a + b`, saturating at the ends of `i16`.
fn saturating_add_i16(a: i16, b: i16) -> (r: i16)
    ensures
        r == clamp(a + b, i16::MIN as int, i16::MAX as int),
{
    let v = a as i32 + b as i32;
    if v < -32768 {
        -32768
    } else if v > 32767 {
        32767
    } else {
        v as i16
    }
}

impl SensorMetric {
    /// Adds a calibration offset.
    pub fn calibrate(self, offset: i16) -> (r: SensorMetric)
        requires
            calibration_defined(self, offset),
        ensures
            r == calibrated(self, offset),
    {
        match self {
            SensorMetric::SoilMoisture(val) => {
                let v = val as i16 + offset;
                SensorMetric::SoilMoisture(clamp_percent(v))
            },
            SensorMetric::Humidity(val) => {
                let v = val as i16 + offset;
                SensorMetric::Humidity(clamp_percent(v))
            },
            SensorMetric::SoilTemp(val) => SensorMetric::SoilTemp(saturating_add_i16(val, offset)),
            SensorMetric::AirTemp(val) => SensorMetric::AirTemp(saturating_add_i16(val, offset)),
            SensorMetric::Rainfall(val) => {
                let v = val as i32 + offset as i32;
                let c: i32 = if v < 0 {
                    0
                } else if v > 65535 {
                    65535
                } else {
                    v
                };
                SensorMetric::Rainfall(c as u16)
            },
        }
    }
}

/// A calibrated percentage is always between 0 and 100, whatever the
/// offset; and an offset of zero changes no metric that is already in
/// range.
pub proof fn law_calibration_bounds(m: SensorMetric, offset: i16)
    ensures
        calibrated(m, offset) matches SensorMetric::SoilMoisture(v) ==> v <= 100,
        calibrated(m, offset) matches SensorMetric::Humidity(v) ==> v <= 100,
        (m matches SensorMetric::SoilMoisture(v) && v <= 100) ==> calibrated(m, 0) == m,
        (m matches SensorMetric::Humidity(v) && v <= 100) ==> calibrated(m, 0) == m,
        !(m is SoilMoisture) && !(m is Humidity) ==> calibrated(m, 0) == m,
{
}

// ---------------------------------------------------------------------------
// Frames
// ---------------------------------------------------------------------------

/// The first two bytes of every frame.
pub const PACKET_PREAMBLE: u16 = 0xE45A;

/// The version of the frame format.
pub const PROTOCOL_VERSION: u8 = 0x01;

/// The largest frame.
pub const MAX_PACKET_SIZE: usize = 128;

/// The size of the preamble.
pub const PREAMBLE_SIZE: usize = 2;

/// The size of the header that follows the preamble.
pub const PACKET_HEADER_SIZE: usize = 6;

/// The largest payload of a frame.
pub const MAX_PAYLOAD_SIZE: usize = 120;

/// The largest payload is what a frame leaves after preamble and header.
pub proof fn law_payload_size()
    ensures
        MAX_PAYLOAD_SIZE == MAX_PACKET_SIZE - PREAMBLE_SIZE - PACKET_HEADER_SIZE,
{
}

/// What a frame carries.
#[derive(Debug, Clone, Copy, PartialEq, Eq, Structural)]
pub enum MsgType {
    Reading,
}

/// A frame: preamble, version, type, and an encoded payload.
#[derive(Debug)]
pub struct Msg<'a> {
    pub preamble: u16,
    pub version: u8,
    pub msg_type: MsgType,
    pub payload: &'a [u8],
}

/// The frame that carries an encoded reading.
pub fn reading_msg<'a>(payload: &'a [u8]) -> (m: Msg<'a>)
    ensures
        m.preamble == PACKET_PREAMBLE,
        m.version == PROTOCOL_VERSION,
        m.msg_type == MsgType::Reading,
        m.payload@ == payload@,
{
    Msg { preamble: PACKET_PREAMBLE, version: PROTOCOL_VERSION, msg_type: MsgType::Reading, payload }
}

/// A reading as the device sends it.
#[derive(Debug, Clone, Copy, PartialEq, Eq, Structural)]
pub struct ReadingPacket {
    pub device_id: u128,
    pub sensor_id: u128,
    pub reading_id: u16,
    pub metric: SensorMetric,
}

/// A reading taken by a sensor task, tagged with the sensor.
#[derive(Debug, Clone, Copy, PartialEq, Eq, Structural)]
pub struct TaggedReading {
    pub sensor_id: u128,
    pub metric: SensorMetric,
}

// ---------------------------------------------------------------------------
// The engine
// ---------------------------------------------------------------------------

/// Numbers the readings of a provisioned device and turns them into
/// packets.
pub struct Engine {
    device_id: u128,
    reading_seq: u16,
}

impl Engine {
    /// The device the engine numbers readings for.
    pub closed spec fn device(&self) -> u128 {
        self.device_id
    }

    /// The device the engine numbers readings for.
    pub fn device_id(&self) -> (d: u128)
        ensures
            d == self.device(),
    {
        self.device_id
    }

    /// The number the next reading gets.
    pub closed spec fn seq(&self) -> u16 {
        self.reading_seq
    }

    /// An engine for the device the server provisioned; readings are
    /// numbered from zero.
    pub fn new(device_id: u128) -> (e: Engine)
        ensures
            e.device() == device_id,
            e.seq() == 0,
    {
        Engine { device_id, reading_seq: 0 }
    }

    /// The packet for the next reading; the number after the largest is
    /// zero again.
    pub fn next_packet(&mut self, reading: TaggedReading) -> (p: ReadingPacket)
        ensures
            p == (ReadingPacket {
                device_id: old(self).device(),
                sensor_id: reading.sensor_id,
                reading_id: old(self).seq(),
                metric: reading.metric,
            }),
            final(self).device() == old(self).device(),
            final(self).seq() == (old(self).seq() + 1) % 65536,
    {
        let p = ReadingPacket {
            device_id: self.device_id,
            sensor_id: reading.sensor_id,
            reading_id: self.reading_seq,
            metric: reading.metric,
        };
        self.reading_seq = self.reading_seq.wrapping_add(1);
        p
    }
}

/// After `n` readings the number has advanced by `n`, modulo 2^16.
pub open spec fn seq_after(start: u16, n: nat) -> u16 {
    ((start + n) % 65536) as u16
}

/// Numbering one more reading advances the count by one more.
pub proof fn law_reading_numbers_wrap(start: u16, n: nat)
    ensures
        ((seq_after(start, n) + 1) % 65536) as u16 == seq_after(start, n + 1),
        seq_after(start, 65536) == start,
{
    assert(((start + n) % 65536 + 1) % 65536 == (start + n + 1) % 65536) by (nonlinear_arith);
    assert((start + 65536nat) % 65536 == start) by (nonlinear_arith);
}

// ---------------------------------------------------------------------------
// The sensor registry
// ---------------------------------------------------------------------------

/// The most sensors a device registers.
pub const MAX_SENSORS: usize = 128;

/// The kind of quantity a sensor measures.
#[derive(Debug, Clone, Copy, PartialEq, Eq, Structural)]
pub enum SensorMetricKind {
    SoilMoisture,
    SoilTemp,
    AirTemp,
    Humidity,
    Rainfall,
}

/// A registered sensor as the device announces it.
#[derive(Debug, Clone, Copy, PartialEq, Eq, Structural)]
pub struct SensorCapability {
    pub sensor_id: u8,
    pub metric: SensorMetricKind,
}

/// The sensors of a device, numbered from zero in the order they register.
pub struct SensorRegistry {
    next_id: u128,
    sensors: Vec<Option<SensorMetricKind>>,
}

impl SensorRegistry {
    /// The kinds registered so far, in order of their numbers.
    pub closed spec fn kinds(&self) -> Seq<SensorMetricKind> {
        Seq::new(self.next_id as nat, |i: int| self.sensors@[i]->0)
    }

    /// The numbers given out so far are exactly the slots in use.
    pub closed spec fn well_formed(&self) -> bool {
        &&& self.sensors@.len() == MAX_SENSORS
        &&& self.next_id <= MAX_SENSORS
        &&& forall|i: int| 0 <= i < MAX_SENSORS ==> (#[trigger] self.sensors@[i] is Some <==> i < self.next_id)
    }

    /// A registry with no sensor.
    pub fn new() -> (r: SensorRegistry)
        ensures
            r.well_formed(),
            r.kinds() == Seq::<SensorMetricKind>::empty(),
    {
        let mut sensors: Vec<Option<SensorMetricKind>> = Vec::new();
        let mut i: usize = 0;
        while i < MAX_SENSORS
            invariant
                i <= MAX_SENSORS,
                sensors@.len() == i,
                forall|k: int| 0 <= k < i ==> #[trigger] sensors@[k] is None,
            decreases MAX_SENSORS - i,
        {
            sensors.push(None);
            i = i + 1;
        }
        let r = SensorRegistry { next_id: 0, sensors };
        assert(r.kinds() =~= Seq::<SensorMetricKind>::empty());
        r
    }

    /// Registers a sensor and gives its number; `None` once the registry
    /// is full.
    pub fn register(&mut self, metric: SensorMetricKind) -> (r: Option<u128>)
        requires
            old(self).well_formed(),
        ensures
            final(self).well_formed(),
            old(self).kinds().len() >= MAX_SENSORS ==> r is None && final(self).kinds() == old(self).kinds(),
            old(self).kinds().len() < MAX_SENSORS ==> r == Some(old(self).kinds().len() as u128)
                && final(self).kinds() == old(self).kinds().push(metric),
    {
        if self.next_id >= 128 {
            return None;
        }
        let id = self.next_id;
        let ghost before = self.kinds();
        let mut sensors: Vec<Option<SensorMetricKind>> = Vec::new();
        std::mem::swap(&mut sensors, &mut self.sensors);
        sensors.set(id as usize, Some(metric));
        self.sensors = sensors;
        self.next_id = id + 1;
        assert(self.kinds() =~= before.push(metric));
        Some(id)
    }

    /// The registered sensors, in order of their numbers.
    pub fn capabilities(&self) -> (r: Vec<SensorCapability>)
        requires
            self.well_formed(),
        ensures
            r@.len() == self.kinds().len(),
            forall|i: int| 0 <= i < r@.len() ==> #[trigger] r@[i] == (SensorCapability {
                sensor_id: i as u8,
                metric: self.kinds()[i],
            }),
    {
        let mut r: Vec<SensorCapability> = Vec::new();
        let mut i: usize = 0;
        while i < self.sensors.len()
            invariant
                i <= self.sensors@.len(),
                self.sensors@.len() == MAX_SENSORS,
                self.next_id <= MAX_SENSORS,
                forall|k: int| 0 <= k < MAX_SENSORS ==> (#[trigger] self.sensors@[k] is Some <==> k < self.next_id),
                r@.len() == if i < self.next_id { i as int } else { self.next_id as int },
                forall|k: int| 0 <= k < r@.len() ==> #[trigger] r@[k] == (SensorCapability {
                    sensor_id: k as u8,
                    metric: self.kinds()[k],
                }),
            decreases self.sensors@.len() - i,
        {
            match self.sensors[i] {
                Some(m) => {
                    r.push(SensorCapability { sensor_id: i as u8, metric: m });
                },
                None => {},
            }
            i = i + 1;
        }
        r
    }
}

/// Registers a sensor, failing with `TooManySensors` once the registry is
/// full.
pub fn register_sensor(registry: &mut SensorRegistry, metric: SensorMetricKind) -> (r: Result<u128, Error>)
    requires
        old(registry).well_formed(),
    ensures
        final(registry).well_formed(),
        old(registry).kinds().len() >= MAX_SENSORS ==> r == Err::<u128, Error>(Error::TooManySensors)
            && final(registry).kinds() == old(registry).kinds(),
        old(registry).kinds().len() < MAX_SENSORS ==> r == Ok::<u128, Error>(old(registry).kinds().len() as u128)
            && final(registry).kinds() == old(registry).kinds().push(metric),
{
    match registry.register(metric) {
        Some(id) => Ok(id),
        None => Err(Error::TooManySensors),
    }
}

} // verus!
