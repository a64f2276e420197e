//! The framed binary protocol spoken between edge devices and dispatchers.
//!
//! A frame is `preamble(2) + header(6) + payload`, all integers little endian.
use vstd::prelude::*;

verus! {

pub const PACKET_PREAMBLE: u16 = 0xE45A;

pub const PROTOCOL_VERSION: u8 = 0x01;

pub const MAX_PACKET_SIZE: usize = 128;

pub const PREAMBLE_SIZE: usize = 2;

pub const PACKET_HEADER_SIZE: usize = 6;

pub const MAX_PAYLOAD_SIZE: usize = MAX_PACKET_SIZE - PREAMBLE_SIZE - PACKET_HEADER_SIZE;

/// Why a frame could not be built or read.
#[derive(Debug, Clone, PartialEq, Eq)]
pub enum ProtocolError {
    InvalidPreamble(u16),
    CrcMismatch { expected: u16, actual: u16 },
    InsufficientData { needed: usize, available: usize },
    UnsupportedVersion(u8),
    InvalidPacketType(u8),
    InvalidSensorType(u8),
    InvalidDataFormat(u8),
    PayloadTooLarge { size: usize, max: usize },
    IoError(String),
}

pub type ParseResult<T> = Result<T, ProtocolError>;

// ---------------------------------------------------------------------------
// Little-endian 16-bit integers
// ---------------------------------------------------------------------------

/// The value of the little-endian pair `[lo, hi]`.
pub open spec fn u16_le(lo: u8, hi: u8) -> u16 {
    (lo as int + 256 * (hi as int)) as u16
}

/// The low byte of `v`.
pub open spec fn u16_low(v: u16) -> u8 {
    (v % 256) as u8
}

/// The high byte of `v`.
pub open spec fn u16_high(v: u16) -> u8 {
    (v / 256) as u8
}

/// Splitting a value into its two bytes and joining them gives it back,
/// and joining two bytes then splitting gives the bytes back.
pub proof fn lemma_u16_le_roundtrip(v: u16, lo: u8, hi: u8)
    ensures
        u16_le(u16_low(v), u16_high(v)) == v,
        u16_low(u16_le(lo, hi)) == lo,
        u16_high(u16_le(lo, hi)) == hi,
{
}

fn read_u16_le(lo: u8, hi: u8) -> (v: u16)
    ensures
        v == u16_le(lo, hi),
{
    (lo as u16) + (hi as u16) * 256
}

fn write_u16_le(v: u16) -> (r: (u8, u8))
    ensures
        r.0 == u16_low(v),
        r.1 == u16_high(v),
{
    ((v % 256) as u8, (v / 256) as u8)
}

// ---------------------------------------------------------------------------
// Packet type
// ---------------------------------------------------------------------------

/// The kind of a frame.
#[derive(Debug, Clone, Copy, PartialEq, Eq, Structural)]
pub enum PacketType {
    SensorData,
    Heartbeat,
}

/// The wire code of a packet type.
pub open spec fn packet_type_code(t: PacketType) -> u8 {
    match t {
        PacketType::SensorData => 0x01,
        PacketType::Heartbeat => 0x02,
    }
}

/// The packet type that a wire code names, or the error for an unknown code.
pub open spec fn packet_type_from_code(value: u8) -> Result<PacketType, ProtocolError> {
    if value == 0x01 {
        Ok(PacketType::SensorData)
    } else if value == 0x02 {
        Ok(PacketType::Heartbeat)
    } else {
        Err(ProtocolError::InvalidPacketType(value))
    }
}

impl PacketType {
    /// Reads a packet type from its wire code.
    pub fn try_from(value: u8) -> (r: Result<PacketType, ProtocolError>)
        ensures
            r == packet_type_from_code(value),
    {
        if value == 0x01 {
            Ok(PacketType::SensorData)
        } else if value == 0x02 {
            Ok(PacketType::Heartbeat)
        } else {
            Err(ProtocolError::InvalidPacketType(value))
        }
    }

    /// The wire code of this packet type.
    pub fn code(self) -> (c: u8)
        ensures
            c == packet_type_code(self),
    {
        match self {
            PacketType::SensorData => 0x01,
            PacketType::Heartbeat => 0x02,
        }
    }
}

/// Every packet type is read back from its own code.
pub proof fn lemma_packet_type_code_roundtrip(t: PacketType, value: u8)
    ensures
        packet_type_from_code(packet_type_code(t)) == Ok::<PacketType, ProtocolError>(t),
        packet_type_from_code(value) matches Ok(u) ==> packet_type_code(u) == value,
{
}

// ---------------------------------------------------------------------------
// Header
// ---------------------------------------------------------------------------

/// The six-byte frame header.
#[derive(Debug, Clone, Copy, PartialEq, Eq, Structural)]
pub struct PacketHeader {
    pub version: u8,
    pub packet_type: PacketType,
    pub node_id: u16,
    pub payload_len: u16,
}

/// The header that the first six bytes of `b` hold, or why they hold none.
pub open spec fn header_decode(b: Seq<u8>) -> Result<PacketHeader, ProtocolError> {
    if b.len() < 6 {
        Err(ProtocolError::InsufficientData { needed: 6, available: b.len() as usize })
    } else if b[0] != PROTOCOL_VERSION {
        Err(ProtocolError::UnsupportedVersion(b[0]))
    } else {
        match packet_type_from_code(b[1]) {
            Err(e) => Err(e),
            Ok(t) => Ok(
                PacketHeader {
                    version: b[0],
                    packet_type: t,
                    node_id: u16_le(b[2], b[3]),
                    payload_len: u16_le(b[4], b[5]),
                },
            ),
        }
    }
}

/// The six bytes of a header.
pub open spec fn header_encode(h: PacketHeader) -> Seq<u8> {
    seq![
        h.version,
        packet_type_code(h.packet_type),
        u16_low(h.node_id),
        u16_high(h.node_id),
        u16_low(h.payload_len),
        u16_high(h.payload_len),
    ]
}

impl PacketHeader {
    /// A header of the current protocol version.
    pub fn new(packet_type: PacketType, node_id: u16, payload_len: u16) -> (h: PacketHeader)
        ensures
            h == (PacketHeader { version: PROTOCOL_VERSION, packet_type, node_id, payload_len }),
    {
        PacketHeader { version: PROTOCOL_VERSION, packet_type: packet_type, node_id, payload_len }
    }

    /// Reads a header from the first six bytes of `bytes`.
    pub fn from_bytes(bytes: &[u8]) -> (r: ParseResult<PacketHeader>)
        ensures
            r == header_decode(bytes@),
    {
        if bytes.len() < 6 {
            return Err(ProtocolError::InsufficientData { needed: 6, available: bytes.len() });
        }
        if bytes[0] != PROTOCOL_VERSION {
            return Err(ProtocolError::UnsupportedVersion(bytes[0]));
        }
        let packet_type = match PacketType::try_from(bytes[1]) {
            Ok(t) => t,
            Err(e) => return Err(e),
        };
        Ok(
            PacketHeader {
                version: bytes[0],
                packet_type,
                node_id: read_u16_le(bytes[2], bytes[3]),
                payload_len: read_u16_le(bytes[4], bytes[5]),
            },
        )
    }

    /// The six bytes of this header.
    pub fn to_bytes(&self) -> (r: [u8; 6])
        ensures
            r@ == header_encode(*self),
    {
        let (node_lo, node_hi) = write_u16_le(self.node_id);
        let (len_lo, len_hi) = write_u16_le(self.payload_len);
        let r = [self.version, self.packet_type.code(), node_lo, node_hi, len_lo, len_hi];
        assert(r@ =~= header_encode(*self));
        r
    }
}

/// A header of the current version is read back from its own bytes.
pub proof fn lemma_header_roundtrip(h: PacketHeader)
    requires
        h.version == PROTOCOL_VERSION,
    ensures
        header_decode(header_encode(h)) == Ok::<PacketHeader, ProtocolError>(h),
{
    lemma_u16_le_roundtrip(h.node_id, 0, 0);
    lemma_u16_le_roundtrip(h.payload_len, 0, 0);
    lemma_packet_type_code_roundtrip(h.packet_type, 0);
}

/// Bytes that read as a header are exactly that header's bytes.
pub proof fn lemma_header_bytes_canonical(b: Seq<u8>)
    requires
        header_decode(b) is Ok,
    ensures
        header_encode(header_decode(b)->Ok_0) =~= b.take(6),
{
    lemma_u16_le_roundtrip(0, b[2], b[3]);
    lemma_u16_le_roundtrip(0, b[4], b[5]);
    lemma_packet_type_code_roundtrip(PacketType::SensorData, b[1]);
}


// ---------------------------------------------------------------------------
// Packet
// ---------------------------------------------------------------------------

/// A full frame: preamble, header and a fixed-size payload buffer of which
/// the first `header.payload_len` bytes are meaningful.
#[derive(Debug, Clone, Copy)]
pub struct Packet {
    pub preamble: u16,
    pub header: PacketHeader,
    pub payload: [u8; MAX_PAYLOAD_SIZE],
}

/// The abstract content of a frame: preamble, header and payload buffer.
pub struct PacketView {
    pub preamble: u16,
    pub header: PacketHeader,
    pub payload: Seq<u8>,
}

impl View for Packet {
    type V = PacketView;

    open spec fn view(&self) -> PacketView {
        PacketView { preamble: self.preamble, header: self.header, payload: self.payload@ }
    }
}

/// `s` followed by zero bytes up to length `n`.
pub open spec fn zero_padded(s: Seq<u8>, n: nat) -> Seq<u8> {
    s + Seq::new((n - s.len()) as nat, |i: int| 0u8)
}

/// Whether reading `b` as a frame would copy no more payload than the
/// buffer holds (a longer declared payload makes the read panic).
pub open spec fn frame_payload_fits(b: Seq<u8>) -> bool {
    (b.len() >= 8 && u16_le(b[0], b[1]) == PACKET_PREAMBLE && header_decode(b.subrange(2, 8)) is Ok
        && b.len() >= 8 + header_decode(b.subrange(2, 8))->Ok_0.payload_len)
        ==> header_decode(b.subrange(2, 8))->Ok_0.payload_len <= MAX_PAYLOAD_SIZE
}

/// The frame that `b` starts with, or why it starts with none.
pub open spec fn packet_decode(b: Seq<u8>) -> Result<PacketView, ProtocolError> {
    if b.len() < 8 {
        Err(ProtocolError::InsufficientData { needed: 8, available: b.len() as usize })
    } else if u16_le(b[0], b[1]) != PACKET_PREAMBLE {
        Err(ProtocolError::InvalidPreamble(u16_le(b[0], b[1])))
    } else {
        match header_decode(b.subrange(2, 8)) {
            Err(e) => Err(e),
            Ok(h) => {
                let total = 8 + h.payload_len;
                if b.len() < total {
                    Err(
                        ProtocolError::InsufficientData {
                            needed: total as usize,
                            available: b.len() as usize,
                        },
                    )
                } else {
                    Ok(
                        PacketView {
                            preamble: u16_le(b[0], b[1]),
                            header: h,
                            payload: zero_padded(b.subrange(8, total), MAX_PAYLOAD_SIZE as nat),
                        },
                    )
                }
            },
        }
    }
}

/// The 128 bytes of a frame: preamble, header, payload, then zeros.
pub open spec fn packet_encode(p: PacketView) -> Seq<u8> {
    zero_padded(
        seq![u16_low(p.preamble), u16_high(p.preamble)] + header_encode(p.header)
            + p.payload.take(p.header.payload_len as int),
        MAX_PACKET_SIZE as nat,
    )
}

/// A frame as `Packet::new` makes it: right preamble and version, a payload
/// that fits, and zeros after the payload.
pub open spec fn packet_well_formed(p: PacketView) -> bool {
    &&& p.preamble == PACKET_PREAMBLE
    &&& p.header.version == PROTOCOL_VERSION
    &&& p.header.payload_len <= MAX_PAYLOAD_SIZE
    &&& p.payload.len() == MAX_PAYLOAD_SIZE
    &&& forall|i: int| p.header.payload_len <= i < MAX_PAYLOAD_SIZE ==> p.payload[i] == 0u8
}

impl Packet {
    /// Builds a frame around `payload`; fails when the payload does not fit.
    pub fn new(packet_type: PacketType, node_id: u16, payload: &[u8]) -> (r: ParseResult<Packet>)
        ensures
            payload@.len() > MAX_PAYLOAD_SIZE ==> r == Err::<Packet, ProtocolError>(
                ProtocolError::PayloadTooLarge { max: MAX_PACKET_SIZE, size: payload@.len() as usize },
            ),
            payload@.len() <= MAX_PAYLOAD_SIZE ==> (r matches Ok(p) && p@ == (PacketView {
                preamble: PACKET_PREAMBLE,
                header: PacketHeader {
                    version: PROTOCOL_VERSION,
                    packet_type,
                    node_id,
                    payload_len: payload@.len() as u16,
                },
                payload: zero_padded(payload@, MAX_PAYLOAD_SIZE as nat),
            })),
            r matches Ok(p) ==> packet_well_formed(p@),
    {
        if payload.len() > MAX_PAYLOAD_SIZE {
            return Err(ProtocolError::PayloadTooLarge { max: MAX_PACKET_SIZE, size: payload.len() });
        }
        let mut buf = [0u8; MAX_PAYLOAD_SIZE];
        let n = payload.len();
        let mut i: usize = 0;
        while i < n
            invariant
                n == payload@.len(),
                n <= MAX_PAYLOAD_SIZE,
                i <= n,
                buf@.len() == MAX_PAYLOAD_SIZE,
                forall|k: int| 0 <= k < i ==> buf@[k] == payload@[k],
                forall|k: int| i <= k < MAX_PAYLOAD_SIZE ==> buf@[k] == 0u8,
            decreases n - i,
        {
            buf[i] = payload[i];
            i = i + 1;
        }
        let p = Packet {
            preamble: PACKET_PREAMBLE,
            header: PacketHeader::new(packet_type, node_id, n as u16),
            payload: buf,
        };
        assert(p.payload@ =~= zero_padded(payload@, MAX_PAYLOAD_SIZE as nat));
        Ok(p)
    }

    /// Reads a frame from the start of `bytes`.
    pub fn from_bytes(bytes: &[u8]) -> (r: ParseResult<Packet>)
        requires
            frame_payload_fits(bytes@),
        ensures
            match packet_decode(bytes@) {
                Ok(v) => r matches Ok(p) && p@ == v,
                Err(e) => r == Err::<Packet, ProtocolError>(e),
            },
    {
        if bytes.len() < PREAMBLE_SIZE + PACKET_HEADER_SIZE {
            return Err(
                ProtocolError::InsufficientData {
                    needed: PREAMBLE_SIZE + PACKET_HEADER_SIZE,
                    available: bytes.len(),
                },
            );
        }
        let preamble = read_u16_le(bytes[0], bytes[1]);
        if preamble != PACKET_PREAMBLE {
            return Err(ProtocolError::InvalidPreamble(preamble));
        }
        let header = match PacketHeader::from_bytes(
            &bytes[PREAMBLE_SIZE..PREAMBLE_SIZE + PACKET_HEADER_SIZE],
        ) {
            Ok(h) => h,
            Err(e) => return Err(e),
        };
        let total_len = PREAMBLE_SIZE + PACKET_HEADER_SIZE + header.payload_len as usize;
        if bytes.len() < total_len {
            return Err(ProtocolError::InsufficientData { needed: total_len, available: bytes.len() });
        }
        let n = header.payload_len as usize;
        let mut payload = [0u8; MAX_PAYLOAD_SIZE];
        let mut i: usize = 0;
        while i < n
            invariant
                n == header.payload_len,
                n <= MAX_PAYLOAD_SIZE,
                8 + n <= bytes@.len(),
                i <= n,
                payload@.len() == MAX_PAYLOAD_SIZE,
                forall|k: int| 0 <= k < i ==> payload@[k] == bytes@[8 + k],
                forall|k: int| i <= k < MAX_PAYLOAD_SIZE ==> payload@[k] == 0u8,
            decreases n - i,
        {
            payload[i] = bytes[PREAMBLE_SIZE + PACKET_HEADER_SIZE + i];
            i = i + 1;
        }
        let p = Packet { preamble, header, payload };
        assert(p.payload@ =~= zero_padded(bytes@.subrange(8, total_len as int), MAX_PAYLOAD_SIZE as nat));
        Ok(p)
    }

    /// The 128 bytes of this frame.
    pub fn to_bytes(&self) -> (r: [u8; MAX_PACKET_SIZE])
        requires
            self.header.payload_len <= MAX_PAYLOAD_SIZE,
        ensures
            r@ == packet_encode(self@),
    {
        let mut bytes = [0u8; MAX_PACKET_SIZE];
        let (pre_lo, pre_hi) = write_u16_le(self.preamble);
        bytes[0] = pre_lo;
        bytes[1] = pre_hi;
        let header_bytes = self.header.to_bytes();
        let mut j: usize = 0;
        while j < PACKET_HEADER_SIZE
            invariant
                bytes@.len() == MAX_PACKET_SIZE,
                header_bytes@ == header_encode(self.header),
                j <= PACKET_HEADER_SIZE,
                bytes@[0] == u16_low(self.preamble),
                bytes@[1] == u16_high(self.preamble),
                forall|k: int| 0 <= k < j ==> bytes@[2 + k] == header_bytes@[k],
                forall|k: int| 2 + j <= k < MAX_PACKET_SIZE ==> bytes@[k] == 0u8,
            decreases PACKET_HEADER_SIZE - j,
        {
            bytes[PREAMBLE_SIZE + j] = header_bytes[j];
            j = j + 1;
        }
        let n = self.header.payload_len as usize;
        let mut i: usize = 0;
        while i < n
            invariant
                n == self.header.payload_len,
                n <= MAX_PAYLOAD_SIZE,
                i <= n,
                bytes@.len() == MAX_PACKET_SIZE,
                self.payload@.len() == MAX_PAYLOAD_SIZE,
                header_bytes@ == header_encode(self.header),
                bytes@[0] == u16_low(self.preamble),
                bytes@[1] == u16_high(self.preamble),
                forall|k: int| 0 <= k < 6 ==> bytes@[2 + k] == header_bytes@[k],
                forall|k: int| 0 <= k < i ==> bytes@[8 + k] == self.payload@[k],
                forall|k: int| 8 + i <= k < MAX_PACKET_SIZE ==> bytes@[k] == 0u8,
            decreases n - i,
        {
            bytes[PREAMBLE_SIZE + PACKET_HEADER_SIZE + i] = self.payload[i];
            i = i + 1;
        }
        assert(bytes@ =~= packet_encode(self@));
        bytes
    }
}

/// A well-formed frame is read back unchanged from its own bytes.
pub proof fn lemma_packet_roundtrip(p: PacketView)
    requires
        packet_well_formed(p),
    ensures
        frame_payload_fits(packet_encode(p)),
        packet_decode(packet_encode(p)) == Ok::<PacketView, ProtocolError>(p),
{
    let b = packet_encode(p);
    let n = p.header.payload_len as int;
    lemma_u16_le_roundtrip(p.preamble, 0, 0);
    lemma_header_roundtrip(p.header);
    assert(b.subrange(2, 8) =~= header_encode(p.header));
    assert(b.len() == 128);
    assert(b.subrange(8, 8 + n) =~= p.payload.take(n));
    assert(zero_padded(b.subrange(8, 8 + n), MAX_PAYLOAD_SIZE as nat) =~= p.payload);
}

// ---------------------------------------------------------------------------
// Sensor type codes
// ---------------------------------------------------------------------------

/// The kind of sensor a protocol payload comes from.
#[derive(Debug, Clone, Copy, PartialEq, Eq, Structural)]
pub enum SensorType {
    Temperature,
    Humidity,
    Pressure,
    Light,
    Motion,
    Battery,
    Accelerometer,
}

/// The wire code of a sensor type.
pub open spec fn sensor_type_code(t: SensorType) -> u8 {
    match t {
        SensorType::Temperature => 0x01,
        SensorType::Humidity => 0x02,
        SensorType::Pressure => 0x03,
        SensorType::Light => 0x04,
        SensorType::Motion => 0x05,
        SensorType::Battery => 0x06,
        SensorType::Accelerometer => 0x07,
    }
}

/// The sensor type that a wire code names, or the error for an unknown code.
pub open spec fn sensor_type_from_code(value: u8) -> Result<SensorType, ProtocolError> {
    if value == 0x01 {
        Ok(SensorType::Temperature)
    } else if value == 0x02 {
        Ok(SensorType::Humidity)
    } else if value == 0x03 {
        Ok(SensorType::Pressure)
    } else if value == 0x04 {
        Ok(SensorType::Light)
    } else if value == 0x05 {
        Ok(SensorType::Motion)
    } else if value == 0x06 {
        Ok(SensorType::Battery)
    } else if value == 0x07 {
        Ok(SensorType::Accelerometer)
    } else {
        Err(ProtocolError::InvalidSensorType(value))
    }
}

impl SensorType {
    /// Reads a sensor type from its wire code.
    pub fn try_from(value: u8) -> (r: Result<SensorType, ProtocolError>)
        ensures
            r == sensor_type_from_code(value),
    {
        match value {
            0x01 => Ok(SensorType::Temperature),
            0x02 => Ok(SensorType::Humidity),
            0x03 => Ok(SensorType::Pressure),
            0x04 => Ok(SensorType::Light),
            0x05 => Ok(SensorType::Motion),
            0x06 => Ok(SensorType::Battery),
            0x07 => Ok(SensorType::Accelerometer),
            _ => Err(ProtocolError::InvalidSensorType(value)),
        }
    }

    /// The wire code of this sensor type.
    pub fn code(self) -> (c: u8)
        ensures
            c == sensor_type_code(self),
    {
        match self {
            SensorType::Temperature => 0x01,
            SensorType::Humidity => 0x02,
            SensorType::Pressure => 0x03,
            SensorType::Light => 0x04,
            SensorType::Motion => 0x05,
            SensorType::Battery => 0x06,
            SensorType::Accelerometer => 0x07,
        }
    }
}

/// Sensor types and their codes are in one-to-one correspondence.
pub proof fn lemma_sensor_type_code_roundtrip(t: SensorType, value: u8)
    ensures
        sensor_type_from_code(sensor_type_code(t)) == Ok::<SensorType, ProtocolError>(t),
        sensor_type_from_code(value) matches Ok(u) ==> sensor_type_code(u) == value,
{
}

} // verus!
