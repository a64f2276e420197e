//! The JSON API of the prime service: request and response models, and
//! what the handlers compute between parsing a request and calling a
//! registry.
use vstd::prelude::*;

use crate::filter::Pagination;
use crate::idtext::{ulid_from_str, ulid_value};
use crate::model::{
    text_view, copy_text, Device, DeviceErrorCode, DeviceId, DeviceKind, DeviceState, DeviceView, Dispatcher,
    DispatcherId, DispatcherState, H3Cell, SensorState, Timestamp,
};
use crate::text::owned;

verus! {

// ---------------------------------------------------------------------------
// Models
// ---------------------------------------------------------------------------

/// A partial update of a device: every field that is given replaces the
/// stored one (for the manufacturer, `Some(None)` clears it).
#[derive(Debug)]
pub struct DeviceUpdateRequest {
    pub kind: Option<DeviceKind>,
    pub state: Option<DeviceState>,
    pub location: Option<H3Cell>,
    pub manufacturer: Option<Option<String>>,
}

/// A request to register a dispatcher.
#[derive(Debug, Clone, Copy)]
pub struct DispatcherCreateRequest {
    pub location: H3Cell,
}

/// A partial update of a dispatcher.
#[derive(Debug, Clone, Copy)]
pub struct DispatcherUpdateRequest {
    pub state: Option<DispatcherState>,
    pub location: Option<H3Cell>,
}

/// A device status as the API returns it.
#[derive(Debug)]
pub struct DeviceStatusResponse {
    pub id: String,
    pub device_id: String,
    pub dispatcher_id: String,
    pub battery_percent: u8,
    pub uptime_seconds: u64,
    pub signal_rssi: i16,
    pub errors: Vec<DeviceErrorResponse>,
    pub timestamp: String,
    pub sensor_statuses: Vec<SensorStatusResponse>,
}

/// A device error as the API returns it.
#[derive(Debug)]
pub struct DeviceErrorResponse {
    pub code: DeviceErrorCode,
    pub message: Option<String>,
}

/// A sensor state as the API returns it.
#[derive(Debug)]
pub struct SensorStatusResponse {
    pub sensor_id: String,
    pub state: SensorState,
    pub last_reading: Option<String>,
}

/// The envelope of every answer.
#[derive(Debug)]
pub struct ApiResponse<T> {
    pub success: bool,
    pub data: Option<T>,
    pub message: Option<String>,
}

/// One page of a listing.
#[derive(Debug)]
pub struct ListResponse<T> {
    pub items: Vec<T>,
    pub total: usize,
    pub page: Option<usize>,
    pub per_page: Option<usize>,
    pub has_more: bool,
}

/// The query of a listing.
#[derive(Debug, Default)]
pub struct ListQueryParams {
    pub offset: Option<usize>,
    pub limit: Option<usize>,
    pub sort_by: Option<String>,
    pub sort_order: Option<String>,
}

impl<T> ApiResponse<T> {
    /// A successful answer carrying `data`.
    pub fn ok(data: T, message: Option<String>) -> (r: ApiResponse<T>)
        ensures
            r.success && r.data == Some(data) && r.message == message,
    {
        ApiResponse { success: true, data: Some(data), message }
    }

    /// A failed answer carrying a message.
    pub fn failure(message: String) -> (r: ApiResponse<T>)
        ensures
            !r.success && r.data is None && r.message == Some(message),
    {
        ApiResponse { success: false, data: None, message: Some(message) }
    }
}

// ---------------------------------------------------------------------------
// Identifiers in paths
// ---------------------------------------------------------------------------

/// Reads a device id from a path; a text that is not a ULID is refused
/// with a message saying so.
pub fn parse_device_id(id: &str) -> (r: Result<DeviceId, String>)
    ensures
        match ulid_value(id@) {
            Some(u) => r == Ok::<DeviceId, String>(DeviceId(u)),
            None => (r matches Err(m) && m@ == "Invalid device ID format. Expected ULID."@),
        },
{
    match ulid_from_str(id) {
        Some(u) => Ok(DeviceId(u)),
        None => Err(owned("Invalid device ID format. Expected ULID.")),
    }
}

/// Reads a dispatcher id from a path; a text that is not a ULID is refused
/// with a message saying so.
pub fn parse_dispatcher_id(id: &str) -> (r: Result<DispatcherId, String>)
    ensures
        match ulid_value(id@) {
            Some(u) => r == Ok::<DispatcherId, String>(DispatcherId(u)),
            None => (r matches Err(m) && m@ == "Invalid dispatcher ID format. Expected ULID."@),
        },
{
    match ulid_from_str(id) {
        Some(u) => Ok(DispatcherId(u)),
        None => Err(owned("Invalid dispatcher ID format. Expected ULID.")),
    }
}

// ---------------------------------------------------------------------------
// Creating and updating
// ---------------------------------------------------------------------------

/// The abstract content of a partial device update.
pub struct DeviceUpdateView {
    pub kind: Option<DeviceKind>,
    pub state: Option<DeviceState>,
    pub location: Option<H3Cell>,
    pub manufacturer: Option<Option<Seq<char>>>,
}

impl View for DeviceUpdateRequest {
    type V = DeviceUpdateView;

    open spec fn view(&self) -> DeviceUpdateView {
        DeviceUpdateView {
            kind: self.kind,
            state: self.state,
            location: self.location,
            manufacturer: match self.manufacturer {
                Some(m) => Some(text_view(m)),
                None => None,
            },
        }
    }
}

/// `o`'s value, or `d` when there is none.
pub open spec fn or_else<T>(o: Option<T>, d: T) -> T {
    match o {
        Some(x) => x,
        None => d,
    }
}

/// A device after a partial update: each given field replaces the stored
/// one, the rest (its id, time and sensors among them) stay.
pub open spec fn updated_device(d: DeviceView, u: DeviceUpdateView) -> DeviceView {
    DeviceView {
        kind: or_else(u.kind, d.kind),
        state: or_else(u.state, d.state),
        location: or_else(u.location, d.location),
        manufacturer: or_else(u.manufacturer, d.manufacturer),
        ..d
    }
}

/// Applies a partial update to a device.
pub fn apply_device_update(existing: Device, update: DeviceUpdateRequest) -> (r: Device)
    ensures
        r@ == updated_device(existing@, update@),
{
    let kind = match update.kind {
        Some(k) => k,
        None => existing.kind,
    };
    let state = match update.state {
        Some(s) => s,
        None => existing.state,
    };
    let location = match update.location {
        Some(l) => l,
        None => existing.location,
    };
    let manufacturer = match update.manufacturer {
        Some(m) => m,
        None => existing.manufacturer,
    };
    Device { kind, state, location, manufacturer, ..existing }
}

/// An update that gives no field leaves a device as it was.
pub proof fn law_empty_update_changes_nothing(d: DeviceView)
    ensures
        updated_device(d, DeviceUpdateView { kind: None, state: None, location: None, manufacturer: None })
            == d,
{
}

/// Updating twice is updating once with the later fields winning.
pub proof fn law_updates_compose(d: DeviceView, a: DeviceUpdateView, b: DeviceUpdateView)
    ensures
        updated_device(updated_device(d, a), b) == updated_device(
            d,
            DeviceUpdateView {
                kind: if b.kind is Some { b.kind } else { a.kind },
                state: if b.state is Some { b.state } else { a.state },
                location: if b.location is Some { b.location } else { a.location },
                manufacturer: if b.manufacturer is Some { b.manufacturer } else { a.manufacturer },
            },
        ),
{
}

/// A dispatcher after a partial update.
pub open spec fn updated_dispatcher(d: Dispatcher, u: DispatcherUpdateRequest) -> Dispatcher {
    Dispatcher { state: or_else(u.state, d.state), location: or_else(u.location, d.location), ..d }
}

/// Applies a partial update to a dispatcher.
pub fn apply_dispatcher_update(existing: Dispatcher, update: DispatcherUpdateRequest) -> (r: Dispatcher)
    ensures
        r == updated_dispatcher(existing, update),
{
    let state = match update.state {
        Some(s) => s,
        None => existing.state,
    };
    let location = match update.location {
        Some(l) => l,
        None => existing.location,
    };
    Dispatcher { state, location, ..existing }
}

/// A newly registered dispatcher: active, with the id and time given.
pub fn new_dispatcher(id: DispatcherId, request: DispatcherCreateRequest, now: Timestamp) -> (r: Dispatcher)
    ensures
        r == (Dispatcher { id, location: request.location, state: DispatcherState::Active, provisioned_at: now }),
{
    Dispatcher { id, location: request.location, state: DispatcherState::Active, provisioned_at: now }
}

/// What a dispatcher update does: a state or location that the update
/// gives is the dispatcher's afterwards, one it does not give stays as it
/// was, and the identifier and provisioning time never change.
pub proof fn law_dispatcher_update_fields(d: Dispatcher, u: DispatcherUpdateRequest)
    ensures
        updated_dispatcher(d, u).id == d.id,
        updated_dispatcher(d, u).provisioned_at == d.provisioned_at,
        u.state matches Some(s) ==> updated_dispatcher(d, u).state == s,
        u.state is None ==> updated_dispatcher(d, u).state == d.state,
        u.location matches Some(l) ==> updated_dispatcher(d, u).location == l,
        u.location is None ==> updated_dispatcher(d, u).location == d.location,
{
}

/// What a device update does: a kind, state, location or manufacturer
/// that the update gives is the device's afterwards (a given `None`
/// manufacturer clears it), one it does not give stays as it was, and the
/// identifier, provisioning time and sensors never change.
pub proof fn law_device_update_fields(d: DeviceView, u: DeviceUpdateView)
    ensures
        updated_device(d, u).id == d.id,
        updated_device(d, u).provisioned_at == d.provisioned_at,
        updated_device(d, u).sensors == d.sensors,
        u.kind matches Some(k) ==> updated_device(d, u).kind == k,
        u.kind is None ==> updated_device(d, u).kind == d.kind,
        u.state matches Some(s) ==> updated_device(d, u).state == s,
        u.state is None ==> updated_device(d, u).state == d.state,
        u.location matches Some(l) ==> updated_device(d, u).location == l,
        u.location is None ==> updated_device(d, u).location == d.location,
        u.manufacturer matches Some(m) ==> updated_device(d, u).manufacturer == m,
        u.manufacturer is None ==> updated_device(d, u).manufacturer == d.manufacturer,
{
}

// ---------------------------------------------------------------------------
// Listings
// ---------------------------------------------------------------------------

/// The offset a listing starts at (0 unless given).
pub open spec fn offset_of(p: ListQueryParams) -> usize {
    or_else(p.offset, 0)
}

/// The most items a listing returns (50 unless given).
pub open spec fn limit_of(p: ListQueryParams) -> usize {
    or_else(p.limit, 50)
}

/// The page a listing asks the registry for.
pub fn list_pagination(params: &ListQueryParams) -> (r: Pagination)
    ensures
        r == (Pagination::Offset { offset: offset_of(*params), limit: limit_of(*params) }),
{
    let offset = match params.offset {
        Some(o) => o,
        None => 0,
    };
    let limit = match params.limit {
        Some(l) => l,
        None => 50,
    };
    Pagination::Offset { offset, limit }
}

/// A page of a listing: its items, the total, which page this is (the
/// offset divided by the limit), the limit asked for, and whether items
/// follow. The limit must not be zero, and offset and limit must not add
/// up past the largest `usize`.
pub fn list_response<T>(items: Vec<T>, total: usize, params: &ListQueryParams) -> (r: ListResponse<T>)
    requires
        limit_of(*params) != 0,
        offset_of(*params) + limit_of(*params) <= usize::MAX,
    ensures
        r.items == items,
        r.total == total,
        r.page == Some((offset_of(*params) / limit_of(*params)) as usize),
        r.per_page == params.limit,
        r.has_more == (total > offset_of(*params) + limit_of(*params)),
{
    let offset = match params.offset {
        Some(o) => o,
        None => 0,
    };
    let limit = match params.limit {
        Some(l) => l,
        None => 50,
    };
    ListResponse {
        items,
        total,
        page: Some(offset / limit),
        per_page: params.limit,
        has_more: total > offset + limit,
    }
}

} // verus!
