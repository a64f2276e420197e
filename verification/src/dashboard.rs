//! The web dashboard of the prime service: its forms, its answers, its
//! errors, and what its handlers compute.
use vstd::prelude::*;

use crate::idtext::{ulid_from_str, ulid_value};
use crate::model::{
    copy_text, text_view, Device, DeviceId, DeviceKind, DeviceState, DeviceView, Dispatcher, DispatcherId,
    DispatcherState, FloatBits, H3Cell, Percentage, Sensor, SensorId, SensorKind, SensorMetric, Timestamp,
};
use crate::text::{concat, owned};

verus! {

// ---------------------------------------------------------------------------
// Errors
// ---------------------------------------------------------------------------

/// Why a dashboard request failed.
#[derive(Debug, Clone, PartialEq, Eq)]
pub enum DashboardError {
    InvalidUlid(String),
    NotFound(String),
    InvalidSensorKind(String),
    Validation(String),
    Internal(String),
}

/// The HTTP status a dashboard error is answered with.
pub open spec fn status_of(e: DashboardError) -> u16 {
    match e {
        DashboardError::InvalidUlid(_) => 400,
        DashboardError::NotFound(_) => 404,
        DashboardError::InvalidSensorKind(_) => 400,
        DashboardError::Validation(_) => 400,
        DashboardError::Internal(_) => 500,
    }
}

impl DashboardError {
    /// The HTTP status and the message a dashboard error is answered with:
    /// not found is 404, a failure inside the service 500, anything else
    /// wrong with the request 400.
    pub fn status_and_message(self) -> (r: (u16, String))
        ensures
            r.0 == status_of(self),
            r.1 == match self {
                DashboardError::InvalidUlid(m) => m,
                DashboardError::NotFound(m) => m,
                DashboardError::InvalidSensorKind(m) => m,
                DashboardError::Validation(m) => m,
                DashboardError::Internal(m) => m,
            },
    {
        match self {
            DashboardError::InvalidUlid(m) => (400, m),
            DashboardError::NotFound(m) => (404, m),
            DashboardError::InvalidSensorKind(m) => (400, m),
            DashboardError::Validation(m) => (400, m),
            DashboardError::Internal(m) => (500, m),
        }
    }
}

/// A dashboard error as text.
pub open spec fn dashboard_error_text(e: DashboardError) -> Seq<char> {
    match e {
        DashboardError::InvalidUlid(m) => "Invalid ULID: "@ + m@,
        DashboardError::NotFound(m) => "Resource not found: "@ + m@,
        DashboardError::InvalidSensorKind(m) => "Invalid sensor kind: "@ + m@,
        DashboardError::Validation(m) => "Validation error: "@ + m@,
        DashboardError::Internal(_) => "Internal server error"@,
    }
}

impl DashboardError {
    /// The error as text: what went wrong, then the detail it carries
    /// (an internal failure keeps its detail to itself).
    pub fn message(&self) -> (s: String)
        ensures
            s@ == dashboard_error_text(*self),
    {
        match self {
            DashboardError::InvalidUlid(m) => concat("Invalid ULID: ", m.as_str()),
            DashboardError::NotFound(m) => concat("Resource not found: ", m.as_str()),
            DashboardError::InvalidSensorKind(m) => concat("Invalid sensor kind: ", m.as_str()),
            DashboardError::Validation(m) => concat("Validation error: ", m.as_str()),
            DashboardError::Internal(_) => owned("Internal server error"),
        }
    }
}

/// Reads an identifier from a path; a text that is not a ULID is refused,
/// and the message quotes it.
pub fn parse_ulid(id: &str) -> (r: Result<u128, DashboardError>)
    ensures
        match ulid_value(id@) {
            Some(u) => r == Ok::<u128, DashboardError>(u),
            None => (r matches Err(DashboardError::InvalidUlid(m)) && m@ == "Invalid ID format: "@ + id@),
        },
{
    match ulid_from_str(id) {
        Some(u) => Ok(u),
        None => Err(DashboardError::InvalidUlid(concat("Invalid ID format: ", id))),
    }
}

// ---------------------------------------------------------------------------
// Forms
// ---------------------------------------------------------------------------

/// The form that creates or replaces a device.
#[derive(Debug)]
pub struct DeviceForm {
    pub location: u64,
    pub manufacturer: Option<String>,
    pub sensors: Vec<SensorForm>,
}

/// A sensor in a device form, named by kind.
#[derive(Debug, Clone)]
pub struct SensorForm {
    pub kind: String,
}

/// The form that creates or moves a dispatcher.
#[derive(Debug, Clone, Copy)]
pub struct DispatcherForm {
    pub location: u64,
}

/// The sensor kind a form names, if it names one.
pub open spec fn kind_named(name: Seq<char>) -> Option<SensorKind> {
    if name == "soil_moisture"@ {
        Some(SensorKind::SoilMoisture)
    } else if name == "soil_temp"@ {
        Some(SensorKind::SoilTemp)
    } else if name == "air_temp"@ {
        Some(SensorKind::AirTemp)
    } else if name == "humidity"@ {
        Some(SensorKind::Humidity)
    } else if name == "rainfall"@ {
        Some(SensorKind::Rainfall)
    } else {
        None
    }
}

/// The sensor kind a form names, if it names one.
pub fn sensor_kind_from_name(name: &String) -> (r: Option<SensorKind>)
    ensures
        r == kind_named(name@),
{
    if *name == owned("soil_moisture") {
        Some(SensorKind::SoilMoisture)
    } else if *name == owned("soil_temp") {
        Some(SensorKind::SoilTemp)
    } else if *name == owned("air_temp") {
        Some(SensorKind::AirTemp)
    } else if *name == owned("humidity") {
        Some(SensorKind::Humidity)
    } else if *name == owned("rainfall") {
        Some(SensorKind::Rainfall)
    } else {
        None
    }
}

/// The metric a new sensor of a kind starts with: zero.
pub open spec fn initial_metric(k: SensorKind) -> SensorMetric {
    match k {
        SensorKind::SoilMoisture => SensorMetric::SoilMoisture { value: Percentage(0) },
        SensorKind::SoilTemp => SensorMetric::SoilTemp { value: FloatBits(0) },
        SensorKind::AirTemp => SensorMetric::AirTemp { value: FloatBits(0) },
        SensorKind::Humidity => SensorMetric::Humidity { value: Percentage(0) },
        SensorKind::Rainfall => SensorMetric::Rainfall { value: FloatBits(0) },
    }
}

/// Whether `i` is the first form that names no kind.
pub open spec fn first_unnamed(forms: Seq<SensorForm>, i: int) -> bool {
    &&& 0 <= i < forms.len()
    &&& kind_named(forms[i].kind@) is None
    &&& forall|k: int| 0 <= k < i ==> #[trigger] kind_named(forms[k].kind@) is Some
}

/// The sensors the forms describe, with the ids given, when every form
/// names a kind.
pub open spec fn sensors_of_forms(forms: Seq<SensorForm>, ids: Seq<SensorId>) -> Seq<Sensor> {
    Seq::new(
        forms.len(),
        |i: int| Sensor { id: ids[i], kind: kind_named(forms[i].kind@)->0, metric: initial_metric(kind_named(forms[i].kind@)->0) },
    )
}

/// Makes the sensors the forms describe, each with the next of the ids
/// given and a zero metric; the first form that names no kind is refused,
/// and the error quotes it.
pub fn create_sensors_from_forms(forms: &Vec<SensorForm>, ids: &Vec<SensorId>) -> (r: Result<Vec<Sensor>, DashboardError>)
    requires
        ids@.len() == forms@.len(),
    ensures
        if exists|i: int| 0 <= i < forms@.len() && #[trigger] kind_named(forms@[i].kind@) is None {
            let i = choose|i: int| first_unnamed(forms@, i);
            r matches Err(DashboardError::InvalidSensorKind(m)) && m@ == forms@[i].kind@
        } else {
            r matches Ok(v) && v@ == sensors_of_forms(forms@, ids@)
        },
{
    let mut sensors: Vec<Sensor> = Vec::new();
    let mut i: usize = 0;
    while i < forms.len()
        invariant
            i <= forms@.len(),
            ids@.len() == forms@.len(),
            forall|k: int| 0 <= k < i ==> #[trigger] kind_named(forms@[k].kind@) is Some,
            sensors@ == sensors_of_forms(forms@, ids@).take(i as int),
        decreases forms@.len() - i,
    {
        match sensor_kind_from_name(&forms[i].kind) {
            Some(kind) => {
                let metric = match kind {
                    SensorKind::SoilMoisture => SensorMetric::SoilMoisture { value: Percentage(0) },
                    SensorKind::SoilTemp => SensorMetric::SoilTemp { value: FloatBits(0) },
                    SensorKind::AirTemp => SensorMetric::AirTemp { value: FloatBits(0) },
                    SensorKind::Humidity => SensorMetric::Humidity { value: Percentage(0) },
                    SensorKind::Rainfall => SensorMetric::Rainfall { value: FloatBits(0) },
                };
                sensors.push(Sensor { id: ids[i], kind, metric });
                proof {
                    assert(sensors@ =~= sensors_of_forms(forms@, ids@).take(i + 1));
                }
            },
            None => {
                proof {
                    assert(first_unnamed(forms@, i as int));
                    let j = choose|j: int| first_unnamed(forms@, j);
                    assert(first_unnamed(forms@, j));
                    assert(j == i) by {
                        if j < i {
                            assert(kind_named(forms@[j].kind@) is Some);
                        }
                        if j > i {
                            assert(kind_named(forms@[i as int].kind@) is Some);
                        }
                    }
                }
                return Err(DashboardError::InvalidSensorKind(forms[i].kind.clone()));
            },
        }
        i = i + 1;
    }
    assert(sensors_of_forms(forms@, ids@).take(i as int) =~= sensors_of_forms(forms@, ids@));
    Ok(sensors)
}

/// The five kind names each name a different kind, and every kind has one.
pub proof fn law_kind_names_distinct()
    ensures
        kind_named("soil_moisture"@) == Some(SensorKind::SoilMoisture),
        kind_named("soil_temp"@) == Some(SensorKind::SoilTemp),
        kind_named("air_temp"@) == Some(SensorKind::AirTemp),
        kind_named("humidity"@) == Some(SensorKind::Humidity),
        kind_named("rainfall"@) == Some(SensorKind::Rainfall),
{
    reveal_strlit("soil_moisture");
    reveal_strlit("soil_temp");
    reveal_strlit("air_temp");
    reveal_strlit("humidity");
    reveal_strlit("rainfall");
    assert("soil_temp"@[5] != "soil_moisture"@[5]);
    assert("air_temp"@[0] != "soil_moisture"@[0]);
    assert("air_temp"@[0] != "soil_temp"@[0]);
    assert("humidity"@[0] != "soil_moisture"@[0]);
    assert("humidity"@[0] != "soil_temp"@[0]);
    assert("humidity"@[0] != "air_temp"@[0]);
    assert("rainfall"@[0] != "soil_moisture"@[0]);
    assert("rainfall"@[0] != "soil_temp"@[0]);
    assert("rainfall"@[0] != "air_temp"@[0]);
    assert("rainfall"@[0] != "humidity"@[0]);
}

/// A device made from a form: a sensor device, active, at the form's
/// location, with the id, sensors and time given.
pub fn device_from_form(id: DeviceId, form: &DeviceForm, sensors: Vec<Sensor>, provisioned_at: Timestamp) -> (r: Device)
    ensures
        r@ == (DeviceView {
            id,
            kind: DeviceKind::Sensor,
            state: DeviceState::Active,
            location: H3Cell(form.location),
            manufacturer: text_view(form.manufacturer),
            provisioned_at,
            sensors: sensors@,
        }),
{
    Device {
        id,
        kind: DeviceKind::Sensor,
        state: DeviceState::Active,
        location: H3Cell(form.location),
        manufacturer: copy_text(&form.manufacturer),
        provisioned_at,
        sensors,
    }
}

/// A dispatcher made from a form: at the form's location, with the id,
/// state and time given (a new one is active; an edited one keeps its
/// state and time).
pub fn dispatcher_from_form(id: DispatcherId, form: DispatcherForm, state: DispatcherState, provisioned_at: Timestamp) -> (r: Dispatcher)
    ensures
        r == (Dispatcher { id, location: H3Cell(form.location), state, provisioned_at }),
{
    Dispatcher { id, location: H3Cell(form.location), state, provisioned_at }
}

// ---------------------------------------------------------------------------
// Answers and pages
// ---------------------------------------------------------------------------

/// The envelope of every dashboard answer.
#[derive(Debug)]
pub struct ApiResponse<T> {
    pub data: Option<T>,
    pub message: Option<String>,
    pub success: bool,
}

impl<T> ApiResponse<T> {
    /// A successful answer carrying `data`.
    pub fn success(data: T) -> (r: ApiResponse<T>)
        ensures
            r.data == Some(data),
            r.message is None,
            r.success,
    {
        ApiResponse { data: Some(data), message: None, success: true }
    }

    /// A failed answer carrying a message.
    pub fn error(message: String) -> (r: ApiResponse<T>)
        ensures
            r.data is None,
            r.message == Some(message),
            !r.success,
    {
        ApiResponse { data: None, message: Some(message), success: false }
    }
}

/// One page of a dashboard listing.
#[derive(Debug)]
pub struct PaginatedResponse<T> {
    pub items: Vec<T>,
    pub total: u64,
    pub page: u64,
    pub limit: u64,
    pub has_more: bool,
}

/// The page a dashboard listing asks for.
#[derive(Debug, Clone, Copy)]
pub struct PaginationQuery {
    pub page: Option<u64>,
    pub limit: Option<u64>,
}

/// The page asked for (the first unless given).
pub open spec fn page_of(q: PaginationQuery) -> u64 {
    match q.page {
        Some(p) => p,
        None => 1,
    }
}

/// The page size asked for: 50 unless given, at most 200.
pub open spec fn limit_of(q: PaginationQuery) -> u64 {
    let l = match q.limit {
        Some(l) => l,
        None => 50,
    };
    if l < 200 {
        l
    } else {
        200
    }
}

/// The page size and the offset of the first item of the page. Pages are
/// counted from one, so page zero is refused by `requires`, as is an
/// offset past the largest `u64`.
pub fn page_window(q: PaginationQuery) -> (r: (usize, usize))
    requires
        page_of(q) >= 1,
        (page_of(q) - 1) * limit_of(q) <= u64::MAX,
    ensures
        r.0 == limit_of(q),
        r.1 == ((page_of(q) - 1) * limit_of(q)) as usize,
{
    let l = match q.limit {
        Some(l) => l,
        None => 50,
    };
    let limit: u64 = if l < 200 {
        l
    } else {
        200
    };
    let page = match q.page {
        Some(p) => p,
        None => 1,
    };
    let offset = (page - 1) * limit;
    (limit as usize, offset as usize)
}

/// A page of a dashboard listing: the items, their number as the total,
/// the page and size asked for, and whether the total exceeds the items
/// of the pages up to this one.
pub fn paginated_response<T>(items: Vec<T>, q: PaginationQuery) -> (r: PaginatedResponse<T>)
    requires
        page_of(q) * limit_of(q) <= u64::MAX,
    ensures
        r.items == items,
        r.total == items@.len(),
        r.page == page_of(q),
        r.limit == limit_of(q),
        r.has_more == (items@.len() > page_of(q) * limit_of(q)),
{
    let l = match q.limit {
        Some(l) => l,
        None => 50,
    };
    let limit: u64 = if l < 200 {
        l
    } else {
        200
    };
    let page = match q.page {
        Some(p) => p,
        None => 1,
    };
    let total = items.len() as u64;
    PaginatedResponse { items, total, page, limit, has_more: total > page * limit }
}

} // verus!
