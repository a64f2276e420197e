//! Query options for the registries: filters, their builders, sort keys,
//! sort order and pagination.
use std::ops::RangeInclusive;
use vstd::prelude::*;
use vstd::std_specs::range::RangeInclusiveView;

use crate::model::{
    text_view, DeviceErrorCode, DeviceId, DeviceKind, DeviceState, DispatcherId, DispatcherState, H3Cell,
    ReadingId, SensorId, StatusId, Timestamp,
};

verus! {

/// Enum variant discriminator for SensorMetric, used for filtering by metric type without values.
#[derive(Debug, Clone, Copy, PartialEq, Eq, Hash, Structural)]
pub enum SensorMetricType {
    SoilMoisture,
    SoilTemp,
    AirTemp,
    Humidity,
    Rainfall,
}

/// Device attribute to sort by.
#[derive(Debug, Clone, Copy, PartialEq, Eq, Structural)]
pub enum DeviceSortBy {
    State,
    Manufacturer,
    ProvisionAt,
    SensorCount,
}

/// Dispatcher attribute to sort by.
#[derive(Debug, Clone, Copy, PartialEq, Eq, Structural)]
pub enum DispatcherSortBy {
    ProvisionAt,
}

/// Direction of a sort.
#[derive(Debug, Clone, Copy, PartialEq, Eq, Structural)]
pub enum SortOrder {
    Asc,
    Desc,
}

/// Which page of results to return.
#[derive(Debug, Clone, Copy, PartialEq, Eq, Structural)]
pub enum Pagination {
    /// Skip `offset` results, then return at most `limit`.
    Offset { offset: usize, limit: usize },
    /// Return at most `limit` results that follow the one with id `after`.
    Cursor { after: Option<u128>, limit: usize },
}

/// Filter, sort key, sort order and page of a listing.
pub struct QueryOptions<F, S> {
    pub filter: F,
    pub sort_by: S,
    pub sort_order: SortOrder,
    pub pagination: Pagination,
}

/// The start of an inclusive range.
#[verifier::external_body]
pub(crate) fn range_start<T: Copy>(r: &RangeInclusive<T>) -> (s: T)
    ensures
        s == r@.start,
{
    *r.start()
}

/// The end of an inclusive range.
#[verifier::external_body]
pub(crate) fn range_end<T: Copy>(r: &RangeInclusive<T>) -> (e: T)
    ensures
        e == r@.end,
{
    *r.end()
}

/// Whether `x` lies in the range, as `RangeInclusive::contains` decides it
/// (an exhausted range no longer holds its end).
pub open spec fn range_holds(r: RangeInclusiveView<usize>, x: usize) -> bool {
    r.start <= x && if r.exhausted {
        x < r.end
    } else {
        x <= r.end
    }
}

/// Whether `x` lies in the range of percentages.
pub open spec fn percent_range_holds(r: RangeInclusiveView<u8>, x: u8) -> bool {
    r.start <= x && if r.exhausted {
        x < r.end
    } else {
        x <= r.end
    }
}

/// Whether `x` lies in the range, computed by `RangeInclusive::contains`.
pub fn range_contains_usize(r: &RangeInclusive<usize>, x: usize) -> (b: bool)
    ensures
        b == range_holds(r@, x),
{
    r.contains(&x)
}

/// Whether `x` lies in the range of percentages, computed by `RangeInclusive::contains`.
pub fn range_contains_u8(r: &RangeInclusive<u8>, x: u8) -> (b: bool)
    ensures
        b == percent_range_holds(r@, x),
{
    r.contains(&x)
}

/// The abstract content of an optional list.
pub open spec fn opt_list<T>(v: Option<Vec<T>>) -> Option<Seq<T>> {
    match v {
        Some(l) => Some(l@),
        None => None,
    }
}

/// The abstract content of an optional range.
pub open spec fn opt_range<T>(r: Option<RangeInclusive<T>>) -> Option<RangeInclusiveView<T>> {
    match r {
        Some(x) => Some(x@),
        None => None,
    }
}

// ---------------------------------------------------------------------------
// Device filter
// ---------------------------------------------------------------------------

/// Which devices a query selects; every field that is set must match.
pub struct DeviceFilter {
    pub ids: Option<Vec<DeviceId>>,
    pub states: Option<Vec<DeviceState>>,
    pub kinds: Option<Vec<DeviceKind>>,
    pub locations: Option<Vec<H3Cell>>,
    pub provisioned_after: Option<Timestamp>,
    pub provisioned_before: Option<Timestamp>,
    pub sensor_count: Option<RangeInclusive<usize>>,
    pub manufacturer_pattern: Option<String>,
}

/// The abstract content of a device filter.
pub struct DeviceFilterView {
    pub ids: Option<Seq<DeviceId>>,
    pub states: Option<Seq<DeviceState>>,
    pub kinds: Option<Seq<DeviceKind>>,
    pub locations: Option<Seq<H3Cell>>,
    pub provisioned_after: Option<Timestamp>,
    pub provisioned_before: Option<Timestamp>,
    pub sensor_count: Option<RangeInclusiveView<usize>>,
    pub manufacturer_pattern: Option<Seq<char>>,
}

impl View for DeviceFilter {
    type V = DeviceFilterView;

    open spec fn view(&self) -> DeviceFilterView {
        DeviceFilterView {
            ids: opt_list(self.ids),
            states: opt_list(self.states),
            kinds: opt_list(self.kinds),
            locations: opt_list(self.locations),
            provisioned_after: self.provisioned_after,
            provisioned_before: self.provisioned_before,
            sensor_count: opt_range(self.sensor_count),
            manufacturer_pattern: text_view(self.manufacturer_pattern),
        }
    }
}

/// The filter that selects everything.
pub open spec fn empty_device_filter() -> DeviceFilterView {
    DeviceFilterView {
        ids: None,
        states: None,
        kinds: None,
        locations: None,
        provisioned_after: None,
        provisioned_before: None,
        sensor_count: None,
        manufacturer_pattern: None,
    }
}

impl DeviceFilter {
    /// A filter with no field set.
    pub fn new() -> (f: DeviceFilter)
        ensures
            f@ == empty_device_filter(),
    {
        DeviceFilter {
            ids: None,
            states: None,
            kinds: None,
            locations: None,
            provisioned_after: None,
            provisioned_before: None,
            sensor_count: None,
            manufacturer_pattern: None,
        }
    }

    /// A builder that starts from the empty filter.
    pub fn builder() -> (b: DeviceFilterBuilder)
        ensures
            b.filter@ == empty_device_filter(),
    {
        DeviceFilterBuilder::new()
    }
}

/// Builds a device filter one field at a time.
pub struct DeviceFilterBuilder {
    pub filter: DeviceFilter,
}

impl DeviceFilterBuilder {
    /// A builder that starts from the empty filter.
    pub fn new() -> (b: DeviceFilterBuilder)
        ensures
            b.filter@ == empty_device_filter(),
    {
        DeviceFilterBuilder { filter: DeviceFilter::new() }
    }

    /// Selects devices whose id is one of `ids`.
    pub fn ids(self, ids: Vec<DeviceId>) -> (b: DeviceFilterBuilder)
        ensures
            b.filter@ == (DeviceFilterView { ids: Some(ids@), ..self.filter@ }),
    {
        let mut b = self;
        b.filter.ids = Some(ids);
        b
    }

    /// Selects devices whose state is one of `states`.
    pub fn states(self, states: Vec<DeviceState>) -> (b: DeviceFilterBuilder)
        ensures
            b.filter@ == (DeviceFilterView { states: Some(states@), ..self.filter@ }),
    {
        let mut b = self;
        b.filter.states = Some(states);
        b
    }

    /// Selects devices whose kind is one of `kinds`.
    pub fn kinds(self, kinds: Vec<DeviceKind>) -> (b: DeviceFilterBuilder)
        ensures
            b.filter@ == (DeviceFilterView { kinds: Some(kinds@), ..self.filter@ }),
    {
        let mut b = self;
        b.filter.kinds = Some(kinds);
        b
    }

    /// Selects devices located in one of `locations`.
    pub fn locations(self, locations: Vec<H3Cell>) -> (b: DeviceFilterBuilder)
        ensures
            b.filter@ == (DeviceFilterView { locations: Some(locations@), ..self.filter@ }),
    {
        let mut b = self;
        b.filter.locations = Some(locations);
        b
    }

    /// Selects devices provisioned at or after `ts`.
    pub fn provisioned_after(self, ts: Timestamp) -> (b: DeviceFilterBuilder)
        ensures
            b.filter@ == (DeviceFilterView { provisioned_after: Some(ts), ..self.filter@ }),
    {
        let mut b = self;
        b.filter.provisioned_after = Some(ts);
        b
    }

    /// Selects devices provisioned at or before `ts`.
    pub fn provisioned_before(self, ts: Timestamp) -> (b: DeviceFilterBuilder)
        ensures
            b.filter@ == (DeviceFilterView { provisioned_before: Some(ts), ..self.filter@ }),
    {
        let mut b = self;
        b.filter.provisioned_before = Some(ts);
        b
    }

    /// Selects devices whose number of sensors lies in `range`.
    pub fn sensor_count(self, range: RangeInclusive<usize>) -> (b: DeviceFilterBuilder)
        ensures
            b.filter@ == (DeviceFilterView { sensor_count: Some(range@), ..self.filter@ }),
    {
        let mut b = self;
        b.filter.sensor_count = Some(range);
        b
    }

    /// Selects devices whose manufacturer contains `pattern`.
    pub fn manufacturer_pattern(self, pattern: String) -> (b: DeviceFilterBuilder)
        ensures
            b.filter@ == (DeviceFilterView { manufacturer_pattern: Some(pattern@), ..self.filter@ }),
    {
        let mut b = self;
        b.filter.manufacturer_pattern = Some(pattern);
        b
    }

    /// The filter built so far.
    pub fn build(self) -> (f: DeviceFilter)
        ensures
            f@ == self.filter@,
    {
        self.filter
    }
}

// ---------------------------------------------------------------------------
// Dispatcher filter
// ---------------------------------------------------------------------------

/// Which dispatchers a query selects; every field that is set must match.
pub struct DispatcherFilter {
    pub states: Option<Vec<DispatcherState>>,
    pub locations: Option<Vec<H3Cell>>,
}

/// The abstract content of a dispatcher filter.
pub struct DispatcherFilterView {
    pub states: Option<Seq<DispatcherState>>,
    pub locations: Option<Seq<H3Cell>>,
}

impl View for DispatcherFilter {
    type V = DispatcherFilterView;

    open spec fn view(&self) -> DispatcherFilterView {
        DispatcherFilterView { states: opt_list(self.states), locations: opt_list(self.locations) }
    }
}

impl DispatcherFilter {
    /// A filter with no field set.
    pub fn new() -> (f: DispatcherFilter)
        ensures
            f@ == (DispatcherFilterView { states: None, locations: None }),
    {
        DispatcherFilter { states: None, locations: None }
    }

    /// A builder that starts from the empty filter.
    pub fn builder() -> (b: DispatcherFilterBuilder)
        ensures
            b.filter@ == (DispatcherFilterView { states: None, locations: None }),
    {
        DispatcherFilterBuilder::new()
    }
}

/// Builds a dispatcher filter one field at a time.
pub struct DispatcherFilterBuilder {
    pub filter: DispatcherFilter,
}

impl DispatcherFilterBuilder {
    /// A builder that starts from the empty filter.
    pub fn new() -> (b: DispatcherFilterBuilder)
        ensures
            b.filter@ == (DispatcherFilterView { states: None, locations: None }),
    {
        DispatcherFilterBuilder { filter: DispatcherFilter::new() }
    }

    /// Selects dispatchers whose state is one of `states`.
    pub fn states(self, states: Vec<DispatcherState>) -> (b: DispatcherFilterBuilder)
        ensures
            b.filter@ == (DispatcherFilterView { states: Some(states@), ..self.filter@ }),
    {
        let mut b = self;
        b.filter.states = Some(states);
        b
    }

    /// Selects dispatchers located in one of `locations`.
    pub fn locations(self, locations: Vec<H3Cell>) -> (b: DispatcherFilterBuilder)
        ensures
            b.filter@ == (DispatcherFilterView { locations: Some(locations@), ..self.filter@ }),
    {
        let mut b = self;
        b.filter.locations = Some(locations);
        b
    }

    /// The filter built so far.
    pub fn build(self) -> (f: DispatcherFilter)
        ensures
            f@ == self.filter@,
    {
        self.filter
    }
}

// ---------------------------------------------------------------------------
// Reading filter
// ---------------------------------------------------------------------------

/// Reading attribute to sort by.
#[derive(Debug, Clone, Copy, PartialEq, Eq, Structural)]
pub enum ReadingSortBy {
    Timestamp,
    Confidence,
    DeviceId,
}

/// Which readings a query selects; every field that is set must match.
pub struct ReadingFilter {
    pub ids: Option<Vec<ReadingId>>,
    pub device_ids: Option<Vec<DeviceId>>,
    pub sensor_ids: Option<Vec<SensorId>>,
    pub dispatcher_ids: Option<Vec<DispatcherId>>,
    pub metric_types: Option<Vec<SensorMetricType>>,
    pub locations: Option<Vec<H3Cell>>,
    pub timestamp_after: Option<Timestamp>,
    pub timestamp_before: Option<Timestamp>,
    pub confidence_range: Option<RangeInclusive<u8>>,
}

/// The abstract content of a reading filter.
pub struct ReadingFilterView {
    pub ids: Option<Seq<ReadingId>>,
    pub device_ids: Option<Seq<DeviceId>>,
    pub sensor_ids: Option<Seq<SensorId>>,
    pub dispatcher_ids: Option<Seq<DispatcherId>>,
    pub metric_types: Option<Seq<SensorMetricType>>,
    pub locations: Option<Seq<H3Cell>>,
    pub timestamp_after: Option<Timestamp>,
    pub timestamp_before: Option<Timestamp>,
    pub confidence_range: Option<RangeInclusiveView<u8>>,
}

impl View for ReadingFilter {
    type V = ReadingFilterView;

    open spec fn view(&self) -> ReadingFilterView {
        ReadingFilterView {
            ids: opt_list(self.ids),
            device_ids: opt_list(self.device_ids),
            sensor_ids: opt_list(self.sensor_ids),
            dispatcher_ids: opt_list(self.dispatcher_ids),
            metric_types: opt_list(self.metric_types),
            locations: opt_list(self.locations),
            timestamp_after: self.timestamp_after,
            timestamp_before: self.timestamp_before,
            confidence_range: opt_range(self.confidence_range),
        }
    }
}

/// The reading filter that selects everything.
pub open spec fn empty_reading_filter() -> ReadingFilterView {
    ReadingFilterView {
        ids: None,
        device_ids: None,
        sensor_ids: None,
        dispatcher_ids: None,
        metric_types: None,
        locations: None,
        timestamp_after: None,
        timestamp_before: None,
        confidence_range: None,
    }
}

impl ReadingFilter {
    /// A filter with no field set.
    pub fn new() -> (f: ReadingFilter)
        ensures
            f@ == empty_reading_filter(),
    {
        ReadingFilter {
            ids: None,
            device_ids: None,
            sensor_ids: None,
            dispatcher_ids: None,
            metric_types: None,
            locations: None,
            timestamp_after: None,
            timestamp_before: None,
            confidence_range: None,
        }
    }

    /// A builder that starts from the empty filter.
    pub fn builder() -> (b: ReadingFilterBuilder)
        ensures
            b.filter@ == empty_reading_filter(),
    {
        ReadingFilterBuilder::new()
    }
}

/// Builds a reading filter one field at a time.
pub struct ReadingFilterBuilder {
    pub filter: ReadingFilter,
}

impl ReadingFilterBuilder {
    /// A builder that starts from the empty filter.
    pub fn new() -> (b: ReadingFilterBuilder)
        ensures
            b.filter@ == empty_reading_filter(),
    {
        ReadingFilterBuilder { filter: ReadingFilter::new() }
    }

    /// Selects readings whose id is one of `ids`.
    pub fn ids(self, ids: Vec<ReadingId>) -> (b: ReadingFilterBuilder)
        ensures
            b.filter@ == (ReadingFilterView { ids: Some(ids@), ..self.filter@ }),
    {
        let mut b = self;
        b.filter.ids = Some(ids);
        b
    }

    /// Selects readings from one of `device_ids`.
    pub fn device_ids(self, device_ids: Vec<DeviceId>) -> (b: ReadingFilterBuilder)
        ensures
            b.filter@ == (ReadingFilterView { device_ids: Some(device_ids@), ..self.filter@ }),
    {
        let mut b = self;
        b.filter.device_ids = Some(device_ids);
        b
    }

    /// Selects readings from one of `sensor_ids`.
    pub fn sensor_ids(self, sensor_ids: Vec<SensorId>) -> (b: ReadingFilterBuilder)
        ensures
            b.filter@ == (ReadingFilterView { sensor_ids: Some(sensor_ids@), ..self.filter@ }),
    {
        let mut b = self;
        b.filter.sensor_ids = Some(sensor_ids);
        b
    }

    /// Selects readings forwarded by one of `dispatcher_ids`.
    pub fn dispatcher_ids(self, dispatcher_ids: Vec<DispatcherId>) -> (b: ReadingFilterBuilder)
        ensures
            b.filter@ == (ReadingFilterView {
                dispatcher_ids: Some(dispatcher_ids@),
                ..self.filter@
            }),
    {
        let mut b = self;
        b.filter.dispatcher_ids = Some(dispatcher_ids);
        b
    }

    /// Selects readings of one of `metric_types`.
    pub fn metric_types(self, metric_types: Vec<SensorMetricType>) -> (b: ReadingFilterBuilder)
        ensures
            b.filter@ == (ReadingFilterView { metric_types: Some(metric_types@), ..self.filter@ }),
    {
        let mut b = self;
        b.filter.metric_types = Some(metric_types);
        b
    }

    /// Selects readings taken in one of `locations`.
    pub fn locations(self, locations: Vec<H3Cell>) -> (b: ReadingFilterBuilder)
        ensures
            b.filter@ == (ReadingFilterView { locations: Some(locations@), ..self.filter@ }),
    {
        let mut b = self;
        b.filter.locations = Some(locations);
        b
    }

    /// Selects readings taken at or after `ts`.
    pub fn timestamp_after(self, ts: Timestamp) -> (b: ReadingFilterBuilder)
        ensures
            b.filter@ == (ReadingFilterView { timestamp_after: Some(ts), ..self.filter@ }),
    {
        let mut b = self;
        b.filter.timestamp_after = Some(ts);
        b
    }

    /// Selects readings taken at or before `ts`.
    pub fn timestamp_before(self, ts: Timestamp) -> (b: ReadingFilterBuilder)
        ensures
            b.filter@ == (ReadingFilterView { timestamp_before: Some(ts), ..self.filter@ }),
    {
        let mut b = self;
        b.filter.timestamp_before = Some(ts);
        b
    }

    /// Selects readings whose confidence lies in `range`.
    pub fn confidence_range(self, range: RangeInclusive<u8>) -> (b: ReadingFilterBuilder)
        ensures
            b.filter@ == (ReadingFilterView { confidence_range: Some(range@), ..self.filter@ }),
    {
        let mut b = self;
        b.filter.confidence_range = Some(range);
        b
    }

    /// The filter built so far.
    pub fn build(self) -> (f: ReadingFilter)
        ensures
            f@ == self.filter@,
    {
        self.filter
    }
}

// ---------------------------------------------------------------------------
// Device status filter
// ---------------------------------------------------------------------------

/// Status attribute to sort by.
#[derive(Debug, Clone, Copy, PartialEq, Eq, Structural)]
pub enum DeviceStatusSortBy {
    Timestamp,
    BatteryPercent,
    DeviceId,
}

/// Which status reports a query selects; every field that is set must match.
pub struct DeviceStatusFilter {
    pub ids: Option<Vec<StatusId>>,
    pub device_ids: Option<Vec<DeviceId>>,
    pub dispatcher_ids: Option<Vec<DispatcherId>>,
    pub timestamp_after: Option<Timestamp>,
    pub timestamp_before: Option<Timestamp>,
    pub battery_range: Option<RangeInclusive<u8>>,
    pub has_errors: Option<bool>,
    pub error_codes: Option<Vec<DeviceErrorCode>>,
}

/// The abstract content of a status filter.
pub struct DeviceStatusFilterView {
    pub ids: Option<Seq<StatusId>>,
    pub device_ids: Option<Seq<DeviceId>>,
    pub dispatcher_ids: Option<Seq<DispatcherId>>,
    pub timestamp_after: Option<Timestamp>,
    pub timestamp_before: Option<Timestamp>,
    pub battery_range: Option<RangeInclusiveView<u8>>,
    pub has_errors: Option<bool>,
    pub error_codes: Option<Seq<DeviceErrorCode>>,
}

impl View for DeviceStatusFilter {
    type V = DeviceStatusFilterView;

    open spec fn view(&self) -> DeviceStatusFilterView {
        DeviceStatusFilterView {
            ids: opt_list(self.ids),
            device_ids: opt_list(self.device_ids),
            dispatcher_ids: opt_list(self.dispatcher_ids),
            timestamp_after: self.timestamp_after,
            timestamp_before: self.timestamp_before,
            battery_range: opt_range(self.battery_range),
            has_errors: self.has_errors,
            error_codes: opt_list(self.error_codes),
        }
    }
}

/// The status filter that selects everything.
pub open spec fn empty_status_filter() -> DeviceStatusFilterView {
    DeviceStatusFilterView {
        ids: None,
        device_ids: None,
        dispatcher_ids: None,
        timestamp_after: None,
        timestamp_before: None,
        battery_range: None,
        has_errors: None,
        error_codes: None,
    }
}

impl DeviceStatusFilter {
    /// A filter with no field set.
    pub fn new() -> (f: DeviceStatusFilter)
        ensures
            f@ == empty_status_filter(),
    {
        DeviceStatusFilter {
            ids: None,
            device_ids: None,
            dispatcher_ids: None,
            timestamp_after: None,
            timestamp_before: None,
            battery_range: None,
            has_errors: None,
            error_codes: None,
        }
    }

    /// A builder that starts from the empty filter.
    pub fn builder() -> (b: DeviceStatusFilterBuilder)
        ensures
            b.filter@ == empty_status_filter(),
    {
        DeviceStatusFilterBuilder::new()
    }
}

/// Builds a status filter one field at a time.
pub struct DeviceStatusFilterBuilder {
    pub filter: DeviceStatusFilter,
}

impl DeviceStatusFilterBuilder {
    /// A builder that starts from the empty filter.
    pub fn new() -> (b: DeviceStatusFilterBuilder)
        ensures
            b.filter@ == empty_status_filter(),
    {
        DeviceStatusFilterBuilder { filter: DeviceStatusFilter::new() }
    }

    /// Selects reports whose id is one of `ids`.
    pub fn ids(self, ids: Vec<StatusId>) -> (b: DeviceStatusFilterBuilder)
        ensures
            b.filter@ == (DeviceStatusFilterView { ids: Some(ids@), ..self.filter@ }),
    {
        let mut b = self;
        b.filter.ids = Some(ids);
        b
    }

    /// Selects reports from one of `device_ids`.
    pub fn device_ids(self, device_ids: Vec<DeviceId>) -> (b: DeviceStatusFilterBuilder)
        ensures
            b.filter@ == (DeviceStatusFilterView { device_ids: Some(device_ids@), ..self.filter@ }),
    {
        let mut b = self;
        b.filter.device_ids = Some(device_ids);
        b
    }

    /// Selects reports forwarded by one of `dispatcher_ids`.
    pub fn dispatcher_ids(self, dispatcher_ids: Vec<DispatcherId>) -> (b: DeviceStatusFilterBuilder)
        ensures
            b.filter@ == (DeviceStatusFilterView {
                dispatcher_ids: Some(dispatcher_ids@),
                ..self.filter@
            }),
    {
        let mut b = self;
        b.filter.dispatcher_ids = Some(dispatcher_ids);
        b
    }

    /// Selects reports captured at or after `ts`.
    pub fn timestamp_after(self, ts: Timestamp) -> (b: DeviceStatusFilterBuilder)
        ensures
            b.filter@ == (DeviceStatusFilterView { timestamp_after: Some(ts), ..self.filter@ }),
    {
        let mut b = self;
        b.filter.timestamp_after = Some(ts);
        b
    }

    /// Selects reports captured at or before `ts`.
    pub fn timestamp_before(self, ts: Timestamp) -> (b: DeviceStatusFilterBuilder)
        ensures
            b.filter@ == (DeviceStatusFilterView { timestamp_before: Some(ts), ..self.filter@ }),
    {
        let mut b = self;
        b.filter.timestamp_before = Some(ts);
        b
    }

    /// Selects reports whose battery level lies in `range`.
    pub fn battery_range(self, range: RangeInclusive<u8>) -> (b: DeviceStatusFilterBuilder)
        ensures
            b.filter@ == (DeviceStatusFilterView { battery_range: Some(range@), ..self.filter@ }),
    {
        let mut b = self;
        b.filter.battery_range = Some(range);
        b
    }

    /// Selects reports that have (or have no) errors.
    pub fn has_errors(self, has_errors: bool) -> (b: DeviceStatusFilterBuilder)
        ensures
            b.filter@ == (DeviceStatusFilterView { has_errors: Some(has_errors), ..self.filter@ }),
    {
        let mut b = self;
        b.filter.has_errors = Some(has_errors);
        b
    }

    /// Selects reports carrying an error with one of `error_codes`.
    pub fn error_codes(self, error_codes: Vec<DeviceErrorCode>) -> (b: DeviceStatusFilterBuilder)
        ensures
            b.filter@ == (DeviceStatusFilterView { error_codes: Some(error_codes@), ..self.filter@ }),
    {
        let mut b = self;
        b.filter.error_codes = Some(error_codes);
        b
    }

    /// The filter built so far.
    pub fn build(self) -> (f: DeviceStatusFilter)
        ensures
            f@ == self.filter@,
    {
        self.filter
    }
}

} // verus!
