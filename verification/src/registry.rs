//! In-memory registries of dispatchers and devices, as kept by the prime
//! service: keyed storage, filtering, stable sorting and pagination.
use vstd::prelude::*;

use crate::filter::{
    range_contains_usize, range_holds, DeviceFilter, DeviceFilterView, DeviceSortBy,
    DispatcherFilter, DispatcherFilterView, DispatcherSortBy, Pagination, QueryOptions, SortOrder,
};
use crate::model::{
    timestamp_lt, Device, DeviceId, DeviceKind, DeviceState, DeviceView, Dispatcher, DispatcherId,
    DispatcherState, H3Cell, Sensor, Timestamp,
};
use crate::text::{chars_of, contains_ignoring_case, is_infix, lowercase_chars, owned};
use crate::ordering::{
    has_key, insert_sorted, key_index, keys_unique, lemma_insert_sorted_at, lemma_lookup_at, lemma_upsert,
    lookup, paginate, sort_stable, is_total_preorder, sorted_by, lemma_sort_stable_len,
    lemma_sort_stable_multiset, lemma_sort_stable_sorted, upsert, values_of, window, is_first_with_id,
    lemma_paginate_cursor, lemma_paginate_cursor_missing, lemma_page_of_sorted_from,
};

verus! {

/// Why a registry operation failed.
#[derive(Debug, Clone, Copy, PartialEq, Eq, Structural)]
pub enum InMemoryError {
    NotFound,
}

impl InMemoryError {
    /// The error as text.
    pub fn message(&self) -> (s: String)
        ensures
            s@ == "not found"@,
    {
        owned("not found")
    }
}

// ---------------------------------------------------------------------------
// Membership tests
// ---------------------------------------------------------------------------

/// Whether `x` is one of `v`.
pub fn contains_cell(v: &Vec<H3Cell>, x: H3Cell) -> (b: bool)
    ensures
        b == v@.contains(x),
{
    let mut i: usize = 0;
    while i < v.len()
        invariant
            i <= v@.len(),
            forall|k: int| 0 <= k < i ==> v@[k] != x,
        decreases v@.len() - i,
    {
        if v[i] == x {
            return true;
        }
        i = i + 1;
    }
    false
}

/// Whether `x` is one of `v`.
pub fn contains_dispatcher_state(v: &Vec<DispatcherState>, x: DispatcherState) -> (b: bool)
    ensures
        b == v@.contains(x),
{
    let mut i: usize = 0;
    while i < v.len()
        invariant
            i <= v@.len(),
            forall|k: int| 0 <= k < i ==> v@[k] != x,
        decreases v@.len() - i,
    {
        if v[i] == x {
            return true;
        }
        i = i + 1;
    }
    false
}

// ---------------------------------------------------------------------------
// Orders
// ---------------------------------------------------------------------------

/// -1, 0 or 1 as `a` is earlier than, equal to or later than `b`.
pub open spec fn timestamp_order(a: Timestamp, b: Timestamp) -> int {
    if timestamp_lt(a, b) {
        -1
    } else if a == b {
        0
    } else {
        1
    }
}

/// An order turned around for a descending sort.
pub open spec fn directed(o: int, order: SortOrder) -> int {
    match order {
        SortOrder::Asc => o,
        SortOrder::Desc => -o,
    }
}

/// Compares two instants: -1, 0 or 1.
pub fn compare_timestamps(a: &Timestamp, b: &Timestamp) -> (r: i8)
    ensures
        r == timestamp_order(*a, *b),
        -1 <= r <= 1,
{
    if a.is_before(b) {
        -1
    } else if a.second == b.second && a.nanosecond == b.nanosecond {
        0
    } else {
        1
    }
}

/// Applies the sort direction to a comparison result.
pub fn apply_direction(o: i8, order: SortOrder) -> (r: i8)
    requires
        -1 <= o <= 1,
    ensures
        r == directed(o as int, order),
{
    match order {
        SortOrder::Asc => o,
        SortOrder::Desc => -o,
    }
}

// ---------------------------------------------------------------------------
// Dispatchers
// ---------------------------------------------------------------------------

/// Whether a dispatcher passes every field of the filter that is set.
pub open spec fn dispatcher_matches(f: DispatcherFilterView, d: Dispatcher) -> bool {
    &&& (f.locations matches Some(ls) ==> ls.contains(d.location))
    &&& (f.states matches Some(ss) ==> ss.contains(d.state))
}

/// The order that a listing sorts dispatchers by.
pub open spec fn dispatcher_order(by: DispatcherSortBy, order: SortOrder) -> spec_fn(
    Dispatcher,
    Dispatcher,
) -> int {
    |a: Dispatcher, b: Dispatcher|
        directed(
            match by {
                DispatcherSortBy::ProvisionAt => timestamp_order(a.provisioned_at, b.provisioned_at),
            },
            order,
        )
}

/// The identifier a cursor refers to.
pub open spec fn dispatcher_cursor_id() -> spec_fn(Dispatcher) -> u128 {
    |d: Dispatcher| d.id.0
}

/// The dispatchers that a listing returns: the stored ones that match the
/// filter, stably sorted, then paginated.
pub open spec fn dispatcher_listing(
    stored: Seq<(DispatcherId, Dispatcher)>,
    f: DispatcherFilterView,
    by: DispatcherSortBy,
    order: SortOrder,
    p: Pagination,
) -> Seq<Dispatcher> {
    paginate(
        sort_stable(
            values_of(stored).filter(|d: Dispatcher| dispatcher_matches(f, d)),
            dispatcher_order(by, order),
        ),
        p,
        dispatcher_cursor_id(),
    )
}

/// Whether a dispatcher passes the filter.
pub fn dispatcher_passes(f: &DispatcherFilter, d: &Dispatcher) -> (b: bool)
    ensures
        b == dispatcher_matches(f@, *d),
{
    if let Some(locations) = &f.locations {
        if !contains_cell(locations, d.location) {
            return false;
        }
    }
    if let Some(states) = &f.states {
        if !contains_dispatcher_state(states, d.state) {
            return false;
        }
    }
    true
}

/// Compares two dispatchers under the listing order.
pub fn compare_dispatchers(
    a: &Dispatcher,
    b: &Dispatcher,
    by: DispatcherSortBy,
    order: SortOrder,
) -> (r: i8)
    ensures
        r == (dispatcher_order(by, order))(*a, *b),
{
    let o = match by {
        DispatcherSortBy::ProvisionAt => compare_timestamps(&a.provisioned_at, &b.provisioned_at),
    };
    apply_direction(o, order)
}

/// The window of `s` that `skip` and `limit` select, copied out.
fn dispatcher_window(s: &Vec<Dispatcher>, skip: usize, limit: usize) -> (r: Vec<Dispatcher>)
    ensures
        r@ == window(s@, skip as int, limit as int),
{
    let start = if skip < s.len() {
        skip
    } else {
        s.len()
    };
    let end = if limit < s.len() - start {
        start + limit
    } else {
        s.len()
    };
    let mut r: Vec<Dispatcher> = Vec::new();
    let mut i = start;
    while i < end
        invariant
            start <= i <= end <= s@.len(),
            r@ == s@.subrange(start as int, i as int),
        decreases end - i,
    {
        r.push(s[i]);
        i = i + 1;
        assert(r@ =~= s@.subrange(start as int, i as int));
    }
    r
}

/// The page of a sorted listing.
fn paginate_dispatchers(s: &Vec<Dispatcher>, pagination: Pagination) -> (r: Vec<Dispatcher>)
    ensures
        r@ == paginate(s@, pagination, dispatcher_cursor_id()),
{
    match pagination {
        Pagination::Offset { offset, limit } => dispatcher_window(s, offset, limit),
        Pagination::Cursor { after, limit } => {
            match after {
                None => Vec::new(),
                Some(a) => {
                    let mut i: usize = 0;
                    while i < s.len()
                        invariant
                            i <= s@.len(),
                            pagination == (Pagination::Cursor { after: Some(a), limit }),
                            forall|j: int| 0 <= j < i ==> (#[trigger] s@[j]).id.0 != a,
                        decreases s@.len() - i,
                    {
                        if s[i].id.0 == a {
                            proof {
                                assert(is_first_with_id(s@, dispatcher_cursor_id(), a, i as int));
                                lemma_paginate_cursor(s@, dispatcher_cursor_id(), a, limit, i as int);
                            }
                            return dispatcher_window(s, i + 1, limit);
                        }
                        i = i + 1;
                    }
                    proof {
                        lemma_paginate_cursor_missing(s@, dispatcher_cursor_id(), a, limit);
                    }
                    Vec::new()
                },
            }
        },
    }
}

/// Dispatchers registered with the prime service, keyed by id.
pub struct InMemoryDispatcherRegistry {
    dispatchers: Vec<(DispatcherId, Dispatcher)>,
}

impl View for InMemoryDispatcherRegistry {
    type V = Seq<(DispatcherId, Dispatcher)>;

    closed spec fn view(&self) -> Seq<(DispatcherId, Dispatcher)> {
        self.dispatchers@
    }
}

impl InMemoryDispatcherRegistry {
    /// Keys are unique.
    #[verifier::type_invariant]
    closed spec fn wf(&self) -> bool {
        keys_unique(self.dispatchers@)
    }

    /// An empty registry.
    pub fn new() -> (r: InMemoryDispatcherRegistry)
        ensures
            r@ == Seq::<(DispatcherId, Dispatcher)>::empty(),
            keys_unique(r@),
    {
        InMemoryDispatcherRegistry { dispatchers: Vec::new() }
    }

    /// The position of the entry with key `id`.
    fn position(&self, id: DispatcherId) -> (r: Option<usize>)
        ensures
            r matches Some(i) ==> i < self@.len() && self@[i as int].0 == id && key_index(self@, id) == i,
            r is None <==> !has_key(self@, id),
    {
        proof {
            use_type_invariant(self);
        }
        let mut i: usize = 0;
        while i < self.dispatchers.len()
            invariant
                i <= self.dispatchers@.len(),
                keys_unique(self.dispatchers@),
                forall|k: int| 0 <= k < i ==> (#[trigger] self.dispatchers@[k]).0 != id,
            decreases self.dispatchers@.len() - i,
        {
            if self.dispatchers[i].0 == id {
                proof {
                    lemma_lookup_at(self.dispatchers@, id, i as int);
                }
                return Some(i);
            }
            i = i + 1;
        }
        None
    }

    /// Stores `dispatcher` under its own id, replacing any earlier one.
    pub fn register(&mut self, dispatcher: Dispatcher) -> (r: Result<(), InMemoryError>)
        ensures
            r is Ok,
            final(self)@ == upsert(old(self)@, dispatcher.id, dispatcher),
            keys_unique(final(self)@),
    {
        proof {
            use_type_invariant(&*self);
        }
        self.put(dispatcher.id, dispatcher);
        Ok(())
    }

    fn put(&mut self, id: DispatcherId, value: Dispatcher)
        ensures
            final(self)@ == upsert(old(self)@, id, value),
            keys_unique(final(self)@),
    {
        proof {
            use_type_invariant(&*self);
            lemma_upsert(self.dispatchers@, id, value);
        }
        match self.position(id) {
            Some(i) => {
                let mut entries: Vec<(DispatcherId, Dispatcher)> = Vec::new();
                std::mem::swap(&mut entries, &mut self.dispatchers);
                entries.set(i, (id, value));
                self.dispatchers = entries;
            },
            None => {
                let mut entries: Vec<(DispatcherId, Dispatcher)> = Vec::new();
                std::mem::swap(&mut entries, &mut self.dispatchers);
                entries.push((id, value));
                self.dispatchers = entries;
            },
        }
    }

    /// The dispatcher stored under `id`, if any.
    pub fn get(&self, id: DispatcherId) -> (r: Result<Option<Dispatcher>, InMemoryError>)
        ensures
            r == Ok::<Option<Dispatcher>, InMemoryError>(lookup(self@, id)),
    {
        match self.position(id) {
            Some(i) => Ok(Some(self.dispatchers[i].1)),
            None => Ok(None),
        }
    }

    /// Stores `new` under `id`, replacing any earlier entry.
    pub fn update(&mut self, id: DispatcherId, new: Dispatcher) -> (r: Result<(), InMemoryError>)
        ensures
            r is Ok,
            final(self)@ == upsert(old(self)@, id, new),
            keys_unique(final(self)@),
    {
        proof {
            use_type_invariant(&*self);
        }
        self.put(id, new);
        Ok(())
    }

    /// Marks the dispatcher stored under `id` as suspended; fails when
    /// there is none.
    pub fn suspend(&mut self, id: DispatcherId) -> (r: Result<(), InMemoryError>)
        ensures
            match lookup(old(self)@, id) {
                None => r == Err::<(), InMemoryError>(InMemoryError::NotFound) && final(self)@ == old(self)@,
                Some(d) => r is Ok && final(self)@ == upsert(
                    old(self)@,
                    id,
                    Dispatcher { state: DispatcherState::Suspended, ..d },
                ),
            },
            keys_unique(final(self)@),
    {
        proof {
            use_type_invariant(&*self);
        }
        match self.get(id) {
            Ok(Some(d)) => {
                self.put(id, Dispatcher { state: DispatcherState::Suspended, ..d });
                Ok(())
            },
            _ => Err(InMemoryError::NotFound),
        }
    }

    /// Registers each dispatcher in turn.
    pub fn batch_register(&mut self, dispatchers: Vec<Dispatcher>) -> (r: Result<(), InMemoryError>)
        ensures
            r is Ok,
            final(self)@ == register_all_dispatchers(old(self)@, dispatchers@),
            keys_unique(final(self)@),
    {
        proof {
            use_type_invariant(&*self);
        }
        let mut i: usize = 0;
        while i < dispatchers.len()
            invariant
                i <= dispatchers@.len(),
                self@ == register_all_dispatchers(old(self)@, dispatchers@.take(i as int)),
                keys_unique(self@),
            decreases dispatchers@.len() - i,
        {
            let d = dispatchers[i];
            self.put(d.id, d);
            proof {
                assert(dispatchers@.take(i + 1).drop_last() =~= dispatchers@.take(i as int));
            }
            i = i + 1;
        }
        assert(dispatchers@.take(dispatchers@.len() as int) =~= dispatchers@);
        Ok(())
    }

    /// How many dispatchers are stored, or how many of them match `filter`.
    pub fn count(&self, filter: Option<DispatcherFilter>) -> (r: Result<usize, InMemoryError>)
        ensures
            r == Ok::<usize, InMemoryError>(
                match filter {
                    None => self@.len() as usize,
                    Some(f) => values_of(self@).filter(|d: Dispatcher| dispatcher_matches(f@, d)).len() as usize,
                },
            ),
    {
        match filter {
            None => Ok(self.dispatchers.len()),
            Some(f) => {
                let ghost fv = f@;
                let ghost pred = |d: Dispatcher| dispatcher_matches(fv, d);
                let mut n: usize = 0;
                let mut i: usize = 0;
                while i < self.dispatchers.len()
                    invariant
                        i <= self.dispatchers@.len(),
                        fv == f@,
                        pred == (|d: Dispatcher| dispatcher_matches(fv, d)),
                        n == values_of(self@).take(i as int).filter(pred).len(),
                        n <= i,
                    decreases self.dispatchers@.len() - i,
                {
                    proof {
                        reveal_with_fuel(Seq::filter, 1);
                        assert(values_of(self@).take(i + 1).drop_last() =~= values_of(self@).take(i as int));
                        assert(values_of(self@).take(i + 1).last() == self.dispatchers@[i as int].1);
                    }
                    if dispatcher_passes(&f, &self.dispatchers[i].1) {
                        n = n + 1;
                    }
                    i = i + 1;
                }
                assert(values_of(self@).take(i as int) =~= values_of(self@));
                Ok(n)
            },
        }
    }

    /// The dispatchers that match the filter, stably sorted and paginated.
    pub fn list(&self, options: QueryOptions<DispatcherFilter, DispatcherSortBy>) -> (r: Result<
        Vec<Dispatcher>,
        InMemoryError,
    >)
        ensures
            r matches Ok(v) && v@ == dispatcher_listing(
                self@,
                options.filter@,
                options.sort_by,
                options.sort_order,
                options.pagination,
            ),
    {
        let ghost fv = options.filter@;
        let ghost pred = |d: Dispatcher| dispatcher_matches(fv, d);
        let ghost ord = dispatcher_order(options.sort_by, options.sort_order);
        let mut sorted: Vec<Dispatcher> = Vec::new();
        let mut i: usize = 0;
        while i < self.dispatchers.len()
            invariant
                i <= self.dispatchers@.len(),
                fv == options.filter@,
                pred == (|d: Dispatcher| dispatcher_matches(fv, d)),
                ord == dispatcher_order(options.sort_by, options.sort_order),
                sorted@ == sort_stable(values_of(self@).take(i as int).filter(pred), ord),
            decreases self.dispatchers@.len() - i,
        {
            let d = self.dispatchers[i].1;
            let ghost before = values_of(self@).take(i as int).filter(pred);
            proof {
                reveal_with_fuel(Seq::filter, 1);
                assert(values_of(self@).take(i + 1).drop_last() =~= values_of(self@).take(i as int));
                assert(values_of(self@).take(i + 1).last() == d);
            }
            if dispatcher_passes(&options.filter, &d) {
                let mut p = sorted.len();
                while p > 0 && compare_dispatchers(
                    &sorted[p - 1],
                    &d,
                    options.sort_by,
                    options.sort_order,
                ) > 0
                    invariant
                        p <= sorted@.len(),
                        ord == dispatcher_order(options.sort_by, options.sort_order),
                        forall|k: int| p <= k < sorted@.len() ==> ord(#[trigger] sorted@[k], d) > 0,
                    decreases p,
                {
                    p = p - 1;
                }
                proof {
                    lemma_insert_sorted_at(sorted@, d, ord, p as int);
                    assert(before.push(d).drop_last() =~= before);
                }
                sorted.insert(p, d);
            }
            i = i + 1;
        }
        assert(values_of(self@).take(i as int) =~= values_of(self@));
        Ok(paginate_dispatchers(&sorted, options.pagination))
    }
}

/// The entries after registering each dispatcher of `ds` in turn.
pub open spec fn register_all_dispatchers(
    s: Seq<(DispatcherId, Dispatcher)>,
    ds: Seq<Dispatcher>,
) -> Seq<(DispatcherId, Dispatcher)>
    decreases ds.len(),
{
    if ds.len() == 0 {
        s
    } else {
        upsert(register_all_dispatchers(s, ds.drop_last()), ds.last().id, ds.last())
    }
}

// ---------------------------------------------------------------------------
// Devices
// ---------------------------------------------------------------------------

/// Whether `x` is one of `v`.
pub fn contains_device_state(v: &Vec<DeviceState>, x: DeviceState) -> (b: bool)
    ensures
        b == v@.contains(x),
{
    let mut i: usize = 0;
    while i < v.len()
        invariant
            i <= v@.len(),
            forall|k: int| 0 <= k < i ==> v@[k] != x,
        decreases v@.len() - i,
    {
        if v[i] == x {
            return true;
        }
        i = i + 1;
    }
    false
}

/// Whether `x` is one of `v`.
pub fn contains_device_kind(v: &Vec<DeviceKind>, x: DeviceKind) -> (b: bool)
    ensures
        b == v@.contains(x),
{
    let mut i: usize = 0;
    while i < v.len()
        invariant
            i <= v@.len(),
            forall|k: int| 0 <= k < i ==> v@[k] != x,
        decreases v@.len() - i,
    {
        if v[i] == x {
            return true;
        }
        i = i + 1;
    }
    false
}

/// Whether a device passes every field of the filter that is set. The
/// manufacturer must contain the pattern, ignoring case; the id list is
/// not consulted by the in-memory registry.
pub open spec fn device_matches(f: DeviceFilterView, d: DeviceView) -> bool {
    &&& (f.locations matches Some(ls) ==> ls.contains(d.location))
    &&& (f.states matches Some(ss) ==> ss.contains(d.state))
    &&& (f.kinds matches Some(ks) ==> ks.contains(d.kind))
    &&& (f.manufacturer_pattern matches Some(p) ==> (d.manufacturer matches Some(m) && is_infix(
        lowercase_chars(p),
        lowercase_chars(m),
    )))
    &&& (f.sensor_count matches Some(r) ==> range_holds(r, d.sensors.len() as usize))
    &&& (f.provisioned_after matches Some(a) ==> !timestamp_lt(d.provisioned_at, a))
    &&& (f.provisioned_before matches Some(b) ==> !timestamp_lt(b, d.provisioned_at))
}

/// Whether a device passes the filter.
pub fn device_passes(f: &DeviceFilter, d: &Device) -> (b: bool)
    ensures
        b == device_matches(f@, d@),
{
    if let Some(locations) = &f.locations {
        if !contains_cell(locations, d.location) {
            return false;
        }
    }
    if let Some(states) = &f.states {
        if !contains_device_state(states, d.state) {
            return false;
        }
    }
    if let Some(kinds) = &f.kinds {
        if !contains_device_kind(kinds, d.kind) {
            return false;
        }
    }
    if let Some(pattern) = &f.manufacturer_pattern {
        match &d.manufacturer {
            Some(manufacturer) => {
                if !contains_ignoring_case(manufacturer.as_str(), pattern.as_str()) {
                    return false;
                }
            },
            None => {
                return false;
            },
        }
    }
    if let Some(range) = &f.sensor_count {
        if !range_contains_usize(range, d.sensors.len()) {
            return false;
        }
    }
    if let Some(after) = &f.provisioned_after {
        if d.provisioned_at.is_before(after) {
            return false;
        }
    }
    if let Some(before) = &f.provisioned_before {
        if d.provisioned_at.is_after(before) {
            return false;
        }
    }
    true
}

/// Lexicographic order of texts by code point: -1, 0 or 1.
pub open spec fn text_order(a: Seq<char>, b: Seq<char>) -> int
    decreases a.len(),
{
    if a.len() == 0 {
        if b.len() == 0 {
            0
        } else {
            -1
        }
    } else if b.len() == 0 {
        1
    } else if (a[0] as u32) < (b[0] as u32) {
        -1
    } else if (a[0] as u32) > (b[0] as u32) {
        1
    } else {
        text_order(a.drop_first(), b.drop_first())
    }
}

/// Order of optional texts: an absent text comes first.
pub open spec fn optional_text_order(a: Option<Seq<char>>, b: Option<Seq<char>>) -> int {
    match (a, b) {
        (None, None) => 0,
        (None, Some(_)) => -1,
        (Some(_), None) => 1,
        (Some(x), Some(y)) => text_order(x, y),
    }
}

/// -1, 0 or 1 as `a` is less than, equal to or greater than `b`.
pub open spec fn int_order(a: int, b: int) -> int {
    if a < b {
        -1
    } else if a == b {
        0
    } else {
        1
    }
}

/// The rank of a state in a sort: active devices first.
pub open spec fn device_state_rank(s: DeviceState) -> int {
    match s {
        DeviceState::Active => 0,
        DeviceState::Suspended => 1,
    }
}

/// The order that a listing sorts devices by.
pub open spec fn device_order(by: DeviceSortBy, order: SortOrder) -> spec_fn(
    DeviceView,
    DeviceView,
) -> int {
    |a: DeviceView, b: DeviceView|
        directed(
            match by {
                DeviceSortBy::State => int_order(
                    device_state_rank(a.state),
                    device_state_rank(b.state),
                ),
                DeviceSortBy::Manufacturer => optional_text_order(a.manufacturer, b.manufacturer),
                DeviceSortBy::ProvisionAt => timestamp_order(a.provisioned_at, b.provisioned_at),
                DeviceSortBy::SensorCount => int_order(
                    a.sensors.len() as int,
                    b.sensors.len() as int,
                ),
            },
            order,
        )
}

/// The identifier a cursor refers to.
pub open spec fn device_cursor_id() -> spec_fn(DeviceView) -> u128 {
    |d: DeviceView| d.id.0
}

/// The abstract content of a list of devices.
pub open spec fn device_views(s: Seq<Device>) -> Seq<DeviceView> {
    s.map_values(|d: Device| d@)
}

/// The abstract content of stored device entries.
pub open spec fn device_entry_views(s: Seq<(DeviceId, Device)>) -> Seq<(DeviceId, DeviceView)> {
    s.map_values(|e: (DeviceId, Device)| (e.0, e.1@))
}

/// The devices that a listing returns: the stored ones that match the
/// filter, stably sorted, then paginated.
pub open spec fn device_listing(
    stored: Seq<(DeviceId, DeviceView)>,
    f: DeviceFilterView,
    by: DeviceSortBy,
    order: SortOrder,
    p: Pagination,
) -> Seq<DeviceView> {
    paginate(
        sort_stable(
            values_of(stored).filter(|d: DeviceView| device_matches(f, d)),
            device_order(by, order),
        ),
        p,
        device_cursor_id(),
    )
}

/// One step of the lexicographic comparison.
proof fn lemma_text_order_step(a: Seq<char>, b: Seq<char>, i: int)
    requires
        0 <= i < a.len(),
        i < b.len(),
    ensures
        text_order(a.skip(i), b.skip(i)) == (if (a[i] as u32) < (b[i] as u32) {
            -1
        } else if (a[i] as u32) > (b[i] as u32) {
            1
        } else {
            text_order(a.skip(i + 1), b.skip(i + 1))
        }),
{
    assert(a.skip(i).drop_first() =~= a.skip(i + 1));
    assert(b.skip(i).drop_first() =~= b.skip(i + 1));
}

/// Compares two texts lexicographically by code point.
pub fn compare_text(a: &str, b: &str) -> (r: i8)
    ensures
        r == text_order(a@, b@),
        -1 <= r <= 1,
{
    let x = chars_of(a);
    let y = chars_of(b);
    let mut i: usize = 0;
    assert(x@.skip(0) =~= x@);
    assert(y@.skip(0) =~= y@);
    while i < x.len() && i < y.len()
        invariant
            x@ == a@,
            y@ == b@,
            i <= x@.len(),
            i <= y@.len(),
            text_order(x@, y@) == text_order(x@.skip(i as int), y@.skip(i as int)),
        decreases x@.len() - i,
    {
        proof {
            lemma_text_order_step(x@, y@, i as int);
        }
        if (x[i] as u32) < (y[i] as u32) {
            return -1;
        }
        if (x[i] as u32) > (y[i] as u32) {
            return 1;
        }
        i = i + 1;
    }
    if x.len() == i && y.len() == i {
        0
    } else if x.len() == i {
        -1
    } else {
        1
    }
}

/// Compares two optional texts; an absent text comes first.
pub fn compare_optional_text(a: &Option<String>, b: &Option<String>) -> (r: i8)
    ensures
        r == optional_text_order(crate::model::text_view(*a), crate::model::text_view(*b)),
        -1 <= r <= 1,
{
    match (a, b) {
        (None, None) => 0,
        (None, Some(_)) => -1,
        (Some(_), None) => 1,
        (Some(x), Some(y)) => compare_text(x.as_str(), y.as_str()),
    }
}

/// Compares two devices under the listing order.
pub fn compare_devices(a: &Device, b: &Device, by: DeviceSortBy, order: SortOrder) -> (r: i8)
    ensures
        r == (device_order(by, order))(a@, b@),
{
    let o: i8 = match by {
        DeviceSortBy::State => {
            let ra: u8 = match a.state {
                DeviceState::Active => 0,
                DeviceState::Suspended => 1,
            };
            let rb: u8 = match b.state {
                DeviceState::Active => 0,
                DeviceState::Suspended => 1,
            };
            if ra < rb {
                -1
            } else if ra == rb {
                0
            } else {
                1
            }
        },
        DeviceSortBy::Manufacturer => compare_optional_text(&a.manufacturer, &b.manufacturer),
        DeviceSortBy::ProvisionAt => compare_timestamps(&a.provisioned_at, &b.provisioned_at),
        DeviceSortBy::SensorCount => {
            if a.sensors.len() < b.sensors.len() {
                -1
            } else if a.sensors.len() == b.sensors.len() {
                0
            } else {
                1
            }
        },
    };
    apply_direction(o, order)
}

/// The page of a sorted listing, moved out of `s`.
fn paginate_devices(s: Vec<Device>, pagination: Pagination) -> (r: Vec<Device>)
    ensures
        device_views(r@) == paginate(device_views(s@), pagination, device_cursor_id()),
{
    let (skip, limit) = match pagination {
        Pagination::Offset { offset, limit } => (offset, limit),
        Pagination::Cursor { after, limit } => {
            match after {
                None => {
                    return Vec::new();
                },
                Some(a) => {
                    let mut i: usize = 0;
                    while i < s.len() && s[i].id.0 != a
                        invariant
                            i <= s@.len(),
                            forall|j: int| 0 <= j < i ==> (#[trigger] s@[j]).id.0 != a,
                        decreases s@.len() - i,
                    {
                        i = i + 1;
                    }
                    let found = i < s.len();
                    if !found {
                        proof {
                            let v = device_views(s@);
                            assert forall|k: int| 0 <= k < v.len() implies (device_cursor_id())(
                                #[trigger] v[k],
                            ) != a by {
                                assert(s@[k].id.0 != a);
                            }
                            lemma_paginate_cursor_missing(v, device_cursor_id(), a, limit);
                        }
                        return Vec::new();
                    }
                    proof {
                        let v = device_views(s@);
                        assert(is_first_with_id(v, device_cursor_id(), a, i as int)) by {
                            assert forall|j: int| 0 <= j < i implies (device_cursor_id())(
                                #[trigger] v[j],
                            ) != a by {
                                assert(s@[j].id.0 != a);
                            }
                        }
                        lemma_paginate_cursor(v, device_cursor_id(), a, limit, i as int);
                    }
                    (i + 1, limit)
                },
            }
        },
    };
    let ghost v = device_views(s@);
    let start = if skip < s.len() {
        skip
    } else {
        s.len()
    };
    let end = if limit < s.len() - start {
        start + limit
    } else {
        s.len()
    };
    let mut s = s;
    let mut tail = s.split_off(start);
    tail.truncate(end - start);
    assert(device_views(tail@) =~= window(v, skip as int, limit as int));
    tail
}

/// Devices registered with the prime service, keyed by id.
pub struct InMemoryDeviceRegistry {
    devices: Vec<(DeviceId, Device)>,
}

impl View for InMemoryDeviceRegistry {
    type V = Seq<(DeviceId, DeviceView)>;

    closed spec fn view(&self) -> Seq<(DeviceId, DeviceView)> {
        device_entry_views(self.devices@)
    }
}

/// The device with its sensors extended by `extra`.
pub open spec fn with_sensors(d: DeviceView, extra: Seq<Sensor>) -> DeviceView {
    DeviceView { sensors: d.sensors + extra, ..d }
}

/// The entries after registering each device of `ds` in turn.
pub open spec fn register_all_devices(
    s: Seq<(DeviceId, DeviceView)>,
    ds: Seq<DeviceView>,
) -> Seq<(DeviceId, DeviceView)>
    decreases ds.len(),
{
    if ds.len() == 0 {
        s
    } else {
        upsert(register_all_devices(s, ds.drop_last()), ds.last().id, ds.last())
    }
}

impl InMemoryDeviceRegistry {
    /// Keys are unique.
    #[verifier::type_invariant]
    closed spec fn wf(&self) -> bool {
        keys_unique(self.devices@)
    }

    /// An empty registry.
    pub fn new() -> (r: InMemoryDeviceRegistry)
        ensures
            r@ == Seq::<(DeviceId, DeviceView)>::empty(),
            keys_unique(r@),
    {
        let r = InMemoryDeviceRegistry { devices: Vec::new() };
        assert(r@ =~= Seq::<(DeviceId, DeviceView)>::empty());
        r
    }

    /// The position of the entry with key `id`.
    fn position(&self, id: DeviceId) -> (r: Option<usize>)
        ensures
            keys_unique(self@),
            r matches Some(i) ==> i < self@.len() && self@[i as int].0 == id && key_index(self@, id) == i
                && lookup(self@, id) == Some(self@[i as int].1),
            r is None <==> !has_key(self@, id),
            r is None ==> lookup(self@, id) is None,
    {
        proof {
            use_type_invariant(self);
            assert(keys_unique(self@));
        }
        let mut i: usize = 0;
        while i < self.devices.len()
            invariant
                i <= self.devices@.len(),
                keys_unique(self@),
                self@ == device_entry_views(self.devices@),
                forall|k: int| 0 <= k < i ==> (#[trigger] self.devices@[k]).0 != id,
            decreases self.devices@.len() - i,
        {
            if self.devices[i].0 == id {
                proof {
                    lemma_lookup_at(self@, id, i as int);
                }
                return Some(i);
            }
            i = i + 1;
        }
        proof {
            if has_key(self@, id) {
                let k = key_index(self@, id);
                assert(self.devices@[k].0 == id);
            }
        }
        None
    }

    fn put(&mut self, id: DeviceId, value: Device)
        ensures
            final(self)@ == upsert(old(self)@, id, value@),
            keys_unique(final(self)@),
    {
        let ghost v = value@;
        proof {
            use_type_invariant(&*self);
            lemma_upsert(self@, id, v);
        }
        match self.position(id) {
            Some(i) => {
                let mut entries: Vec<(DeviceId, Device)> = Vec::new();
                std::mem::swap(&mut entries, &mut self.devices);
                entries.set(i, (id, value));
                assert(device_entry_views(entries@) =~= upsert(old(self)@, id, v));
                assert(keys_unique(entries@)) by {
                    assert forall|a: int, b: int| 0 <= a < b < entries@.len() implies entries@[a].0
                        != entries@[b].0 by {
                        assert(device_entry_views(entries@)[a].0 == entries@[a].0);
                        assert(device_entry_views(entries@)[b].0 == entries@[b].0);
                    }
                }
                self.devices = entries;
            },
            None => {
                let mut entries: Vec<(DeviceId, Device)> = Vec::new();
                std::mem::swap(&mut entries, &mut self.devices);
                entries.push((id, value));
                assert(device_entry_views(entries@) =~= upsert(old(self)@, id, v));
                assert(keys_unique(entries@)) by {
                    assert forall|a: int, b: int| 0 <= a < b < entries@.len() implies entries@[a].0
                        != entries@[b].0 by {
                        assert(device_entry_views(entries@)[a].0 == entries@[a].0);
                        assert(device_entry_views(entries@)[b].0 == entries@[b].0);
                    }
                }
                self.devices = entries;
            },
        }
    }

    /// Stores `device` under its own id, replacing any earlier one.
    pub fn register(&mut self, device: Device) -> (r: Result<(), InMemoryError>)
        ensures
            r is Ok,
            final(self)@ == upsert(old(self)@, device@.id, device@),
            keys_unique(final(self)@),
    {
        proof {
            use_type_invariant(&*self);
        }
        self.put(device.id, device);
        Ok(())
    }

    /// The device stored under `id`, if any.
    pub fn get(&self, id: DeviceId) -> (r: Result<Option<Device>, InMemoryError>)
        ensures
            r matches Ok(o) && match o {
                Some(d) => lookup(self@, id) == Some(d@),
                None => lookup(self@, id) is None,
            },
    {
        match self.position(id) {
            Some(i) => Ok(Some(self.devices[i].1.duplicate())),
            None => Ok(None),
        }
    }

    /// Stores `new` under `id`, replacing any earlier entry.
    pub fn update(&mut self, id: DeviceId, new: Device) -> (r: Result<(), InMemoryError>)
        ensures
            r is Ok,
            final(self)@ == upsert(old(self)@, id, new@),
            keys_unique(final(self)@),
    {
        proof {
            use_type_invariant(&*self);
        }
        self.put(id, new);
        Ok(())
    }

    /// Marks the device stored under `id` as suspended; fails when there is
    /// none.
    pub fn suspend(&mut self, id: DeviceId) -> (r: Result<(), InMemoryError>)
        ensures
            match lookup(old(self)@, id) {
                None => r == Err::<(), InMemoryError>(InMemoryError::NotFound) && final(self)@ == old(self)@,
                Some(d) => r is Ok && final(self)@ == upsert(
                    old(self)@,
                    id,
                    DeviceView { state: DeviceState::Suspended, ..d },
                ),
            },
            keys_unique(final(self)@),
    {
        proof {
            use_type_invariant(&*self);
        }
        match self.position(id) {
            Some(i) => {
                let mut d = self.devices[i].1.duplicate();
                d.state = DeviceState::Suspended;
                self.put(id, d);
                Ok(())
            },
            None => Err(InMemoryError::NotFound),
        }
    }

    /// Appends `sensor` to the device stored under `id`; fails when there
    /// is none.
    pub fn add_sensor(&mut self, id: DeviceId, sensor: Sensor) -> (r: Result<(), InMemoryError>)
        ensures
            match lookup(old(self)@, id) {
                None => r == Err::<(), InMemoryError>(InMemoryError::NotFound) && final(self)@ == old(self)@,
                Some(d) => r is Ok && final(self)@ == upsert(old(self)@, id, with_sensors(d, seq![sensor])),
            },
            keys_unique(final(self)@),
    {
        proof {
            use_type_invariant(&*self);
        }
        match self.position(id) {
            Some(i) => {
                let mut d = self.devices[i].1.duplicate();
                d.sensors.push(sensor);
                assert(d@.sensors =~= self@[i as int].1.sensors + seq![sensor]);
                assert(d@ == with_sensors(self@[i as int].1, seq![sensor]));
                self.put(id, d);
                Ok(())
            },
            None => Err(InMemoryError::NotFound),
        }
    }

    /// Appends `sensors` to the device stored under `id`; fails when there
    /// is none.
    pub fn add_sensors(&mut self, id: DeviceId, sensors: Vec<Sensor>) -> (r: Result<
        (),
        InMemoryError,
    >)
        ensures
            match lookup(old(self)@, id) {
                None => r == Err::<(), InMemoryError>(InMemoryError::NotFound) && final(self)@ == old(self)@,
                Some(d) => r is Ok && final(self)@ == upsert(old(self)@, id, with_sensors(d, sensors@)),
            },
            keys_unique(final(self)@),
    {
        proof {
            use_type_invariant(&*self);
        }
        match self.position(id) {
            Some(i) => {
                let mut d = self.devices[i].1.duplicate();
                let mut extra = sensors;
                d.sensors.append(&mut extra);
                assert(d@.sensors =~= self@[i as int].1.sensors + sensors@);
                assert(d@ == with_sensors(self@[i as int].1, sensors@));
                self.put(id, d);
                Ok(())
            },
            None => Err(InMemoryError::NotFound),
        }
    }

    /// Registers each device in turn.
    pub fn batch_register(&mut self, devices: Vec<Device>) -> (r: Result<(), InMemoryError>)
        ensures
            r is Ok,
            final(self)@ == register_all_devices(old(self)@, device_views(devices@)),
            keys_unique(final(self)@),
    {
        proof {
            use_type_invariant(&*self);
        }
        let mut i: usize = 0;
        while i < devices.len()
            invariant
                i <= devices@.len(),
                self@ == register_all_devices(old(self)@, device_views(devices@).take(i as int)),
                keys_unique(self@),
            decreases devices@.len() - i,
        {
            let d = devices[i].duplicate();
            self.put(d.id, d);
            proof {
                assert(device_views(devices@).take(i + 1).drop_last() =~= device_views(devices@).take(i as int));
            }
            i = i + 1;
        }
        assert(device_views(devices@).take(devices@.len() as int) =~= device_views(devices@));
        Ok(())
    }

    /// How many devices are stored, or how many of them match `filter`.
    pub fn count(&self, filter: Option<DeviceFilter>) -> (r: Result<usize, InMemoryError>)
        ensures
            r == Ok::<usize, InMemoryError>(
                match filter {
                    None => self@.len() as usize,
                    Some(f) => values_of(self@).filter(|d: DeviceView| device_matches(f@, d)).len() as usize,
                },
            ),
    {
        match filter {
            None => Ok(self.devices.len()),
            Some(f) => {
                let ghost fv = f@;
                let ghost pred = |d: DeviceView| device_matches(fv, d);
                let mut n: usize = 0;
                let mut i: usize = 0;
                while i < self.devices.len()
                    invariant
                        i <= self.devices@.len(),
                        self@ == device_entry_views(self.devices@),
                        fv == f@,
                        pred == (|d: DeviceView| device_matches(fv, d)),
                        n == values_of(self@).take(i as int).filter(pred).len(),
                        n <= i,
                    decreases self.devices@.len() - i,
                {
                    proof {
                        reveal_with_fuel(Seq::filter, 1);
                        assert(values_of(self@).take(i + 1).drop_last() =~= values_of(self@).take(i as int));
                        assert(values_of(self@).take(i + 1).last() == self.devices@[i as int].1@);
                    }
                    if device_passes(&f, &self.devices[i].1) {
                        n = n + 1;
                    }
                    i = i + 1;
                }
                assert(values_of(self@).take(i as int) =~= values_of(self@));
                Ok(n)
            },
        }
    }

    /// The devices that match the filter, stably sorted and paginated.
    pub fn list(&self, options: QueryOptions<DeviceFilter, DeviceSortBy>) -> (r: Result<
        Vec<Device>,
        InMemoryError,
    >)
        ensures
            r matches Ok(v) && device_views(v@) == device_listing(
                self@,
                options.filter@,
                options.sort_by,
                options.sort_order,
                options.pagination,
            ),
    {
        let ghost fv = options.filter@;
        let ghost pred = |d: DeviceView| device_matches(fv, d);
        let ghost ord = device_order(options.sort_by, options.sort_order);
        let mut sorted: Vec<Device> = Vec::new();
        let mut i: usize = 0;
        while i < self.devices.len()
            invariant
                i <= self.devices@.len(),
                self@ == device_entry_views(self.devices@),
                fv == options.filter@,
                pred == (|d: DeviceView| device_matches(fv, d)),
                ord == device_order(options.sort_by, options.sort_order),
                device_views(sorted@) == sort_stable(values_of(self@).take(i as int).filter(pred), ord),
            decreases self.devices@.len() - i,
        {
            let ghost before = values_of(self@).take(i as int).filter(pred);
            let ghost dv = self.devices@[i as int].1@;
            proof {
                reveal_with_fuel(Seq::filter, 1);
                assert(values_of(self@).take(i + 1).drop_last() =~= values_of(self@).take(i as int));
                assert(values_of(self@).take(i + 1).last() == dv);
            }
            if device_passes(&options.filter, &self.devices[i].1) {
                let d = self.devices[i].1.duplicate();
                let mut p = sorted.len();
                while p > 0 && compare_devices(&sorted[p - 1], &d, options.sort_by, options.sort_order)
                    > 0
                    invariant
                        p <= sorted@.len(),
                        d@ == dv,
                        ord == device_order(options.sort_by, options.sort_order),
                        forall|k: int|
                            p <= k < sorted@.len() ==> ord(#[trigger] device_views(sorted@)[k], dv) > 0,
                    decreases p,
                {
                    p = p - 1;
                }
                proof {
                    lemma_insert_sorted_at(device_views(sorted@), dv, ord, p as int);
                    assert(before.push(dv).drop_last() =~= before);
                }
                let ghost old_sorted = sorted@;
                sorted.insert(p, d);
                assert(device_views(sorted@) =~= device_views(old_sorted).insert(p as int, dv));
            }
            i = i + 1;
        }
        assert(values_of(self@).take(i as int) =~= values_of(self@));
        Ok(paginate_devices(sorted, options.pagination))
    }
}

// ---------------------------------------------------------------------------
// The listing orders are total preorders
// ---------------------------------------------------------------------------

/// Lexicographic order is antisymmetric and bounded.
pub proof fn lemma_text_order_antisymmetric(a: Seq<char>, b: Seq<char>)
    ensures
        text_order(a, b) == -text_order(b, a),
        -1 <= text_order(a, b) <= 1,
    decreases a.len(),
{
    if a.len() > 0 && b.len() > 0 && (a[0] as u32) == (b[0] as u32) {
        lemma_text_order_antisymmetric(a.drop_first(), b.drop_first());
    }
}

/// Lexicographic order is transitive.
pub proof fn lemma_text_order_transitive(a: Seq<char>, b: Seq<char>, c: Seq<char>)
    requires
        text_order(a, b) <= 0,
        text_order(b, c) <= 0,
    ensures
        text_order(a, c) <= 0,
    decreases a.len(),
{
    if a.len() > 0 && b.len() > 0 && c.len() > 0 && (a[0] as u32) == (b[0] as u32) && (b[0]
        as u32) == (c[0] as u32) {
        lemma_text_order_transitive(a.drop_first(), b.drop_first(), c.drop_first());
    }
}

/// The dispatcher listing order is a total preorder.
pub proof fn lemma_dispatcher_order_total(by: DispatcherSortBy, order: SortOrder)
    ensures
        is_total_preorder(dispatcher_order(by, order)),
{
}

/// The device listing order is a total preorder.
pub proof fn lemma_device_order_total(by: DeviceSortBy, order: SortOrder)
    ensures
        is_total_preorder(device_order(by, order)),
{
    let ord = device_order(by, order);
    assert forall|a: DeviceView, b: DeviceView| #[trigger] ord(a, b) == -ord(b, a) by {
        match (a.manufacturer, b.manufacturer) {
            (Some(x), Some(y)) => lemma_text_order_antisymmetric(x, y),
            _ => {},
        }
    }
    assert forall|a: DeviceView, b: DeviceView, c: DeviceView|
        #[trigger] ord(a, b) <= 0 && #[trigger] ord(b, c) <= 0 implies ord(a, c) <= 0 by {
        if by == DeviceSortBy::Manufacturer {
            match (a.manufacturer, b.manufacturer, c.manufacturer) {
                (Some(x), Some(y), Some(z)) => {
                    lemma_text_order_antisymmetric(x, y);
                    lemma_text_order_antisymmetric(y, z);
                    lemma_text_order_antisymmetric(x, z);
                    if order == SortOrder::Asc {
                        lemma_text_order_transitive(x, y, z);
                    } else {
                        lemma_text_order_transitive(z, y, x);
                    }
                },
                (Some(x), Some(y), None) => {
                    lemma_text_order_antisymmetric(x, y);
                },
                (None, Some(y), Some(z)) => {
                    lemma_text_order_antisymmetric(y, z);
                },
                _ => {},
            }
        }
    }
}

// ---------------------------------------------------------------------------
// Laws of the registries
// ---------------------------------------------------------------------------

/// A read gives back what a register wrote: after registering `d`, looking
/// up its id yields `d`, every other id yields what it did before, and the
/// ids stay unique.
pub proof fn dispatcher_register_then_get(s: Seq<(DispatcherId, Dispatcher)>, d: Dispatcher)
    requires
        keys_unique(s),
    ensures
        lookup(upsert(s, d.id, d), d.id) == Some(d),
        forall|k: DispatcherId| k != d.id ==> lookup(#[trigger] upsert(s, d.id, d), k) == lookup(s, k),
        keys_unique(upsert(s, d.id, d)),
{
    lemma_upsert(s, d.id, d);
}

/// A read gives back what a register wrote: after registering `d`, looking
/// up its id yields `d`, every other id yields what it did before, and the
/// ids stay unique.
pub proof fn device_register_then_get(s: Seq<(DeviceId, DeviceView)>, d: DeviceView)
    requires
        keys_unique(s),
    ensures
        lookup(upsert(s, d.id, d), d.id) == Some(d),
        forall|k: DeviceId| k != d.id ==> lookup(#[trigger] upsert(s, d.id, d), k) == lookup(s, k),
        keys_unique(upsert(s, d.id, d)),
{
    lemma_upsert(s, d.id, d);
}

/// Suspending a stored dispatcher changes its state to suspended and
/// nothing else: a later read returns the same dispatcher, suspended.
pub proof fn dispatcher_suspend_then_get(s: Seq<(DispatcherId, Dispatcher)>, id: DispatcherId)
    requires
        keys_unique(s),
        lookup(s, id) is Some,
    ensures
        lookup(upsert(s, id, Dispatcher { state: DispatcherState::Suspended, ..lookup(s, id)->0 }), id)
            == Some(Dispatcher { state: DispatcherState::Suspended, ..lookup(s, id)->0 }),
        upsert(s, id, Dispatcher { state: DispatcherState::Suspended, ..lookup(s, id)->0 }).len()
            == s.len(),
{
    lemma_upsert(s, id, Dispatcher { state: DispatcherState::Suspended, ..lookup(s, id)->0 });
}

/// Suspending a stored device changes its state to suspended and nothing
/// else: a later read returns the same device, suspended.
pub proof fn device_suspend_then_get(s: Seq<(DeviceId, DeviceView)>, id: DeviceId)
    requires
        keys_unique(s),
        lookup(s, id) is Some,
    ensures
        lookup(upsert(s, id, DeviceView { state: DeviceState::Suspended, ..lookup(s, id)->0 }), id)
            == Some(DeviceView { state: DeviceState::Suspended, ..lookup(s, id)->0 }),
        upsert(s, id, DeviceView { state: DeviceState::Suspended, ..lookup(s, id)->0 }).len()
            == s.len(),
{
    lemma_upsert(s, id, DeviceView { state: DeviceState::Suspended, ..lookup(s, id)->0 });
}

/// An unpaginated listing (offset 0, a limit no smaller than the count)
/// holds exactly the dispatchers that the filtered count counts, each as
/// often as it matches, in sorted order.
pub proof fn dispatcher_listing_sorted_and_complete(
    s: Seq<(DispatcherId, Dispatcher)>,
    f: DispatcherFilterView,
    by: DispatcherSortBy,
    order: SortOrder,
    limit: usize,
)
    requires
        limit >= values_of(s).filter(|d: Dispatcher| dispatcher_matches(f, d)).len(),
    ensures
        ({
            let listed = dispatcher_listing(s, f, by, order, Pagination::Offset { offset: 0, limit });
            let matching = values_of(s).filter(|d: Dispatcher| dispatcher_matches(f, d));
            &&& listed.len() == matching.len()
            &&& listed.to_multiset() == matching.to_multiset()
            &&& sorted_by(listed, dispatcher_order(by, order))
        }),
{
    let matching = values_of(s).filter(|d: Dispatcher| dispatcher_matches(f, d));
    let sorted = sort_stable(matching, dispatcher_order(by, order));
    lemma_sort_stable_len(matching, dispatcher_order(by, order));
    lemma_sort_stable_multiset(matching, dispatcher_order(by, order));
    lemma_dispatcher_order_total(by, order);
    lemma_sort_stable_sorted(matching, dispatcher_order(by, order));
    assert(window(sorted, 0, limit as int) =~= sorted);
}

/// An unpaginated listing (offset 0, a limit no smaller than the count)
/// holds exactly the devices that the filtered count counts, each as often
/// as it matches, in sorted order.
pub proof fn device_listing_sorted_and_complete(
    s: Seq<(DeviceId, DeviceView)>,
    f: DeviceFilterView,
    by: DeviceSortBy,
    order: SortOrder,
    limit: usize,
)
    requires
        limit >= values_of(s).filter(|d: DeviceView| device_matches(f, d)).len(),
    ensures
        ({
            let listed = device_listing(s, f, by, order, Pagination::Offset { offset: 0, limit });
            let matching = values_of(s).filter(|d: DeviceView| device_matches(f, d));
            &&& listed.len() == matching.len()
            &&& listed.to_multiset() == matching.to_multiset()
            &&& sorted_by(listed, device_order(by, order))
        }),
{
    let matching = values_of(s).filter(|d: DeviceView| device_matches(f, d));
    let sorted = sort_stable(matching, device_order(by, order));
    lemma_sort_stable_len(matching, device_order(by, order));
    lemma_sort_stable_multiset(matching, device_order(by, order));
    lemma_device_order_total(by, order);
    lemma_sort_stable_sorted(matching, device_order(by, order));
    assert(window(sorted, 0, limit as int) =~= sorted);
}

/// Consecutive offset pages tile the sorted listing: the page at `offset`
/// followed by the page at `offset + limit` is the page of twice the size.
pub proof fn offset_pages_are_consecutive<V>(s: Seq<V>, offset: usize, limit: usize)
    requires
        offset + limit + limit <= usize::MAX,
    ensures
        window(s, offset as int, limit as int) + window(s, offset + limit, limit as int)
            =~= window(s, offset as int, 2 * limit),
{
}

// ---------------------------------------------------------------------------
// What the filters select
// ---------------------------------------------------------------------------

/// Whether an optional list lets `x` through: there is no list, or the
/// list holds `x`.
pub open spec fn admits<T>(list: Option<Seq<T>>, x: T) -> bool {
    match list {
        Some(l) => l.contains(x),
        None => true,
    }
}

/// Whether a dispatcher qualifies under a filter: its location is one of
/// the filter's locations and its state one of its states, each where the
/// filter gives a list.
pub open spec fn dispatcher_qualifies(f: DispatcherFilterView, d: Dispatcher) -> bool {
    admits(f.locations, d.location) && admits(f.states, d.state)
}

/// A dispatcher filter selects exactly the qualifying dispatchers: the
/// filtered count counts a stored dispatcher if and only if it qualifies,
/// and no listing, under any order or page, returns a dispatcher that does
/// not.
pub proof fn law_dispatcher_filter_selects(
    s: Seq<(DispatcherId, Dispatcher)>,
    f: DispatcherFilterView,
    by: DispatcherSortBy,
    order: SortOrder,
    p: Pagination,
)
    ensures
        forall|i: int|
            0 <= i < values_of(s).len() ==> (values_of(s).filter(|d: Dispatcher| dispatcher_matches(f, d)).contains(
                #[trigger] values_of(s)[i],
            ) <==> dispatcher_qualifies(f, values_of(s)[i])),
        forall|x: Dispatcher|
            #[trigger] dispatcher_listing(s, f, by, order, p).contains(x) ==> dispatcher_qualifies(f, x),
{
    let all = values_of(s);
    let pred = |d: Dispatcher| dispatcher_matches(f, d);
    let matching = all.filter(pred);
    all.filter_lemma(pred);
    assert forall|i: int| 0 <= i < all.len() implies (matching.contains(#[trigger] all[i]) <==> dispatcher_qualifies(f, all[i])) by {
        if matching.contains(all[i]) {
            let j = choose|j: int| 0 <= j < matching.len() && matching[j] == all[i];
            assert(pred(matching[j]));
        }
        if dispatcher_qualifies(f, all[i]) {
            assert(pred(all[i]));
        }
    }
    assert forall|x: Dispatcher| #[trigger] dispatcher_listing(s, f, by, order, p).contains(x) implies dispatcher_qualifies(f, x) by {
        lemma_page_of_sorted_from(matching, dispatcher_order(by, order), p, dispatcher_cursor_id(), x);
        let j = choose|j: int| 0 <= j < matching.len() && matching[j] == x;
        assert(pred(matching[j]));
    }
}

/// Whether a device qualifies under a filter: its location, state and
/// kind are among those listed (where lists are given); its manufacturer
/// holds the pattern, ignoring case (where a pattern is given); its number
/// of sensors lies in the range; and it was provisioned no earlier than
/// `provisioned_after` and no later than `provisioned_before`.
pub open spec fn device_qualifies(f: DeviceFilterView, d: DeviceView) -> bool {
    &&& admits(f.locations, d.location)
    &&& admits(f.states, d.state)
    &&& admits(f.kinds, d.kind)
    &&& match f.manufacturer_pattern {
        Some(p) => match d.manufacturer {
            Some(m) => is_infix(lowercase_chars(p), lowercase_chars(m)),
            None => false,
        },
        None => true,
    }
    &&& match f.sensor_count {
        Some(r) => r.start <= d.sensors.len() && if r.exhausted {
            d.sensors.len() < r.end
        } else {
            d.sensors.len() <= r.end
        },
        None => true,
    }
    &&& match f.provisioned_after {
        Some(a) => a.second < d.provisioned_at.second || (a.second == d.provisioned_at.second
            && a.nanosecond <= d.provisioned_at.nanosecond),
        None => true,
    }
    &&& match f.provisioned_before {
        Some(b) => d.provisioned_at.second < b.second || (d.provisioned_at.second == b.second
            && d.provisioned_at.nanosecond <= b.nanosecond),
        None => true,
    }
}

/// A device filter selects exactly the qualifying devices (as long as
/// their number of sensors fits a `usize`): the filtered count counts a
/// stored device if and only if it qualifies, and no listing, under any
/// order or page, returns a device that does not.
pub proof fn law_device_filter_selects(
    s: Seq<(DeviceId, DeviceView)>,
    f: DeviceFilterView,
    by: DeviceSortBy,
    order: SortOrder,
    p: Pagination,
)
    requires
        forall|i: int| 0 <= i < values_of(s).len() ==> #[trigger] values_of(s)[i].sensors.len() <= usize::MAX,
    ensures
        forall|i: int|
            0 <= i < values_of(s).len() ==> (values_of(s).filter(|d: DeviceView| device_matches(f, d)).contains(
                #[trigger] values_of(s)[i],
            ) <==> device_qualifies(f, values_of(s)[i])),
        forall|x: DeviceView|
            #[trigger] device_listing(s, f, by, order, p).contains(x) && x.sensors.len() <= usize::MAX
                ==> device_qualifies(f, x),
{
    let all = values_of(s);
    let pred = |d: DeviceView| device_matches(f, d);
    let matching = all.filter(pred);
    all.filter_lemma(pred);
    assert forall|i: int| 0 <= i < all.len() implies (matching.contains(#[trigger] all[i]) <==> device_qualifies(f, all[i])) by {
        assert(all[i].sensors.len() <= usize::MAX);
        if matching.contains(all[i]) {
            let j = choose|j: int| 0 <= j < matching.len() && matching[j] == all[i];
            assert(pred(matching[j]));
        }
        if device_qualifies(f, all[i]) {
            assert(pred(all[i]));
        }
    }
    assert forall|x: DeviceView| #[trigger] device_listing(s, f, by, order, p).contains(x) && x.sensors.len() <= usize::MAX implies device_qualifies(f, x) by {
        lemma_page_of_sorted_from(matching, device_order(by, order), p, device_cursor_id(), x);
        let j = choose|j: int| 0 <= j < matching.len() && matching[j] == x;
        assert(pred(matching[j]));
    }
}

/// Whether instant `a` is no later than instant `b`, field by field.
pub open spec fn no_later(a: Timestamp, b: Timestamp) -> bool {
    a.second < b.second || (a.second == b.second && a.nanosecond <= b.nanosecond)
}

/// A listing of dispatchers by provisioning time runs from the earliest to
/// the latest when ascending and from the latest to the earliest when
/// descending (shown on a first page that holds every match).
pub proof fn law_dispatcher_listing_by_time(
    s: Seq<(DispatcherId, Dispatcher)>,
    f: DispatcherFilterView,
    order: SortOrder,
    limit: usize,
)
    requires
        limit >= values_of(s).filter(|d: Dispatcher| dispatcher_matches(f, d)).len(),
    ensures
        ({
            let listed = dispatcher_listing(
                s,
                f,
                DispatcherSortBy::ProvisionAt,
                order,
                Pagination::Offset { offset: 0, limit },
            );
            forall|i: int, j: int|
                0 <= i < j < listed.len() ==> if order == SortOrder::Asc {
                    no_later(#[trigger] listed[i].provisioned_at, #[trigger] listed[j].provisioned_at)
                } else {
                    no_later(listed[j].provisioned_at, listed[i].provisioned_at)
                }
        }),
{
    dispatcher_listing_sorted_and_complete(s, f, DispatcherSortBy::ProvisionAt, order, limit);
}

/// A listing of devices runs in the order asked for (shown on a first page
/// that holds every match): by provisioning time from the earliest when
/// ascending and from the latest when descending; by number of sensors
/// from the fewest when ascending and from the most when descending; by
/// state with active devices first when ascending and last when
/// descending.
pub proof fn law_device_listing_order(
    s: Seq<(DeviceId, DeviceView)>,
    f: DeviceFilterView,
    by: DeviceSortBy,
    order: SortOrder,
    limit: usize,
)
    requires
        limit >= values_of(s).filter(|d: DeviceView| device_matches(f, d)).len(),
    ensures
        ({
            let listed = device_listing(s, f, by, order, Pagination::Offset { offset: 0, limit });
            forall|i: int, j: int|
                0 <= i < j < listed.len() ==> {
                    let a = #[trigger] listed[i];
                    let b = #[trigger] listed[j];
                    &&& (by == DeviceSortBy::ProvisionAt && order == SortOrder::Asc) ==> no_later(
                        a.provisioned_at,
                        b.provisioned_at,
                    )
                    &&& (by == DeviceSortBy::ProvisionAt && order == SortOrder::Desc) ==> no_later(
                        b.provisioned_at,
                        a.provisioned_at,
                    )
                    &&& (by == DeviceSortBy::SensorCount && order == SortOrder::Asc) ==> a.sensors.len()
                        <= b.sensors.len()
                    &&& (by == DeviceSortBy::SensorCount && order == SortOrder::Desc) ==> b.sensors.len()
                        <= a.sensors.len()
                    &&& (by == DeviceSortBy::State && order == SortOrder::Asc) ==> (a.state
                        == DeviceState::Suspended ==> b.state == DeviceState::Suspended)
                    &&& (by == DeviceSortBy::State && order == SortOrder::Desc) ==> (a.state
                        == DeviceState::Active ==> b.state == DeviceState::Active)
                }
        }),
{
    device_listing_sorted_and_complete(s, f, by, order, limit);
}

} // verus!
