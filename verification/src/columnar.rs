//! SQL statements for the ClickHouse registries. Unlike the SQLite ones
//! they are plain text: identifiers are sent as bound `?` parameters, every
//! other value is written into the text in decimal.
use vstd::prelude::*;

use crate::codes::{
    device_kind_code, device_state_code, dispatcher_state_code, encode_device_kind, encode_device_state,
    encode_dispatcher_state, encode_error_code, encode_metric_type, error_code_code, metric_type_code,
};
use crate::filter::{
    range_end, range_start, DeviceFilter, DeviceFilterView, DeviceSortBy, DeviceStatusFilter,
    DeviceStatusFilterView, DeviceStatusSortBy, DispatcherFilter, DispatcherFilterView, DispatcherSortBy,
    Pagination, QueryOptions, ReadingFilter, ReadingFilterView, ReadingSortBy, SensorMetricType, SortOrder,
};
use crate::idtext::{ulid_text, ulid_to_string};
use crate::model::{
    DeviceErrorCode, DeviceId, DeviceKind, DeviceState, DispatcherId, DispatcherState, H3Cell, ReadingId,
    SensorId, StatusId,
};
use crate::query::{add_if, list_of, listed};
use crate::text::{concat, concat3, decimal, i64_text, owned, push_str, usize_text, with_number};
use crate::codes::{
    decode_device_kind, decode_device_state, decode_dispatcher_state, decode_sensor_kind, device_kind_from_code,
    device_state_from_code, dispatcher_state_from_code, sensor_kind_from_code,
};
use crate::idtext::{ulid_from_str, ulid_value};
use crate::model::{text_view, copy_text, Device, DeviceView, Dispatcher, DeviceStatus, Sensor, SensorReading, Timestamp, Percentage};
use crate::rows::{
    cell_of, decode_metric, instant_of_second, is_sensor_status_row_error, map_row_to_reading, map_row_to_status,
    metric_of, reading_row_decodes, reading_row_readable, sensor_of_row, sensor_row_readable,
    status_rows_decode, timestamp_from_second, metric_in_range, reading_row_holds, storable_instant,
    law_reading_row_roundtrip, DeviceRow, DispatcherRow, ErrorRow, ReadingRow, SensorRow,
    SensorStatusRow, SqliteDeviceStatusError, SqliteReadingError, StatusRow,
};

verus! {

// ---------------------------------------------------------------------------
// Text
// ---------------------------------------------------------------------------

/// The items written one after another with `sep` between them.
pub open spec fn joined(items: Seq<Seq<char>>, sep: Seq<char>) -> Seq<char>
    decreases items.len(),
{
    if items.len() == 0 {
        Seq::empty()
    } else if items.len() == 1 {
        items[0]
    } else {
        joined(items.drop_last(), sep) + sep + items.last()
    }
}

/// The abstract content of a list of texts.
pub open spec fn texts(v: Seq<String>) -> Seq<Seq<char>> {
    v.map_values(|s: String| s@)
}

/// `items` joined with `sep`.
fn join(items: &Vec<String>, sep: &str) -> (r: String)
    ensures
        r@ == joined(texts(items@), sep@),
{
    let ghost all = texts(items@);
    let mut r = String::new();
    let mut i: usize = 0;
    while i < items.len()
        invariant
            i <= items@.len(),
            all == texts(items@),
            r@ == joined(all.take(i as int), sep@),
        decreases items@.len() - i,
    {
        if i > 0 {
            push_str(&mut r, sep);
        }
        push_str(&mut r, items[i].as_str());
        proof {
            let t = all.take(i + 1);
            assert(t.drop_last() =~= all.take(i as int));
            if i == 0 {
                assert(t =~= seq![all[0]]);
                assert(all.take(0) =~= Seq::<Seq<char>>::empty());
                assert(r@ =~= joined(t, sep@));
            } else {
                assert(r@ =~= joined(t, sep@));
            }
        }
        i = i + 1;
    }
    assert(all.take(i as int) =~= all);
    r
}

/// `head`, the items joined with `, `, and `)`.
pub open spec fn in_text(head: Seq<char>, items: Seq<Seq<char>>) -> Seq<char> {
    head + joined(items, ", "@) + ")"@
}

fn in_condition(head: &str, items: &Vec<String>) -> (r: String)
    ensures
        r@ == in_text(head@, texts(items@)),
{
    let mut r = String::new();
    push_str(&mut r, head);
    let j = join(items, ", ");
    push_str(&mut r, j.as_str());
    push_str(&mut r, ")");
    assert(r@ =~= in_text(head@, texts(items@)));
    r
}

/// `n` placeholders.
pub open spec fn placeholders(n: nat) -> Seq<Seq<char>> {
    Seq::new(n, |i: int| "?"@)
}

fn placeholder_list(n: usize) -> (r: Vec<String>)
    ensures
        texts(r@) == placeholders(n as nat),
{
    let mut r: Vec<String> = Vec::new();
    let mut i: usize = 0;
    while i < n
        invariant
            i <= n,
            texts(r@) == placeholders(i as nat),
        decreases n - i,
    {
        let mut q = String::new();
        push_str(&mut q, "?");
        let ghost qv = q@;
        let ghost before = texts(r@);
        r.push(q);
        proof {
            assert(qv == "?"@) by {
                assert(qv =~= Seq::<char>::empty() + "?"@);
            }
            assert(texts(r@) =~= before.push(qv));
            assert(texts(r@) =~= placeholders((i + 1) as nat));
        }
        i = i + 1;
    }
    r
}

/// `" WHERE "` and the conditions joined with `" AND "`; nothing when there
/// are none.
pub open spec fn where_text(conds: Seq<Seq<char>>) -> Seq<char> {
    if conds.len() == 0 {
        Seq::empty()
    } else {
        " WHERE "@ + joined(conds, " AND "@)
    }
}

fn where_clause(conds: &Vec<String>) -> (r: String)
    ensures
        r@ == where_text(texts(conds@)),
{
    if conds.len() == 0 {
        String::new()
    } else {
        let mut r = String::new();
        push_str(&mut r, " WHERE ");
        let j = join(conds, " AND ");
        push_str(&mut r, j.as_str());
        assert(r@ =~= where_text(texts(conds@)));
        r
    }
}

fn add_text(conds: &mut Vec<String>, c: String)
    ensures
        texts(final(conds)@) == texts(old(conds)@).push(c@),
{
    let ghost cv = c@;
    conds.push(c);
    assert(texts(conds@) =~= texts(old(conds)@).push(cv));
}

/// `text` followed by `n` in decimal.
pub open spec fn compare_text(text: Seq<char>, n: i64) -> Seq<char> {
    text + decimal(n as int)
}

fn compare_condition(text: &str, n: i64) -> (r: String)
    ensures
        r@ == compare_text(text@, n),
{
    let d = i64_text(n);
    concat(text, d.as_str())
}

/// `text`, `a` in decimal, ` AND ` and `b` in decimal.
pub open spec fn between_text(text: Seq<char>, a: i64, b: i64) -> Seq<char> {
    text + decimal(a as int) + " AND "@ + decimal(b as int)
}

fn between_condition(text: &str, a: i64, b: i64) -> (r: String)
    ensures
        r@ == between_text(text@, a, b),
{
    let mut r = String::new();
    push_str(&mut r, text);
    let x = i64_text(a);
    push_str(&mut r, x.as_str());
    push_str(&mut r, " AND ");
    let y = i64_text(b);
    push_str(&mut r, y.as_str());
    assert(r@ =~= between_text(text@, a, b));
    r
}

// ---------------------------------------------------------------------------
// Values written into the text
// ---------------------------------------------------------------------------

/// The text forms of the identifiers.
pub open spec fn device_id_texts(ids: Seq<DeviceId>) -> Seq<Seq<char>> {
    ids.map_values(|d: DeviceId| ulid_text(d.0))
}

fn device_id_strings(ids: &Vec<DeviceId>) -> (r: Vec<String>)
    ensures
        texts(r@) == device_id_texts(ids@),
{
    let mut r: Vec<String> = Vec::new();
    let mut i: usize = 0;
    while i < ids.len()
        invariant
            i <= ids@.len(),
            texts(r@) == device_id_texts(ids@.take(i as int)),
        decreases ids@.len() - i,
    {
        let t = ulid_to_string(ids[i].0);
        let ghost tv = t@;
        let ghost before = texts(r@);
        r.push(t);
        proof {
            assert(texts(r@) =~= before.push(tv));
            assert(texts(r@) =~= device_id_texts(ids@.take(i + 1)));
        }
        i = i + 1;
    }
    assert(ids@.take(i as int) =~= ids@);
    r
}


/// The text forms of the identifiers.
pub open spec fn reading_id_texts(ids: Seq<ReadingId>) -> Seq<Seq<char>> {
    ids.map_values(|d: ReadingId| ulid_text(d.0))
}

fn reading_id_strings(ids: &Vec<ReadingId>) -> (r: Vec<String>)
    ensures
        texts(r@) == reading_id_texts(ids@),
{
    let mut r: Vec<String> = Vec::new();
    let mut i: usize = 0;
    while i < ids.len()
        invariant
            i <= ids@.len(),
            texts(r@) == reading_id_texts(ids@.take(i as int)),
        decreases ids@.len() - i,
    {
        let t = ulid_to_string(ids[i].0);
        let ghost tv = t@;
        let ghost before = texts(r@);
        r.push(t);
        proof {
            assert(texts(r@) =~= before.push(tv));
            assert(texts(r@) =~= reading_id_texts(ids@.take(i + 1)));
        }
        i = i + 1;
    }
    assert(ids@.take(i as int) =~= ids@);
    r
}


/// The text forms of the identifiers.
pub open spec fn sensor_id_texts(ids: Seq<SensorId>) -> Seq<Seq<char>> {
    ids.map_values(|d: SensorId| ulid_text(d.0))
}

fn sensor_id_strings(ids: &Vec<SensorId>) -> (r: Vec<String>)
    ensures
        texts(r@) == sensor_id_texts(ids@),
{
    let mut r: Vec<String> = Vec::new();
    let mut i: usize = 0;
    while i < ids.len()
        invariant
            i <= ids@.len(),
            texts(r@) == sensor_id_texts(ids@.take(i as int)),
        decreases ids@.len() - i,
    {
        let t = ulid_to_string(ids[i].0);
        let ghost tv = t@;
        let ghost before = texts(r@);
        r.push(t);
        proof {
            assert(texts(r@) =~= before.push(tv));
            assert(texts(r@) =~= sensor_id_texts(ids@.take(i + 1)));
        }
        i = i + 1;
    }
    assert(ids@.take(i as int) =~= ids@);
    r
}


/// The text forms of the identifiers.
pub open spec fn dispatcher_id_texts(ids: Seq<DispatcherId>) -> Seq<Seq<char>> {
    ids.map_values(|d: DispatcherId| ulid_text(d.0))
}

fn dispatcher_id_strings(ids: &Vec<DispatcherId>) -> (r: Vec<String>)
    ensures
        texts(r@) == dispatcher_id_texts(ids@),
{
    let mut r: Vec<String> = Vec::new();
    let mut i: usize = 0;
    while i < ids.len()
        invariant
            i <= ids@.len(),
            texts(r@) == dispatcher_id_texts(ids@.take(i as int)),
        decreases ids@.len() - i,
    {
        let t = ulid_to_string(ids[i].0);
        let ghost tv = t@;
        let ghost before = texts(r@);
        r.push(t);
        proof {
            assert(texts(r@) =~= before.push(tv));
            assert(texts(r@) =~= dispatcher_id_texts(ids@.take(i + 1)));
        }
        i = i + 1;
    }
    assert(ids@.take(i as int) =~= ids@);
    r
}


/// The text forms of the identifiers.
pub open spec fn status_id_texts(ids: Seq<StatusId>) -> Seq<Seq<char>> {
    ids.map_values(|d: StatusId| ulid_text(d.0))
}

fn status_id_strings(ids: &Vec<StatusId>) -> (r: Vec<String>)
    ensures
        texts(r@) == status_id_texts(ids@),
{
    let mut r: Vec<String> = Vec::new();
    let mut i: usize = 0;
    while i < ids.len()
        invariant
            i <= ids@.len(),
            texts(r@) == status_id_texts(ids@.take(i as int)),
        decreases ids@.len() - i,
    {
        let t = ulid_to_string(ids[i].0);
        let ghost tv = t@;
        let ghost before = texts(r@);
        r.push(t);
        proof {
            assert(texts(r@) =~= before.push(tv));
            assert(texts(r@) =~= status_id_texts(ids@.take(i + 1)));
        }
        i = i + 1;
    }
    assert(ids@.take(i as int) =~= ids@);
    r
}


/// The values in decimal.
pub open spec fn device_state_texts(v: Seq<DeviceState>) -> Seq<Seq<char>> {
    v.map_values(|x: DeviceState| decimal(device_state_code(x) as int))
}

fn device_state_strings(v: &Vec<DeviceState>) -> (r: Vec<String>)
    ensures
        texts(r@) == device_state_texts(v@),
{
    let mut r: Vec<String> = Vec::new();
    let mut i: usize = 0;
    while i < v.len()
        invariant
            i <= v@.len(),
            texts(r@) == device_state_texts(v@.take(i as int)),
        decreases v@.len() - i,
    {
        let t = i64_text(encode_device_state(v[i]) as i64);
        let ghost tv = t@;
        let ghost before = texts(r@);
        r.push(t);
        proof {
            assert(texts(r@) =~= before.push(tv));
            assert(texts(r@) =~= device_state_texts(v@.take(i + 1)));
        }
        i = i + 1;
    }
    assert(v@.take(i as int) =~= v@);
    r
}


/// The values in decimal.
pub open spec fn device_kind_texts(v: Seq<DeviceKind>) -> Seq<Seq<char>> {
    v.map_values(|x: DeviceKind| decimal(device_kind_code(x) as int))
}

fn device_kind_strings(v: &Vec<DeviceKind>) -> (r: Vec<String>)
    ensures
        texts(r@) == device_kind_texts(v@),
{
    let mut r: Vec<String> = Vec::new();
    let mut i: usize = 0;
    while i < v.len()
        invariant
            i <= v@.len(),
            texts(r@) == device_kind_texts(v@.take(i as int)),
        decreases v@.len() - i,
    {
        let t = i64_text(encode_device_kind(v[i]) as i64);
        let ghost tv = t@;
        let ghost before = texts(r@);
        r.push(t);
        proof {
            assert(texts(r@) =~= before.push(tv));
            assert(texts(r@) =~= device_kind_texts(v@.take(i + 1)));
        }
        i = i + 1;
    }
    assert(v@.take(i as int) =~= v@);
    r
}


/// The values in decimal.
pub open spec fn dispatcher_state_texts(v: Seq<DispatcherState>) -> Seq<Seq<char>> {
    v.map_values(|x: DispatcherState| decimal(dispatcher_state_code(x) as int))
}

fn dispatcher_state_strings(v: &Vec<DispatcherState>) -> (r: Vec<String>)
    ensures
        texts(r@) == dispatcher_state_texts(v@),
{
    let mut r: Vec<String> = Vec::new();
    let mut i: usize = 0;
    while i < v.len()
        invariant
            i <= v@.len(),
            texts(r@) == dispatcher_state_texts(v@.take(i as int)),
        decreases v@.len() - i,
    {
        let t = i64_text(encode_dispatcher_state(v[i]) as i64);
        let ghost tv = t@;
        let ghost before = texts(r@);
        r.push(t);
        proof {
            assert(texts(r@) =~= before.push(tv));
            assert(texts(r@) =~= dispatcher_state_texts(v@.take(i + 1)));
        }
        i = i + 1;
    }
    assert(v@.take(i as int) =~= v@);
    r
}


/// The values in decimal.
pub open spec fn metric_type_texts(v: Seq<SensorMetricType>) -> Seq<Seq<char>> {
    v.map_values(|x: SensorMetricType| decimal(metric_type_code(x) as int))
}

fn metric_type_strings(v: &Vec<SensorMetricType>) -> (r: Vec<String>)
    ensures
        texts(r@) == metric_type_texts(v@),
{
    let mut r: Vec<String> = Vec::new();
    let mut i: usize = 0;
    while i < v.len()
        invariant
            i <= v@.len(),
            texts(r@) == metric_type_texts(v@.take(i as int)),
        decreases v@.len() - i,
    {
        let t = i64_text(encode_metric_type(v[i]) as i64);
        let ghost tv = t@;
        let ghost before = texts(r@);
        r.push(t);
        proof {
            assert(texts(r@) =~= before.push(tv));
            assert(texts(r@) =~= metric_type_texts(v@.take(i + 1)));
        }
        i = i + 1;
    }
    assert(v@.take(i as int) =~= v@);
    r
}


/// The values in decimal.
pub open spec fn error_code_texts(v: Seq<DeviceErrorCode>) -> Seq<Seq<char>> {
    v.map_values(|x: DeviceErrorCode| decimal(error_code_code(x) as int))
}

fn error_code_strings(v: &Vec<DeviceErrorCode>) -> (r: Vec<String>)
    ensures
        texts(r@) == error_code_texts(v@),
{
    let mut r: Vec<String> = Vec::new();
    let mut i: usize = 0;
    while i < v.len()
        invariant
            i <= v@.len(),
            texts(r@) == error_code_texts(v@.take(i as int)),
        decreases v@.len() - i,
    {
        let t = i64_text(encode_error_code(v[i]) as i64);
        let ghost tv = t@;
        let ghost before = texts(r@);
        r.push(t);
        proof {
            assert(texts(r@) =~= before.push(tv));
            assert(texts(r@) =~= error_code_texts(v@.take(i + 1)));
        }
        i = i + 1;
    }
    assert(v@.take(i as int) =~= v@);
    r
}


/// The values in decimal.
pub open spec fn location_texts(v: Seq<H3Cell>) -> Seq<Seq<char>> {
    v.map_values(|x: H3Cell| decimal((x.0 as i64) as int))
}

fn location_strings(v: &Vec<H3Cell>) -> (r: Vec<String>)
    ensures
        texts(r@) == location_texts(v@),
{
    let mut r: Vec<String> = Vec::new();
    let mut i: usize = 0;
    while i < v.len()
        invariant
            i <= v@.len(),
            texts(r@) == location_texts(v@.take(i as int)),
        decreases v@.len() - i,
    {
        let t = i64_text(v[i].0 as i64);
        let ghost tv = t@;
        let ghost before = texts(r@);
        r.push(t);
        proof {
            assert(texts(r@) =~= before.push(tv));
            assert(texts(r@) =~= location_texts(v@.take(i + 1)));
        }
        i = i + 1;
    }
    assert(v@.take(i as int) =~= v@);
    r
}

fn append_texts(dst: &mut Vec<String>, src: Vec<String>)
    ensures
        texts(final(dst)@) == texts(old(dst)@) + texts(src@),
{
    let mut src = src;
    let ghost a = dst@;
    let ghost b = src@;
    dst.append(&mut src);
    assert(dst@ == a + b);
    assert(texts(dst@) =~= texts(a) + texts(b));
}

// ---------------------------------------------------------------------------
// Devices
// ---------------------------------------------------------------------------

/// The condition that the manufacturer holds `pattern` (written into the
/// text as it is).
pub open spec fn like_text(pattern: Seq<char>) -> Seq<char> {
    "manufacturer LIKE '%"@ + pattern + "%'"@
}

/// The conditions a device filter imposes, in order.
pub open spec fn device_conditions(f: DeviceFilterView) -> Seq<Seq<char>> {
    let c = Seq::<Seq<char>>::empty();
    let c = add_if(c, listed(f.ids), in_text("id IN ("@, placeholders(list_of(f.ids).len())));
    let c = add_if(c, listed(f.states), in_text("state IN ("@, device_state_texts(list_of(f.states))));
    let c = add_if(c, listed(f.kinds), in_text("kind IN ("@, device_kind_texts(list_of(f.kinds))));
    let c = add_if(c, listed(f.locations), in_text("location IN ("@, location_texts(list_of(f.locations))));
    let c = match f.provisioned_after { Some(t) => c.push(compare_text("provisioned_at >= "@, t.second)), None => c };
    let c = match f.provisioned_before { Some(t) => c.push(compare_text("provisioned_at <= "@, t.second)), None => c };
    let c = match f.sensor_count { Some(r) => c.push(between_text("sensor_count BETWEEN "@, r.start as i64, r.end as i64)), None => c };
    match f.manufacturer_pattern { Some(p) => c.push(like_text(p)), None => c }
}

/// The values bound to the placeholders of a device filter, in order.
pub open spec fn device_bindings(f: DeviceFilterView) -> Seq<Seq<char>> {
    Seq::<Seq<char>>::empty() + (if listed(f.ids) { device_id_texts(list_of(f.ids)) } else { Seq::empty() })
}

fn device_condition_texts(filter: &DeviceFilter) -> (r: (Vec<String>, Vec<String>))
    ensures
        texts(r.0@) == device_conditions(filter@),
        texts(r.1@) == device_bindings(filter@),
{
    let ghost f = filter@;
    let mut conds: Vec<String> = Vec::new();
    let mut bindings: Vec<String> = Vec::new();
    let ghost mut g = Seq::<Seq<char>>::empty();
    let ghost mut gb = Seq::<Seq<char>>::empty();
    assert(texts(conds@) =~= g);
    assert(texts(bindings@) =~= gb);
    if let Some(v) = &filter.ids {
        if v.len() > 0 {
            add_text(&mut conds, in_condition("id IN (", &placeholder_list(v.len())));
            append_texts(&mut bindings, device_id_strings(v));
        }
    }
    proof {
        g = add_if(g, listed(f.ids), in_text("id IN ("@, placeholders(list_of(f.ids).len())));
        gb = gb + (if listed(f.ids) { device_id_texts(list_of(f.ids)) } else { Seq::empty() });
    }
    if let Some(v) = &filter.states {
        if v.len() > 0 {
            add_text(&mut conds, in_condition("state IN (", &device_state_strings(v)));
        }
    }
    proof {
        g = add_if(g, listed(f.states), in_text("state IN ("@, device_state_texts(list_of(f.states))));
    }
    if let Some(v) = &filter.kinds {
        if v.len() > 0 {
            add_text(&mut conds, in_condition("kind IN (", &device_kind_strings(v)));
        }
    }
    proof {
        g = add_if(g, listed(f.kinds), in_text("kind IN ("@, device_kind_texts(list_of(f.kinds))));
    }
    if let Some(v) = &filter.locations {
        if v.len() > 0 {
            add_text(&mut conds, in_condition("location IN (", &location_strings(v)));
        }
    }
    proof {
        g = add_if(g, listed(f.locations), in_text("location IN ("@, location_texts(list_of(f.locations))));
    }
    if let Some(t) = &filter.provisioned_after {
        add_text(&mut conds, compare_condition("provisioned_at >= ", t.as_second()));
    }
    proof {
        g = match f.provisioned_after { Some(t) => g.push(compare_text("provisioned_at >= "@, t.second)), None => g };
    }
    if let Some(t) = &filter.provisioned_before {
        add_text(&mut conds, compare_condition("provisioned_at <= ", t.as_second()));
    }
    proof {
        g = match f.provisioned_before { Some(t) => g.push(compare_text("provisioned_at <= "@, t.second)), None => g };
    }
    if let Some(r) = &filter.sensor_count {
        let a = range_start(r) as i64;
        let b = range_end(r) as i64;
        add_text(&mut conds, between_condition("sensor_count BETWEEN ", a, b));
    }
    proof {
        g = match f.sensor_count { Some(r) => g.push(between_text("sensor_count BETWEEN "@, r.start as i64, r.end as i64)), None => g };
    }
    if let Some(p) = &filter.manufacturer_pattern {
        add_text(&mut conds, concat3("manufacturer LIKE '%", p.as_str(), "%'"));
    }
    proof {
        g = match f.manufacturer_pattern { Some(p) => g.push(like_text(p)), None => g };
    }
    assert(texts(bindings@) =~= device_bindings(f));
    (conds, bindings)
}

/// The WHERE clause of a device filter, and the values bound to its
/// placeholders.
pub fn build_where_clause(filter: &DeviceFilter) -> (r: (String, Vec<String>))
    ensures
        r.0@ == where_text(device_conditions(filter@)),
        texts(r.1@) == device_bindings(filter@),
{
    let (conds, bindings) = device_condition_texts(filter);
    (where_clause(&conds), bindings)
}

// ---------------------------------------------------------------------------
// Dispatchers
// ---------------------------------------------------------------------------

/// The conditions a dispatcher filter imposes, in order.
pub open spec fn dispatcher_conditions(f: DispatcherFilterView) -> Seq<Seq<char>> {
    let c = Seq::<Seq<char>>::empty();
    let c = add_if(c, listed(f.states), in_text("state IN ("@, dispatcher_state_texts(list_of(f.states))));
    add_if(c, listed(f.locations), in_text("location IN ("@, location_texts(list_of(f.locations))))
}

/// The values bound to the placeholders of a dispatcher filter, in order.
pub open spec fn dispatcher_bindings(f: DispatcherFilterView) -> Seq<Seq<char>> {
    Seq::<Seq<char>>::empty()
}

fn dispatcher_condition_texts(filter: &DispatcherFilter) -> (r: (Vec<String>, Vec<String>))
    ensures
        texts(r.0@) == dispatcher_conditions(filter@),
        texts(r.1@) == dispatcher_bindings(filter@),
{
    let ghost f = filter@;
    let mut conds: Vec<String> = Vec::new();
    let mut bindings: Vec<String> = Vec::new();
    let ghost mut g = Seq::<Seq<char>>::empty();
    let ghost mut gb = Seq::<Seq<char>>::empty();
    assert(texts(conds@) =~= g);
    assert(texts(bindings@) =~= gb);
    if let Some(v) = &filter.states {
        if v.len() > 0 {
            add_text(&mut conds, in_condition("state IN (", &dispatcher_state_strings(v)));
        }
    }
    proof {
        g = add_if(g, listed(f.states), in_text("state IN ("@, dispatcher_state_texts(list_of(f.states))));
    }
    if let Some(v) = &filter.locations {
        if v.len() > 0 {
            add_text(&mut conds, in_condition("location IN (", &location_strings(v)));
        }
    }
    proof {
        g = add_if(g, listed(f.locations), in_text("location IN ("@, location_texts(list_of(f.locations))));
    }
    assert(texts(bindings@) =~= dispatcher_bindings(f));
    (conds, bindings)
}

/// The WHERE clause of a dispatcher filter (which binds nothing).
pub fn build_dispatcher_where_clause(filter: &DispatcherFilter) -> (r: (String, Vec<String>))
    ensures
        r.0@ == where_text(dispatcher_conditions(filter@)),
        texts(r.1@) == dispatcher_bindings(filter@),
{
    let (conds, bindings) = dispatcher_condition_texts(filter);
    (where_clause(&conds), bindings)
}

// ---------------------------------------------------------------------------
// Readings
// ---------------------------------------------------------------------------

/// The conditions a reading filter imposes, in order.
pub open spec fn reading_conditions(f: ReadingFilterView) -> Seq<Seq<char>> {
    let c = Seq::<Seq<char>>::empty();
    let c = add_if(c, listed(f.ids), in_text("id IN ("@, placeholders(list_of(f.ids).len())));
    let c = add_if(c, listed(f.device_ids), in_text("device_id IN ("@, placeholders(list_of(f.device_ids).len())));
    let c = add_if(c, listed(f.sensor_ids), in_text("sensor_id IN ("@, placeholders(list_of(f.sensor_ids).len())));
    let c = add_if(c, listed(f.dispatcher_ids), in_text("dispatcher_id IN ("@, placeholders(list_of(f.dispatcher_ids).len())));
    let c = add_if(c, listed(f.metric_types), in_text("metric_type IN ("@, metric_type_texts(list_of(f.metric_types))));
    let c = add_if(c, listed(f.locations), in_text("location IN ("@, location_texts(list_of(f.locations))));
    let c = match f.timestamp_after { Some(t) => c.push(compare_text("timestamp >= "@, t.second)), None => c };
    let c = match f.timestamp_before { Some(t) => c.push(compare_text("timestamp <= "@, t.second)), None => c };
    match f.confidence_range { Some(r) => c.push(between_text("confidence BETWEEN "@, r.start as i64, r.end as i64)), None => c }
}

/// The values bound to the placeholders of a reading filter, in order.
pub open spec fn reading_bindings(f: ReadingFilterView) -> Seq<Seq<char>> {
    Seq::<Seq<char>>::empty() + (if listed(f.ids) { reading_id_texts(list_of(f.ids)) } else { Seq::empty() }) + (if listed(f.device_ids) { device_id_texts(list_of(f.device_ids)) } else { Seq::empty() }) + (if listed(f.sensor_ids) { sensor_id_texts(list_of(f.sensor_ids)) } else { Seq::empty() }) + (if listed(f.dispatcher_ids) { dispatcher_id_texts(list_of(f.dispatcher_ids)) } else { Seq::empty() })
}

fn reading_condition_texts(filter: &ReadingFilter) -> (r: (Vec<String>, Vec<String>))
    ensures
        texts(r.0@) == reading_conditions(filter@),
        texts(r.1@) == reading_bindings(filter@),
{
    let ghost f = filter@;
    let mut conds: Vec<String> = Vec::new();
    let mut bindings: Vec<String> = Vec::new();
    let ghost mut g = Seq::<Seq<char>>::empty();
    let ghost mut gb = Seq::<Seq<char>>::empty();
    assert(texts(conds@) =~= g);
    assert(texts(bindings@) =~= gb);
    if let Some(v) = &filter.ids {
        if v.len() > 0 {
            add_text(&mut conds, in_condition("id IN (", &placeholder_list(v.len())));
            append_texts(&mut bindings, reading_id_strings(v));
        }
    }
    proof {
        g = add_if(g, listed(f.ids), in_text("id IN ("@, placeholders(list_of(f.ids).len())));
        gb = gb + (if listed(f.ids) { reading_id_texts(list_of(f.ids)) } else { Seq::empty() });
    }
    if let Some(v) = &filter.device_ids {
        if v.len() > 0 {
            add_text(&mut conds, in_condition("device_id IN (", &placeholder_list(v.len())));
            append_texts(&mut bindings, device_id_strings(v));
        }
    }
    proof {
        g = add_if(g, listed(f.device_ids), in_text("device_id IN ("@, placeholders(list_of(f.device_ids).len())));
        gb = gb + (if listed(f.device_ids) { device_id_texts(list_of(f.device_ids)) } else { Seq::empty() });
    }
    if let Some(v) = &filter.sensor_ids {
        if v.len() > 0 {
            add_text(&mut conds, in_condition("sensor_id IN (", &placeholder_list(v.len())));
            append_texts(&mut bindings, sensor_id_strings(v));
        }
    }
    proof {
        g = add_if(g, listed(f.sensor_ids), in_text("sensor_id IN ("@, placeholders(list_of(f.sensor_ids).len())));
        gb = gb + (if listed(f.sensor_ids) { sensor_id_texts(list_of(f.sensor_ids)) } else { Seq::empty() });
    }
    if let Some(v) = &filter.dispatcher_ids {
        if v.len() > 0 {
            add_text(&mut conds, in_condition("dispatcher_id IN (", &placeholder_list(v.len())));
            append_texts(&mut bindings, dispatcher_id_strings(v));
        }
    }
    proof {
        g = add_if(g, listed(f.dispatcher_ids), in_text("dispatcher_id IN ("@, placeholders(list_of(f.dispatcher_ids).len())));
        gb = gb + (if listed(f.dispatcher_ids) { dispatcher_id_texts(list_of(f.dispatcher_ids)) } else { Seq::empty() });
    }
    if let Some(v) = &filter.metric_types {
        if v.len() > 0 {
            add_text(&mut conds, in_condition("metric_type IN (", &metric_type_strings(v)));
        }
    }
    proof {
        g = add_if(g, listed(f.metric_types), in_text("metric_type IN ("@, metric_type_texts(list_of(f.metric_types))));
    }
    if let Some(v) = &filter.locations {
        if v.len() > 0 {
            add_text(&mut conds, in_condition("location IN (", &location_strings(v)));
        }
    }
    proof {
        g = add_if(g, listed(f.locations), in_text("location IN ("@, location_texts(list_of(f.locations))));
    }
    if let Some(t) = &filter.timestamp_after {
        add_text(&mut conds, compare_condition("timestamp >= ", t.as_second()));
    }
    proof {
        g = match f.timestamp_after { Some(t) => g.push(compare_text("timestamp >= "@, t.second)), None => g };
    }
    if let Some(t) = &filter.timestamp_before {
        add_text(&mut conds, compare_condition("timestamp <= ", t.as_second()));
    }
    proof {
        g = match f.timestamp_before { Some(t) => g.push(compare_text("timestamp <= "@, t.second)), None => g };
    }
    if let Some(r) = &filter.confidence_range {
        let a = range_start(r) as i64;
        let b = range_end(r) as i64;
        add_text(&mut conds, between_condition("confidence BETWEEN ", a, b));
    }
    proof {
        g = match f.confidence_range { Some(r) => g.push(between_text("confidence BETWEEN "@, r.start as i64, r.end as i64)), None => g };
    }
    assert(texts(bindings@) =~= reading_bindings(f));
    (conds, bindings)
}

/// The WHERE clause of a reading filter, and the values bound to its
/// placeholders.
pub fn build_reading_where_clause(filter: &ReadingFilter) -> (r: (String, Vec<String>))
    ensures
        r.0@ == where_text(reading_conditions(filter@)),
        texts(r.1@) == reading_bindings(filter@),
{
    let (conds, bindings) = reading_condition_texts(filter);
    (where_clause(&conds), bindings)
}

// ---------------------------------------------------------------------------
// Device statuses
// ---------------------------------------------------------------------------

/// The condition on whether a status carries errors.
pub open spec fn error_presence_text(has_errors: bool) -> Seq<char> {
    if has_errors {
        "device_status_errors.status_id IS NOT NULL"@
    } else {
        "device_status_errors.status_id IS NULL"@
    }
}

/// What joins the error table in, where a status filter looks at errors.
pub open spec fn status_join_text(f: DeviceStatusFilterView) -> Seq<char> {
    if f.has_errors is Some || listed(f.error_codes) {
        " LEFT JOIN device_status_errors ON device_statuses.id = device_status_errors.status_id"@
    } else {
        Seq::empty()
    }
}

/// The conditions a device status filter imposes, in order.
pub open spec fn status_conditions(f: DeviceStatusFilterView) -> Seq<Seq<char>> {
    let c = Seq::<Seq<char>>::empty();
    let c = add_if(c, listed(f.ids), in_text("device_statuses.id IN ("@, placeholders(list_of(f.ids).len())));
    let c = add_if(c, listed(f.device_ids), in_text("device_id IN ("@, placeholders(list_of(f.device_ids).len())));
    let c = add_if(c, listed(f.dispatcher_ids), in_text("dispatcher_id IN ("@, placeholders(list_of(f.dispatcher_ids).len())));
    let c = match f.timestamp_after { Some(t) => c.push(compare_text("timestamp >= "@, t.second)), None => c };
    let c = match f.timestamp_before { Some(t) => c.push(compare_text("timestamp <= "@, t.second)), None => c };
    let c = match f.battery_range { Some(r) => c.push(between_text("battery_percent BETWEEN "@, r.start as i64, r.end as i64)), None => c };
    let c = match f.has_errors { Some(b) => c.push(error_presence_text(b)), None => c };
    add_if(c, listed(f.error_codes), in_text("device_status_errors.error_code IN ("@, error_code_texts(list_of(f.error_codes))))
}

/// The values bound to the placeholders of a device status filter, in order.
pub open spec fn status_bindings(f: DeviceStatusFilterView) -> Seq<Seq<char>> {
    Seq::<Seq<char>>::empty() + (if listed(f.ids) { status_id_texts(list_of(f.ids)) } else { Seq::empty() }) + (if listed(f.device_ids) { device_id_texts(list_of(f.device_ids)) } else { Seq::empty() }) + (if listed(f.dispatcher_ids) { dispatcher_id_texts(list_of(f.dispatcher_ids)) } else { Seq::empty() })
}

fn status_condition_texts(filter: &DeviceStatusFilter) -> (r: (Vec<String>, Vec<String>))
    ensures
        texts(r.0@) == status_conditions(filter@),
        texts(r.1@) == status_bindings(filter@),
{
    let ghost f = filter@;
    let mut conds: Vec<String> = Vec::new();
    let mut bindings: Vec<String> = Vec::new();
    let ghost mut g = Seq::<Seq<char>>::empty();
    let ghost mut gb = Seq::<Seq<char>>::empty();
    assert(texts(conds@) =~= g);
    assert(texts(bindings@) =~= gb);
    if let Some(v) = &filter.ids {
        if v.len() > 0 {
            add_text(&mut conds, in_condition("device_statuses.id IN (", &placeholder_list(v.len())));
            append_texts(&mut bindings, status_id_strings(v));
        }
    }
    proof {
        g = add_if(g, listed(f.ids), in_text("device_statuses.id IN ("@, placeholders(list_of(f.ids).len())));
        gb = gb + (if listed(f.ids) { status_id_texts(list_of(f.ids)) } else { Seq::empty() });
    }
    if let Some(v) = &filter.device_ids {
        if v.len() > 0 {
            add_text(&mut conds, in_condition("device_id IN (", &placeholder_list(v.len())));
            append_texts(&mut bindings, device_id_strings(v));
        }
    }
    proof {
        g = add_if(g, listed(f.device_ids), in_text("device_id IN ("@, placeholders(list_of(f.device_ids).len())));
        gb = gb + (if listed(f.device_ids) { device_id_texts(list_of(f.device_ids)) } else { Seq::empty() });
    }
    if let Some(v) = &filter.dispatcher_ids {
        if v.len() > 0 {
            add_text(&mut conds, in_condition("dispatcher_id IN (", &placeholder_list(v.len())));
            append_texts(&mut bindings, dispatcher_id_strings(v));
        }
    }
    proof {
        g = add_if(g, listed(f.dispatcher_ids), in_text("dispatcher_id IN ("@, placeholders(list_of(f.dispatcher_ids).len())));
        gb = gb + (if listed(f.dispatcher_ids) { dispatcher_id_texts(list_of(f.dispatcher_ids)) } else { Seq::empty() });
    }
    if let Some(t) = &filter.timestamp_after {
        add_text(&mut conds, compare_condition("timestamp >= ", t.as_second()));
    }
    proof {
        g = match f.timestamp_after { Some(t) => g.push(compare_text("timestamp >= "@, t.second)), None => g };
    }
    if let Some(t) = &filter.timestamp_before {
        add_text(&mut conds, compare_condition("timestamp <= ", t.as_second()));
    }
    proof {
        g = match f.timestamp_before { Some(t) => g.push(compare_text("timestamp <= "@, t.second)), None => g };
    }
    if let Some(r) = &filter.battery_range {
        let a = range_start(r) as i64;
        let b = range_end(r) as i64;
        add_text(&mut conds, between_condition("battery_percent BETWEEN ", a, b));
    }
    proof {
        g = match f.battery_range { Some(r) => g.push(between_text("battery_percent BETWEEN "@, r.start as i64, r.end as i64)), None => g };
    }
    if let Some(b) = filter.has_errors {
        if b {
            add_text(&mut conds, owned("device_status_errors.status_id IS NOT NULL"));
        } else {
            add_text(&mut conds, owned("device_status_errors.status_id IS NULL"));
        }
    }
    proof {
        g = match f.has_errors { Some(b) => g.push(error_presence_text(b)), None => g };
    }
    if let Some(v) = &filter.error_codes {
        if v.len() > 0 {
            add_text(&mut conds, in_condition("device_status_errors.error_code IN (", &error_code_strings(v)));
        }
    }
    proof {
        g = add_if(g, listed(f.error_codes), in_text("device_status_errors.error_code IN ("@, error_code_texts(list_of(f.error_codes))));
    }
    assert(texts(bindings@) =~= status_bindings(f));
    (conds, bindings)
}

/// The join of the error table (where needed), the WHERE clause of a
/// device status filter, and the values bound to its placeholders.
pub fn build_clauses(filter: &DeviceStatusFilter) -> (r: (String, String, Vec<String>))
    ensures
        r.0@ == status_join_text(filter@),
        r.1@ == where_text(status_conditions(filter@)),
        texts(r.2@) == status_bindings(filter@),
{
    let needs_join = match &filter.error_codes {
        Some(codes) => filter.has_errors.is_some() || codes.len() > 0,
        None => filter.has_errors.is_some(),
    };
    let join_clause = if needs_join {
        owned(" LEFT JOIN device_status_errors ON device_statuses.id = device_status_errors.status_id")
    } else {
        String::new()
    };
    let (conds, bindings) = status_condition_texts(filter);
    (join_clause, where_clause(&conds), bindings)
}

// ---------------------------------------------------------------------------
// Whole statements
// ---------------------------------------------------------------------------

/// The direction of a sort.
pub open spec fn direction_text(o: SortOrder) -> Seq<char> {
    match o {
        SortOrder::Asc => " ASC"@,
        SortOrder::Desc => " DESC"@,
    }
}

/// The LIMIT (and for offset pages the OFFSET) of a page, in decimal.
pub open spec fn page_text(p: Pagination) -> Seq<char> {
    match p {
        Pagination::Offset { offset, limit } => " LIMIT "@ + decimal(limit as int) + " OFFSET "@ + decimal(
            offset as int,
        ),
        Pagination::Cursor { limit, .. } => " LIMIT "@ + decimal(limit as int),
    }
}

fn push_direction(q: &mut String, o: SortOrder)
    ensures
        final(q)@ == old(q)@ + direction_text(o),
{
    match o {
        SortOrder::Asc => push_str(q, " ASC"),
        SortOrder::Desc => push_str(q, " DESC"),
    }
}

fn push_page(q: &mut String, p: Pagination)
    ensures
        final(q)@ == old(q)@ + page_text(p),
{
    match p {
        Pagination::Offset { offset, limit } => {
            push_str(q, " LIMIT ");
            let l = usize_text(limit);
            push_str(q, l.as_str());
            push_str(q, " OFFSET ");
            let o = usize_text(offset);
            push_str(q, o.as_str());
        },
        Pagination::Cursor { limit, .. } => {
            push_str(q, " LIMIT ");
            let l = usize_text(limit);
            push_str(q, l.as_str());
        },
    }
    assert(q@ =~= old(q)@ + page_text(p));
}

/// The column a device listing is ordered by.
pub open spec fn device_order_column(s: DeviceSortBy) -> Seq<char> {
    match s {
        DeviceSortBy::State => "state"@,
        DeviceSortBy::Manufacturer => "manufacturer"@,
        DeviceSortBy::ProvisionAt => "provisioned_at"@,
        DeviceSortBy::SensorCount => "sensor_count"@,
    }
}

/// The statement that counts the devices a filter selects (all of them
/// without one), and the values bound to its placeholders.
pub fn build_device_count_query(filter: &Option<DeviceFilter>) -> (r: (String, Vec<String>))
    ensures
        match filter {
            None => r.0@ == "SELECT count() FROM devices FINAL"@ && r.1@.len() == 0,
            Some(f) => r.0@ == "SELECT count() FROM devices FINAL"@ + where_text(device_conditions(f@)) && texts(r.1@) == (if device_conditions(f@).len() > 0 {
                device_bindings(f@)
            } else {
                Seq::empty()
            }),
        },
{
    let mut query = owned("SELECT count() FROM devices FINAL");
    match filter {
        None => (query, Vec::new()),
        Some(f) => {
            let (where_clause, bindings) = build_where_clause(f);
            if !where_clause.as_str().is_empty() {
                push_str(&mut query, where_clause.as_str());
                (query, bindings)
            } else {
                proof {
                    if device_conditions(f@).len() > 0 {
                        reveal_strlit(" WHERE ");
                        assert(where_clause@.len() > 0);
                    }
                }
                assert(query@ =~= "SELECT count() FROM devices FINAL"@ + where_clause@);
                (query, Vec::new())
            }
        },
    }
}

/// The statement that lists devices: filtered, ordered and paged, and the
/// values bound to its placeholders.
pub fn build_device_list_query(options: &QueryOptions<DeviceFilter, DeviceSortBy>) -> (r: (String, Vec<String>))
    ensures
        r.0@ == "SELECT ?fields FROM devices FINAL"@ + where_text(device_conditions(options.filter@)) + " ORDER BY "@
            + device_order_column(options.sort_by) + direction_text(options.sort_order) + page_text(
            options.pagination,
        ),
        texts(r.1@) == device_bindings(options.filter@),
{
    let mut query = owned("SELECT ?fields FROM devices FINAL");
    let (where_clause, bindings) = build_where_clause(&options.filter);
    if !where_clause.as_str().is_empty() {
        push_str(&mut query, where_clause.as_str());
    } else {
        assert(query@ =~= query@ + where_clause@);
    }
    push_str(&mut query, " ORDER BY ");
    match options.sort_by {
        DeviceSortBy::State => push_str(&mut query, "state"),
        DeviceSortBy::Manufacturer => push_str(&mut query, "manufacturer"),
        DeviceSortBy::ProvisionAt => push_str(&mut query, "provisioned_at"),
        DeviceSortBy::SensorCount => push_str(&mut query, "sensor_count"),
    }
    push_direction(&mut query, options.sort_order);
    push_page(&mut query, options.pagination);
    (query, bindings)
}

/// The column a dispatcher listing is ordered by.
pub open spec fn dispatcher_order_column(s: DispatcherSortBy) -> Seq<char> {
    match s {
        DispatcherSortBy::ProvisionAt => "provisioned_at"@,
    }
}

/// The statement that counts the dispatchers a filter selects (all of them
/// without one), and the values bound to its placeholders.
pub fn build_dispatcher_count_query(filter: &Option<DispatcherFilter>) -> (r: (String, Vec<String>))
    ensures
        match filter {
            None => r.0@ == "SELECT count() FROM dispatchers FINAL"@ && r.1@.len() == 0,
            Some(f) => r.0@ == "SELECT count() FROM dispatchers FINAL"@ + where_text(dispatcher_conditions(f@)) && texts(r.1@) == (if dispatcher_conditions(f@).len() > 0 {
                dispatcher_bindings(f@)
            } else {
                Seq::empty()
            }),
        },
{
    let mut query = owned("SELECT count() FROM dispatchers FINAL");
    match filter {
        None => (query, Vec::new()),
        Some(f) => {
            let (where_clause, bindings) = build_dispatcher_where_clause(f);
            if !where_clause.as_str().is_empty() {
                push_str(&mut query, where_clause.as_str());
                (query, bindings)
            } else {
                proof {
                    if dispatcher_conditions(f@).len() > 0 {
                        reveal_strlit(" WHERE ");
                        assert(where_clause@.len() > 0);
                    }
                }
                assert(query@ =~= "SELECT count() FROM dispatchers FINAL"@ + where_clause@);
                (query, Vec::new())
            }
        },
    }
}

/// The statement that lists dispatchers: filtered, ordered and paged, and the
/// values bound to its placeholders.
pub fn build_dispatcher_list_query(options: &QueryOptions<DispatcherFilter, DispatcherSortBy>) -> (r: (String, Vec<String>))
    ensures
        r.0@ == "SELECT ?fields FROM dispatchers FINAL"@ + where_text(dispatcher_conditions(options.filter@)) + " ORDER BY "@
            + dispatcher_order_column(options.sort_by) + direction_text(options.sort_order) + page_text(
            options.pagination,
        ),
        texts(r.1@) == dispatcher_bindings(options.filter@),
{
    let mut query = owned("SELECT ?fields FROM dispatchers FINAL");
    let (where_clause, bindings) = build_dispatcher_where_clause(&options.filter);
    if !where_clause.as_str().is_empty() {
        push_str(&mut query, where_clause.as_str());
    } else {
        assert(query@ =~= query@ + where_clause@);
    }
    push_str(&mut query, " ORDER BY ");
    match options.sort_by {
        DispatcherSortBy::ProvisionAt => push_str(&mut query, "provisioned_at"),
    }
    push_direction(&mut query, options.sort_order);
    push_page(&mut query, options.pagination);
    (query, bindings)
}

/// The column a reading listing is ordered by.
pub open spec fn reading_order_column(s: ReadingSortBy) -> Seq<char> {
    match s {
        ReadingSortBy::Timestamp => "timestamp"@,
        ReadingSortBy::Confidence => "confidence"@,
        ReadingSortBy::DeviceId => "device_id"@,
    }
}

/// The statement that counts the readings a filter selects (all of them
/// without one), and the values bound to its placeholders.
pub fn build_reading_count_query(filter: &Option<ReadingFilter>) -> (r: (String, Vec<String>))
    ensures
        match filter {
            None => r.0@ == "SELECT count() FROM sensor_readings"@ && r.1@.len() == 0,
            Some(f) => r.0@ == "SELECT count() FROM sensor_readings"@ + where_text(reading_conditions(f@)) && texts(r.1@) == (if reading_conditions(f@).len() > 0 {
                reading_bindings(f@)
            } else {
                Seq::empty()
            }),
        },
{
    let mut query = owned("SELECT count() FROM sensor_readings");
    match filter {
        None => (query, Vec::new()),
        Some(f) => {
            let (where_clause, bindings) = build_reading_where_clause(f);
            if !where_clause.as_str().is_empty() {
                push_str(&mut query, where_clause.as_str());
                (query, bindings)
            } else {
                proof {
                    if reading_conditions(f@).len() > 0 {
                        reveal_strlit(" WHERE ");
                        assert(where_clause@.len() > 0);
                    }
                }
                assert(query@ =~= "SELECT count() FROM sensor_readings"@ + where_clause@);
                (query, Vec::new())
            }
        },
    }
}

/// The statement that lists readings: filtered, ordered and paged, and the
/// values bound to its placeholders.
pub fn build_reading_list_query(options: &QueryOptions<ReadingFilter, ReadingSortBy>) -> (r: (String, Vec<String>))
    ensures
        r.0@ == "SELECT ?fields FROM sensor_readings"@ + where_text(reading_conditions(options.filter@)) + " ORDER BY "@
            + reading_order_column(options.sort_by) + direction_text(options.sort_order) + page_text(
            options.pagination,
        ),
        texts(r.1@) == reading_bindings(options.filter@),
{
    let mut query = owned("SELECT ?fields FROM sensor_readings");
    let (where_clause, bindings) = build_reading_where_clause(&options.filter);
    if !where_clause.as_str().is_empty() {
        push_str(&mut query, where_clause.as_str());
    } else {
        assert(query@ =~= query@ + where_clause@);
    }
    push_str(&mut query, " ORDER BY ");
    match options.sort_by {
        ReadingSortBy::Timestamp => push_str(&mut query, "timestamp"),
        ReadingSortBy::Confidence => push_str(&mut query, "confidence"),
        ReadingSortBy::DeviceId => push_str(&mut query, "device_id"),
    }
    push_direction(&mut query, options.sort_order);
    push_page(&mut query, options.pagination);
    (query, bindings)
}

/// The column a status listing is ordered by.
pub open spec fn status_order_column(s: DeviceStatusSortBy) -> Seq<char> {
    match s {
        DeviceStatusSortBy::Timestamp => "timestamp"@,
        DeviceStatusSortBy::BatteryPercent => "battery_percent"@,
        DeviceStatusSortBy::DeviceId => "device_id"@,
    }
}

/// The statement that counts the status reports a filter selects (all of
/// them without one), and the values bound to its placeholders.
pub fn build_status_count_query(filter: &Option<DeviceStatusFilter>) -> (r: (String, Vec<String>))
    ensures
        match filter {
            None => r.0@ == "SELECT count(DISTINCT id) FROM device_statuses"@ && r.1@.len() == 0,
            Some(f) => r.0@ == "SELECT count(DISTINCT id) FROM device_statuses"@ + status_join_text(f@)
                + where_text(status_conditions(f@)) && texts(r.1@) == (if status_conditions(f@).len() > 0 {
                status_bindings(f@)
            } else {
                Seq::empty()
            }),
        },
{
    let mut query = owned("SELECT count(DISTINCT id) FROM device_statuses");
    match filter {
        None => (query, Vec::new()),
        Some(f) => {
            let (join_clause, where_clause, bindings) = build_clauses(f);
            push_str(&mut query, join_clause.as_str());
            if !where_clause.as_str().is_empty() {
                push_str(&mut query, where_clause.as_str());
                (query, bindings)
            } else {
                proof {
                    if status_conditions(f@).len() > 0 {
                        reveal_strlit(" WHERE ");
                        assert(where_clause@.len() > 0);
                    }
                }
                assert(query@ =~= query@ + where_clause@);
                (query, Vec::new())
            }
        },
    }
}

/// The statement that lists status reports: filtered, ordered and paged,
/// and the values bound to its placeholders.
pub fn build_status_list_query(options: &QueryOptions<DeviceStatusFilter, DeviceStatusSortBy>) -> (r: (
    String,
    Vec<String>,
))
    ensures
        r.0@ == "SELECT DISTINCT device_statuses.id, device_id, dispatcher_id, battery_percent, uptime_seconds, signal_rssi, timestamp FROM device_statuses"@
            + status_join_text(options.filter@) + where_text(status_conditions(options.filter@))
            + " ORDER BY "@ + status_order_column(options.sort_by) + direction_text(options.sort_order)
            + page_text(options.pagination),
        texts(r.1@) == status_bindings(options.filter@),
{
    let mut query = owned(
        "SELECT DISTINCT device_statuses.id, device_id, dispatcher_id, battery_percent, uptime_seconds, signal_rssi, timestamp FROM device_statuses",
    );
    let (join_clause, where_clause, bindings) = build_clauses(&options.filter);
    push_str(&mut query, join_clause.as_str());
    if !where_clause.as_str().is_empty() {
        push_str(&mut query, where_clause.as_str());
    } else {
        assert(query@ =~= query@ + where_clause@);
    }
    push_str(&mut query, " ORDER BY ");
    match options.sort_by {
        DeviceStatusSortBy::Timestamp => push_str(&mut query, "timestamp"),
        DeviceStatusSortBy::BatteryPercent => push_str(&mut query, "battery_percent"),
        DeviceStatusSortBy::DeviceId => push_str(&mut query, "device_id"),
    }
    push_direction(&mut query, options.sort_order);
    push_page(&mut query, options.pagination);
    (query, bindings)
}

// ---------------------------------------------------------------------------
// Rows
// ---------------------------------------------------------------------------

/// Why a ClickHouse registry failed.
#[derive(Debug, Clone, PartialEq, Eq)]
pub enum ClickHouseError {
    /// The client reported an error (its message).
    Client(String),
    InvalidUlid(String),
    InvalidTimestamp(i64),
    InvalidMetricType(i32),
    InvalidDeviceState(i32),
    InvalidDeviceKind(i32),
    InvalidSensorKind(i32),
    InvalidDispatcherState(i32),
    InvalidErrorCode(i32),
    InvalidSensorState(i32),
    NotFound,
}

/// The error as text: what was wrong, then the value or detail it carries.
pub open spec fn clickhouse_error_text(e: ClickHouseError) -> Seq<char> {
    match e {
        ClickHouseError::Client(m) => "clickhouse error: "@ + m@,
        ClickHouseError::InvalidUlid(m) => "invalid ULID: "@ + m@,
        ClickHouseError::InvalidTimestamp(n) => "invalid timestamp: "@ + decimal(n as int),
        ClickHouseError::InvalidMetricType(n) => "invalid metric type: "@ + decimal(n as int),
        ClickHouseError::InvalidDeviceState(n) => "invalid device state: "@ + decimal(n as int),
        ClickHouseError::InvalidDeviceKind(n) => "invalid device kind: "@ + decimal(n as int),
        ClickHouseError::InvalidSensorKind(n) => "invalid sensor kind: "@ + decimal(n as int),
        ClickHouseError::InvalidDispatcherState(n) => "invalid dispatcher state: "@ + decimal(n as int),
        ClickHouseError::InvalidErrorCode(n) => "invalid error code: "@ + decimal(n as int),
        ClickHouseError::InvalidSensorState(n) => "invalid sensor state: "@ + decimal(n as int),
        ClickHouseError::NotFound => "entity not found"@,
    }
}

impl ClickHouseError {
    /// The error as text.
    pub fn message(&self) -> (s: String)
        ensures
            s@ == clickhouse_error_text(*self),
    {
        match self {
            ClickHouseError::Client(m) => concat("clickhouse error: ", m.as_str()),
            ClickHouseError::InvalidUlid(m) => concat("invalid ULID: ", m.as_str()),
            ClickHouseError::InvalidTimestamp(n) => with_number("invalid timestamp: ", *n as i64),
            ClickHouseError::InvalidMetricType(n) => with_number("invalid metric type: ", *n as i64),
            ClickHouseError::InvalidDeviceState(n) => with_number("invalid device state: ", *n as i64),
            ClickHouseError::InvalidDeviceKind(n) => with_number("invalid device kind: ", *n as i64),
            ClickHouseError::InvalidSensorKind(n) => with_number("invalid sensor kind: ", *n as i64),
            ClickHouseError::InvalidDispatcherState(n) => with_number("invalid dispatcher state: ", *n as i64),
            ClickHouseError::InvalidErrorCode(n) => with_number("invalid error code: ", *n as i64),
            ClickHouseError::InvalidSensorState(n) => with_number("invalid sensor state: ", *n as i64),
            ClickHouseError::NotFound => owned("entity not found"),
        }
    }
}

/// What a dispatcher row decodes to: identifier, state and time are
/// checked in that order.
pub open spec fn dispatcher_row_reads(row: DispatcherRow, r: Result<Dispatcher, ClickHouseError>) -> bool {
    match ulid_value(row.id@) {
        None => (r matches Err(ClickHouseError::InvalidUlid(t)) && t@ == row.id@),
        Some(u) => match dispatcher_state_from_code(row.state) {
            None => r == Err::<Dispatcher, ClickHouseError>(ClickHouseError::InvalidDispatcherState(row.state)),
            Some(st) => match instant_of_second(row.provisioned_at) {
                None => r == Err::<Dispatcher, ClickHouseError>(ClickHouseError::InvalidTimestamp(row.provisioned_at)),
                Some(t) => r == Ok::<Dispatcher, ClickHouseError>(
                    Dispatcher { id: DispatcherId(u), state: st, location: cell_of(row.location), provisioned_at: t },
                ),
            },
        },
    }
}

/// Decodes a dispatcher row.
pub fn dispatcher_from_row(row: &DispatcherRow) -> (r: Result<Dispatcher, ClickHouseError>)
    ensures
        dispatcher_row_reads(*row, r),
{
    let id = match ulid_from_str(row.id.as_str()) {
        Some(u) => u,
        None => return Err(ClickHouseError::InvalidUlid(row.id.clone())),
    };
    let state = match decode_dispatcher_state(row.state) {
        Some(s) => s,
        None => return Err(ClickHouseError::InvalidDispatcherState(row.state)),
    };
    let provisioned_at = match timestamp_from_second(row.provisioned_at) {
        Some(t) => t,
        None => return Err(ClickHouseError::InvalidTimestamp(row.provisioned_at)),
    };
    Ok(Dispatcher { id: DispatcherId(id), state, location: H3Cell(row.location as u64), provisioned_at })
}

/// The error reported for a sensor row that does not decode.
pub open spec fn is_sensor_row_fault(row: SensorRow, e: ClickHouseError) -> bool {
    match ulid_value(row.id@) {
        None => (e matches ClickHouseError::InvalidUlid(t) && t@ == row.id@),
        Some(_) => match sensor_kind_from_code(row.kind) {
            None => e == ClickHouseError::InvalidSensorKind(row.kind),
            Some(_) => e == ClickHouseError::InvalidMetricType(row.metric_type),
        },
    }
}

/// Decodes a sensor row: identifier, kind and metric type are checked in
/// that order.
pub fn map_sensor_row(row: &SensorRow) -> (r: Result<Sensor, ClickHouseError>)
    requires
        sensor_row_readable(*row),
    ensures
        match sensor_of_row(*row) {
            Some(s) => r == Ok::<Sensor, ClickHouseError>(s),
            None => (r matches Err(e) && is_sensor_row_fault(*row, e)),
        },
{
    let id = match ulid_from_str(row.id.as_str()) {
        Some(u) => u,
        None => return Err(ClickHouseError::InvalidUlid(row.id.clone())),
    };
    let kind = match decode_sensor_kind(row.kind) {
        Some(k) => k,
        None => return Err(ClickHouseError::InvalidSensorKind(row.kind)),
    };
    let metric = match decode_metric(row.metric_type, row.metric_value) {
        Some(m) => m,
        None => return Err(ClickHouseError::InvalidMetricType(row.metric_type)),
    };
    Ok(Sensor { id: crate::model::SensorId(id), kind, metric })
}

/// What a device row decodes to (without its sensors): identifier, kind,
/// state and time are checked in that order.
pub open spec fn device_row_reads(row: DeviceRow, r: Result<Device, ClickHouseError>) -> bool {
    match ulid_value(row.id@) {
        None => (r matches Err(ClickHouseError::InvalidUlid(t)) && t@ == row.id@),
        Some(u) => match device_kind_from_code(row.kind) {
            None => (r matches Err(ClickHouseError::InvalidDeviceKind(c)) && c == row.kind),
            Some(k) => match device_state_from_code(row.state) {
                None => (r matches Err(ClickHouseError::InvalidDeviceState(c)) && c == row.state),
                Some(st) => match instant_of_second(row.provisioned_at) {
                    None => (r matches Err(ClickHouseError::InvalidTimestamp(x)) && x == row.provisioned_at),
                    Some(t) => (r matches Ok(d) && d@ == DeviceView {
                        id: DeviceId(u),
                        kind: k,
                        state: st,
                        location: cell_of(row.location),
                        manufacturer: text_view(row.manufacturer),
                        provisioned_at: t,
                        sensors: Seq::empty(),
                    }),
                },
            },
        },
    }
}

/// Decodes a device row (its sensors are fetched apart).
pub fn map_device_row(row: &DeviceRow) -> (r: Result<Device, ClickHouseError>)
    ensures
        device_row_reads(*row, r),
{
    let id = match ulid_from_str(row.id.as_str()) {
        Some(u) => u,
        None => return Err(ClickHouseError::InvalidUlid(row.id.clone())),
    };
    let kind = match decode_device_kind(row.kind) {
        Some(k) => k,
        None => return Err(ClickHouseError::InvalidDeviceKind(row.kind)),
    };
    let state = match decode_device_state(row.state) {
        Some(s) => s,
        None => return Err(ClickHouseError::InvalidDeviceState(row.state)),
    };
    let provisioned_at = match timestamp_from_second(row.provisioned_at) {
        Some(t) => t,
        None => return Err(ClickHouseError::InvalidTimestamp(row.provisioned_at)),
    };
    let d = Device {
        id: DeviceId(id),
        kind,
        state,
        location: H3Cell(row.location as u64),
        manufacturer: copy_text(&row.manufacturer),
        provisioned_at,
        sensors: Vec::new(),
    };
    assert(d@.sensors =~= Seq::<Sensor>::empty());
    Ok(d)
}

/// The same failure, reported by the ClickHouse registries.
pub open spec fn reading_fault(e: SqliteReadingError, c: ClickHouseError) -> bool {
    match e {
        SqliteReadingError::InvalidUlid(t) => (c matches ClickHouseError::InvalidUlid(x) && x@ == t@),
        SqliteReadingError::InvalidTimestamp(s) => c == ClickHouseError::InvalidTimestamp(s),
        SqliteReadingError::InvalidMetricType(m) => c == ClickHouseError::InvalidMetricType(m),
        SqliteReadingError::Sqlx(t) => (c matches ClickHouseError::Client(x) && x@ == t@),
        SqliteReadingError::Migration(t) => (c matches ClickHouseError::Client(x) && x@ == t@),
    }
}

/// What a reading row decodes to in the ClickHouse registry: what it
/// decodes to in the SQLite registry, with failures reported as ClickHouse
/// errors.
pub open spec fn clickhouse_reading_decodes(row: ReadingRow, r: Result<SensorReading, ClickHouseError>) -> bool {
    exists|s: Result<SensorReading, SqliteReadingError>| #[trigger] reading_row_decodes(row, s) && match s {
        Ok(v) => r == Ok::<SensorReading, ClickHouseError>(v),
        Err(e) => (r matches Err(c) && reading_fault(e, c)),
    }
}

/// A reading read back by the ClickHouse registry from the row it was
/// written to is the same reading, provided its time is storable and its
/// percentage, if any, is at most 100.
pub proof fn law_clickhouse_reading_row_roundtrip(s: SensorReading, row: ReadingRow, r: Result<SensorReading, ClickHouseError>)
    requires
        metric_in_range(s.metric),
        storable_instant(s.timestamp),
        reading_row_holds(row, s),
        clickhouse_reading_decodes(row, r),
    ensures
        r == Ok::<SensorReading, ClickHouseError>(s),
{
    let x = choose|x: Result<SensorReading, SqliteReadingError>| #[trigger] reading_row_decodes(row, x) && match x {
        Ok(v) => r == Ok::<SensorReading, ClickHouseError>(v),
        Err(e) => (r matches Err(c) && reading_fault(e, c)),
    };
    law_reading_row_roundtrip(s, row, x);
}

/// Decodes a reading row exactly as the SQLite registry does, reporting
/// its failures as ClickHouse errors.
pub fn reading_from_row(row: &ReadingRow) -> (r: Result<SensorReading, ClickHouseError>)
    requires
        reading_row_readable(*row),
    ensures
        clickhouse_reading_decodes(*row, r),
{
    let s = map_row_to_reading(row);
    let r = match s {
        Ok(v) => Ok(v),
        Err(SqliteReadingError::InvalidUlid(t)) => Err(ClickHouseError::InvalidUlid(t)),
        Err(SqliteReadingError::InvalidTimestamp(x)) => Err(ClickHouseError::InvalidTimestamp(x)),
        Err(SqliteReadingError::InvalidMetricType(m)) => Err(ClickHouseError::InvalidMetricType(m)),
        Err(SqliteReadingError::Sqlx(t)) => Err(ClickHouseError::Client(t)),
        Err(SqliteReadingError::Migration(t)) => Err(ClickHouseError::Client(t)),
    };
    r
}

/// The same failure, reported by the ClickHouse registries.
pub open spec fn status_fault(e: SqliteDeviceStatusError, c: ClickHouseError) -> bool {
    match e {
        SqliteDeviceStatusError::InvalidUlid(t) => (c matches ClickHouseError::InvalidUlid(x) && x@ == t@),
        SqliteDeviceStatusError::InvalidTimestamp(s) => c == ClickHouseError::InvalidTimestamp(s),
        SqliteDeviceStatusError::InvalidErrorCode(m) => c == ClickHouseError::InvalidErrorCode(m),
        SqliteDeviceStatusError::InvalidSensorState(m) => c == ClickHouseError::InvalidSensorState(m),
        SqliteDeviceStatusError::Sqlx(t) => (c matches ClickHouseError::Client(x) && x@ == t@),
        SqliteDeviceStatusError::Migration(t) => (c matches ClickHouseError::Client(x) && x@ == t@),
    }
}

/// Decodes a status row with its error and sensor state rows exactly as
/// the SQLite registry does, reporting its failures as ClickHouse errors.
pub fn status_from_rows(row: &StatusRow, errors: &Vec<ErrorRow>, sensors: &Vec<SensorStatusRow>) -> (r: Result<
    DeviceStatus,
    ClickHouseError,
>)
    ensures
        exists|s: Result<DeviceStatus, SqliteDeviceStatusError>| #[trigger] status_rows_decode(*row, errors@, sensors@, s)
            && match s {
            Ok(v) => (r matches Ok(x) && x@ == v@),
            Err(e) => (r matches Err(c) && status_fault(e, c)),
        },
{
    let s = map_row_to_status(row, errors, sensors);
    let ghost sg = s;
    let r = match s {
        Ok(v) => Ok(v),
        Err(SqliteDeviceStatusError::InvalidUlid(t)) => Err(ClickHouseError::InvalidUlid(t)),
        Err(SqliteDeviceStatusError::InvalidTimestamp(x)) => Err(ClickHouseError::InvalidTimestamp(x)),
        Err(SqliteDeviceStatusError::InvalidErrorCode(m)) => Err(ClickHouseError::InvalidErrorCode(m)),
        Err(SqliteDeviceStatusError::InvalidSensorState(m)) => Err(ClickHouseError::InvalidSensorState(m)),
        Err(SqliteDeviceStatusError::Sqlx(t)) => Err(ClickHouseError::Client(t)),
        Err(SqliteDeviceStatusError::Migration(t)) => Err(ClickHouseError::Client(t)),
    };
    r
}

// ---------------------------------------------------------------------------
// Laws of the filters
// ---------------------------------------------------------------------------

/// One for a field that is set, zero otherwise.
pub open spec fn one_if(b: bool) -> int {
    if b {
        1
    } else {
        0
    }
}

/// A reading filter's clause has one condition for each field that is set
/// and no other: readings taken at or after `timestamp_after`
/// (`timestamp >= ` and its second in decimal), at or before
/// `timestamp_before` (`timestamp <= `), with a confidence in the range,
/// and with an id, device, sensor or dispatcher among the bound values, or
/// a metric type or location among those written out.
pub proof fn law_reading_filter_clause(f: ReadingFilterView)
    ensures
        reading_conditions(f).len() == one_if(listed(f.ids)) + one_if(listed(f.device_ids)) + one_if(
            listed(f.sensor_ids),
        ) + one_if(listed(f.dispatcher_ids)) + one_if(listed(f.metric_types)) + one_if(listed(f.locations))
            + one_if(f.timestamp_after is Some) + one_if(f.timestamp_before is Some) + one_if(
            f.confidence_range is Some,
        ),
        f.timestamp_after matches Some(t) ==> reading_conditions(f).contains("timestamp >= "@ + decimal(t.second as int)),
        f.timestamp_before matches Some(t) ==> reading_conditions(f).contains("timestamp <= "@ + decimal(t.second as int)),
        f.confidence_range matches Some(r) ==> reading_conditions(f).contains(
            "confidence BETWEEN "@ + decimal(r.start as int) + " AND "@ + decimal(r.end as int),
        ),
        listed(f.ids) ==> reading_conditions(f).contains(
            "id IN ("@ + joined(Seq::new(list_of(f.ids).len(), |i: int| "?"@), ", "@) + ")"@,
        ),
        listed(f.device_ids) ==> reading_conditions(f).contains(
            "device_id IN ("@ + joined(Seq::new(list_of(f.device_ids).len(), |i: int| "?"@), ", "@) + ")"@,
        ),
        listed(f.sensor_ids) ==> reading_conditions(f).contains(
            "sensor_id IN ("@ + joined(Seq::new(list_of(f.sensor_ids).len(), |i: int| "?"@), ", "@) + ")"@,
        ),
        listed(f.dispatcher_ids) ==> reading_conditions(f).contains(
            "dispatcher_id IN ("@ + joined(Seq::new(list_of(f.dispatcher_ids).len(), |i: int| "?"@), ", "@) + ")"@,
        ),
        listed(f.metric_types) ==> reading_conditions(f).contains(
            "metric_type IN ("@ + joined(metric_type_texts(list_of(f.metric_types)), ", "@) + ")"@,
        ),
        listed(f.locations) ==> reading_conditions(f).contains(
            "location IN ("@ + joined(location_texts(list_of(f.locations)), ", "@) + ")"@,
        ),
{
    broadcast use vstd::seq_lib::group_seq_properties;
}

/// A reading filter that sets only `timestamp_after` selects the readings
/// taken at or after that second: its clause is exactly ` WHERE timestamp
/// >= ` and the second in decimal.
pub proof fn law_reading_clause_since(f: ReadingFilterView, t: Timestamp)
    requires
        f == (ReadingFilterView {
            ids: None,
            device_ids: None,
            sensor_ids: None,
            dispatcher_ids: None,
            metric_types: None,
            locations: None,
            timestamp_after: Some(t),
            timestamp_before: None,
            confidence_range: None,
        }),
    ensures
        where_text(reading_conditions(f)) == " WHERE timestamp >= "@ + decimal(t.second as int),
{
    reveal_strlit(" WHERE timestamp >= ");
    reveal_strlit(" WHERE ");
    reveal_strlit("timestamp >= ");
    assert(reading_conditions(f) =~= seq!["timestamp >= "@ + decimal(t.second as int)]);
    assert(where_text(reading_conditions(f)) =~= " WHERE timestamp >= "@ + decimal(t.second as int));
}

/// A device filter's clause has one condition for each field that is set
/// and no other: devices provisioned at or after `provisioned_after`
/// (`provisioned_at >= `), at or before `provisioned_before`
/// (`provisioned_at <= `), with a sensor count in the range, a
/// manufacturer holding the pattern, and an id among the bound values or
/// a state, kind or location among those written out.
pub proof fn law_device_filter_clause(f: DeviceFilterView)
    ensures
        device_conditions(f).len() == one_if(listed(f.ids)) + one_if(listed(f.states)) + one_if(
            listed(f.kinds),
        ) + one_if(listed(f.locations)) + one_if(f.provisioned_after is Some) + one_if(
            f.provisioned_before is Some,
        ) + one_if(f.sensor_count is Some) + one_if(f.manufacturer_pattern is Some),
        f.provisioned_after matches Some(t) ==> device_conditions(f).contains("provisioned_at >= "@ + decimal(t.second as int)),
        f.provisioned_before matches Some(t) ==> device_conditions(f).contains("provisioned_at <= "@ + decimal(t.second as int)),
        f.sensor_count matches Some(r) ==> device_conditions(f).contains(
            "sensor_count BETWEEN "@ + decimal((r.start as i64) as int) + " AND "@ + decimal(
                (r.end as i64) as int,
            ),
        ),
        f.manufacturer_pattern matches Some(p) ==> device_conditions(f).contains(
            "manufacturer LIKE '%"@ + p + "%'"@,
        ),
        listed(f.ids) ==> device_conditions(f).contains(
            "id IN ("@ + joined(Seq::new(list_of(f.ids).len(), |i: int| "?"@), ", "@) + ")"@,
        ),
        listed(f.states) ==> device_conditions(f).contains(
            "state IN ("@ + joined(device_state_texts(list_of(f.states)), ", "@) + ")"@,
        ),
        listed(f.kinds) ==> device_conditions(f).contains(
            "kind IN ("@ + joined(device_kind_texts(list_of(f.kinds)), ", "@) + ")"@,
        ),
        listed(f.locations) ==> device_conditions(f).contains(
            "location IN ("@ + joined(location_texts(list_of(f.locations)), ", "@) + ")"@,
        ),
{
    broadcast use vstd::seq_lib::group_seq_properties;
}

/// A dispatcher filter's clause has one condition for each field that is
/// set and no other: a state among those listed, a location among those
/// listed.
pub proof fn law_dispatcher_filter_clause(f: DispatcherFilterView)
    ensures
        dispatcher_conditions(f).len() == one_if(listed(f.states)) + one_if(listed(f.locations)),
        listed(f.states) ==> dispatcher_conditions(f).contains(
            "state IN ("@ + joined(dispatcher_state_texts(list_of(f.states)), ", "@) + ")"@,
        ),
        listed(f.locations) ==> dispatcher_conditions(f).contains(
            "location IN ("@ + joined(location_texts(list_of(f.locations)), ", "@) + ")"@,
        ),
{
    broadcast use vstd::seq_lib::group_seq_properties;
}

/// A status filter's clause has one condition for each field that is set
/// and no other: statuses taken at or after `timestamp_after`
/// (`timestamp >= `), at or before `timestamp_before` (`timestamp <= `),
/// with a battery level in the range, with or without errors as asked, and
/// with an id, device or dispatcher among the bound values or an error
/// code among those written out.
pub proof fn law_status_filter_clause(f: DeviceStatusFilterView)
    ensures
        status_conditions(f).len() == one_if(listed(f.ids)) + one_if(listed(f.device_ids)) + one_if(
            listed(f.dispatcher_ids),
        ) + one_if(f.timestamp_after is Some) + one_if(f.timestamp_before is Some) + one_if(
            f.battery_range is Some,
        ) + one_if(f.has_errors is Some) + one_if(listed(f.error_codes)),
        f.timestamp_after matches Some(t) ==> status_conditions(f).contains("timestamp >= "@ + decimal(t.second as int)),
        f.timestamp_before matches Some(t) ==> status_conditions(f).contains("timestamp <= "@ + decimal(t.second as int)),
        f.battery_range matches Some(r) ==> status_conditions(f).contains(
            "battery_percent BETWEEN "@ + decimal(r.start as int) + " AND "@ + decimal(r.end as int),
        ),
        f.has_errors == Some(true) ==> status_conditions(f).contains(
            "device_status_errors.status_id IS NOT NULL"@,
        ),
        f.has_errors == Some(false) ==> status_conditions(f).contains(
            "device_status_errors.status_id IS NULL"@,
        ),
        listed(f.ids) ==> status_conditions(f).contains(
            "device_statuses.id IN ("@ + joined(Seq::new(list_of(f.ids).len(), |i: int| "?"@), ", "@) + ")"@,
        ),
        listed(f.device_ids) ==> status_conditions(f).contains(
            "device_id IN ("@ + joined(Seq::new(list_of(f.device_ids).len(), |i: int| "?"@), ", "@) + ")"@,
        ),
        listed(f.dispatcher_ids) ==> status_conditions(f).contains(
            "dispatcher_id IN ("@ + joined(Seq::new(list_of(f.dispatcher_ids).len(), |i: int| "?"@), ", "@) + ")"@,
        ),
        listed(f.error_codes) ==> status_conditions(f).contains(
            "device_status_errors.error_code IN ("@ + joined(error_code_texts(list_of(f.error_codes)), ", "@) + ")"@,
        ),
{
    broadcast use vstd::seq_lib::group_seq_properties;
}

/// A listing query ends with its order and page: ascending or descending
/// as asked, at most `limit` rows, and for an offset page skipping
/// `offset` rows, both in decimal; a cursor page is limited only. The sort
/// key names the column of the field asked for.
pub proof fn law_listing_order_and_page_text(offset: usize, limit: usize, after: Option<u128>)
    ensures
        page_text(Pagination::Offset { offset, limit }) == " LIMIT "@ + decimal(limit as int) + " OFFSET "@
            + decimal(offset as int),
        page_text(Pagination::Cursor { after, limit }) == " LIMIT "@ + decimal(limit as int),
        direction_text(SortOrder::Asc) == " ASC"@,
        direction_text(SortOrder::Desc) == " DESC"@,
        device_order_column(DeviceSortBy::State) == "state"@,
        device_order_column(DeviceSortBy::Manufacturer) == "manufacturer"@,
        device_order_column(DeviceSortBy::ProvisionAt) == "provisioned_at"@,
        device_order_column(DeviceSortBy::SensorCount) == "sensor_count"@,
        dispatcher_order_column(DispatcherSortBy::ProvisionAt) == "provisioned_at"@,
        reading_order_column(ReadingSortBy::Timestamp) == "timestamp"@,
        reading_order_column(ReadingSortBy::Confidence) == "confidence"@,
        reading_order_column(ReadingSortBy::DeviceId) == "device_id"@,
        status_order_column(DeviceStatusSortBy::Timestamp) == "timestamp"@,
        status_order_column(DeviceStatusSortBy::BatteryPercent) == "battery_percent"@,
        status_order_column(DeviceStatusSortBy::DeviceId) == "device_id"@,
{
}

} // verus!
