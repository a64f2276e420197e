//! SQL statements for the SQLite registries, built as a sequence of text
//! pieces and bound parameters: each filter field that is set becomes one
//! condition, the first after ` WHERE `, every later one after ` AND `.
use vstd::prelude::*;

use crate::codes::{
    device_kind_code, device_state_code, dispatcher_state_code, encode_device_kind, encode_device_state,
    encode_dispatcher_state, encode_error_code, encode_metric_type, error_code_code, metric_type_code,
};
use crate::filter::{
    range_end, range_start, DeviceSortBy, DeviceStatusSortBy, DispatcherSortBy, Pagination, QueryOptions,
    ReadingSortBy, SortOrder, DeviceFilter, DeviceFilterView, DeviceStatusFilter, DeviceStatusFilterView,
    DispatcherFilter, DispatcherFilterView, ReadingFilter, ReadingFilterView, SensorMetricType,
};
use crate::idtext::{ulid_text, ulid_to_string};
use crate::text::concat3;
use crate::model::{
    DeviceErrorCode, DeviceId, DeviceKind, DeviceState, DispatcherId, DispatcherState, H3Cell,
    ReadingId, SensorId, StatusId,
};

verus! {

// ---------------------------------------------------------------------------
// Statements
// ---------------------------------------------------------------------------

/// A value sent with a statement as a bound parameter.
#[derive(Debug)]
pub enum SqlValue {
    Int(i64),
    Text(String),
}

/// The abstract content of a bound parameter.
pub enum SqlValueView {
    Int(i64),
    Text(Seq<char>),
}

impl View for SqlValue {
    type V = SqlValueView;

    open spec fn view(&self) -> SqlValueView {
        match self {
            SqlValue::Int(n) => SqlValueView::Int(*n),
            SqlValue::Text(s) => SqlValueView::Text(s@),
        }
    }
}

/// A piece of a statement: SQL text, or a bound parameter.
#[derive(Debug)]
pub enum SqlPart {
    Sql(&'static str),
    Bind(SqlValue),
}

/// The abstract content of a piece of a statement.
pub enum SqlPartView {
    Sql(Seq<char>),
    Bind(SqlValueView),
}

impl View for SqlPart {
    type V = SqlPartView;

    open spec fn view(&self) -> SqlPartView {
        match self {
            SqlPart::Sql(s) => SqlPartView::Sql(s@),
            SqlPart::Bind(v) => SqlPartView::Bind(v@),
        }
    }
}

/// The abstract content of a statement.
pub open spec fn parts_view(q: Seq<SqlPart>) -> Seq<SqlPartView> {
    q.map_values(|p: SqlPart| p@)
}

/// The abstract content of a list of bound values.
pub open spec fn values_view(v: Seq<SqlValue>) -> Seq<SqlValueView> {
    v.map_values(|x: SqlValue| x@)
}

/// The values bound one after another, separated by `, `.
pub open spec fn bind_list(vals: Seq<SqlValueView>) -> Seq<SqlPartView>
    decreases vals.len(),
{
    if vals.len() == 0 {
        Seq::empty()
    } else if vals.len() == 1 {
        seq![SqlPartView::Bind(vals[0])]
    } else {
        bind_list(vals.drop_last()) + seq![SqlPartView::Sql(", "@), SqlPartView::Bind(vals.last())]
    }
}

/// `head` followed by the bound values and a closing bracket.
pub open spec fn in_list(head: Seq<char>, vals: Seq<SqlValueView>) -> Seq<SqlPartView> {
    seq![SqlPartView::Sql(head)] + bind_list(vals) + seq![SqlPartView::Sql(")"@)]
}

/// The keyword that introduces a condition: ` WHERE ` for the first one,
/// ` AND ` for the others.
pub open spec fn joiner(first: bool) -> Seq<char> {
    if first {
        " WHERE "@
    } else {
        " AND "@
    }
}

/// The conditions joined into a WHERE clause (nothing when there are none).
pub open spec fn conjunction(conds: Seq<Seq<SqlPartView>>) -> Seq<SqlPartView>
    decreases conds.len(),
{
    if conds.len() == 0 {
        Seq::empty()
    } else {
        conjunction(conds.drop_last()) + seq![SqlPartView::Sql(joiner(conds.len() == 1))]
            + conds.last()
    }
}

/// `conds` with `c` added when `b` holds.
pub open spec fn add_if<T>(conds: Seq<T>, b: bool, c: T) -> Seq<T> {
    if b {
        conds.push(c)
    } else {
        conds
    }
}

/// Whether an optional list is given and not empty.
pub open spec fn listed<T>(o: Option<Seq<T>>) -> bool {
    o matches Some(l) && l.len() > 0
}

/// The list given, or nothing.
pub open spec fn list_of<T>(o: Option<Seq<T>>) -> Seq<T> {
    match o {
        Some(l) => l,
        None => Seq::empty(),
    }
}

proof fn lemma_conjunction_push(conds: Seq<Seq<SqlPartView>>, c: Seq<SqlPartView>)
    ensures
        conjunction(conds.push(c)) == conjunction(conds) + seq![SqlPartView::Sql(joiner(conds.len() == 0))] + c,
{
    assert(conds.push(c).drop_last() =~= conds);
}

/// Appends the keyword that introduces the next condition.
fn push_joiner(q: &mut Vec<SqlPart>, first: bool)
    ensures
        parts_view(final(q)@) == parts_view(old(q)@).push(SqlPartView::Sql(joiner(first))),
{
    if first {
        q.push(SqlPart::Sql(" WHERE "));
    } else {
        q.push(SqlPart::Sql(" AND "));
    }
    assert(parts_view(q@) =~= parts_view(old(q)@).push(SqlPartView::Sql(joiner(first))));
}

/// Appends `head`, the values separated by `, `, and `)`.
fn push_in_list(q: &mut Vec<SqlPart>, head: &'static str, vals: Vec<SqlValue>)
    ensures
        parts_view(final(q)@) == parts_view(old(q)@) + in_list(head@, values_view(vals@)),
{
    let ghost vv = values_view(vals@);
    let ghost start = parts_view(q@);
    q.push(SqlPart::Sql(head));
    let mut vals = vals;
    let mut i: usize = 0;
    let n = vals.len();
    while vals.len() > 0
        invariant
            i + vals@.len() == n,
            n == vv.len(),
            values_view(vals@) == vv.skip(i as int),
            parts_view(q@) == start + seq![SqlPartView::Sql(head@)] + bind_list(vv.take(i as int)),
        decreases vals@.len(),
    {
        let ghost before = vals@;
        let ghost q_before = parts_view(q@);
        let v = vals.remove(0);
        proof {
            assert(values_view(before)[0] == vv.skip(i as int)[0]);
            assert(v@ == vv[i as int]);
            assert forall|k: int| 0 <= k < vals@.len() implies #[trigger] values_view(vals@)[k] == vv.skip(
                i + 1,
            )[k] by {
                assert(vals@[k] == before[k + 1]);
                assert(values_view(before)[k + 1] == vv.skip(i as int)[k + 1]);
            }
            assert(values_view(vals@) =~= vv.skip(i + 1));
        }
        if i > 0 {
            q.push(SqlPart::Sql(", "));
            q.push(SqlPart::Bind(v));
            proof {
                assert(parts_view(q@) =~= q_before + seq![SqlPartView::Sql(", "@), SqlPartView::Bind(vv[i as int])]);
            }
        } else {
            q.push(SqlPart::Bind(v));
            proof {
                assert(parts_view(q@) =~= q_before + seq![SqlPartView::Bind(vv[i as int])]);
            }
        }
        proof {
            let t = vv.take(i + 1);
            assert(t.drop_last() =~= vv.take(i as int));
            assert(t.last() == vv[i as int]);
            if i == 0 {
                assert(t =~= seq![vv[0]]);
                assert(vv.take(0) =~= Seq::<SqlValueView>::empty());
            }
            assert(parts_view(q@) =~= start + seq![SqlPartView::Sql(head@)] + bind_list(t));
        }
        i = i + 1;
    }
    assert(vv.take(i as int) =~= vv);
    let ghost q_before = parts_view(q@);
    q.push(SqlPart::Sql(")"));
    assert(parts_view(q@) =~= q_before.push(SqlPartView::Sql(")"@)));
    assert(parts_view(q@) =~= start + in_list(head@, vv));
}

// ---------------------------------------------------------------------------
// Bound values
// ---------------------------------------------------------------------------

/// An identifier is bound as its text form.
pub open spec fn id_value(id: u128) -> SqlValueView {
    SqlValueView::Text(ulid_text(id))
}

/// `%pattern%`: matches any text that holds `pattern`.
pub open spec fn like_operand(pattern: Seq<char>) -> Seq<char> {
    seq!['%'] + pattern + seq!['%']
}

/// The identifiers as bound values.
pub open spec fn device_id_list(ids: Seq<DeviceId>) -> Seq<SqlValueView> {
    ids.map_values(|d: DeviceId| id_value(d.0))
}

/// The identifiers, each bound as its text form.
fn device_id_values(ids: &Vec<DeviceId>) -> (r: Vec<SqlValue>)
    ensures
        values_view(r@) == device_id_list(ids@),
{
    let mut r: Vec<SqlValue> = Vec::new();
    let mut i: usize = 0;
    while i < ids.len()
        invariant
            i <= ids@.len(),
            values_view(r@) == device_id_list(ids@.take(i as int)),
        decreases ids@.len() - i,
    {
        let t = ulid_to_string(ids[i].0);
        let ghost before = values_view(r@);
        let ghost tv = t@;
        r.push(SqlValue::Text(t));
        proof {
            assert(values_view(r@) =~= before.push(SqlValueView::Text(tv)));
            assert(values_view(r@) =~= device_id_list(ids@.take(i + 1)));
        }
        i = i + 1;
    }
    assert(ids@.take(i as int) =~= ids@);
    r
}


/// The identifiers as bound values.
pub open spec fn reading_id_list(ids: Seq<ReadingId>) -> Seq<SqlValueView> {
    ids.map_values(|d: ReadingId| id_value(d.0))
}

/// The identifiers, each bound as its text form.
fn reading_id_values(ids: &Vec<ReadingId>) -> (r: Vec<SqlValue>)
    ensures
        values_view(r@) == reading_id_list(ids@),
{
    let mut r: Vec<SqlValue> = Vec::new();
    let mut i: usize = 0;
    while i < ids.len()
        invariant
            i <= ids@.len(),
            values_view(r@) == reading_id_list(ids@.take(i as int)),
        decreases ids@.len() - i,
    {
        let t = ulid_to_string(ids[i].0);
        let ghost before = values_view(r@);
        let ghost tv = t@;
        r.push(SqlValue::Text(t));
        proof {
            assert(values_view(r@) =~= before.push(SqlValueView::Text(tv)));
            assert(values_view(r@) =~= reading_id_list(ids@.take(i + 1)));
        }
        i = i + 1;
    }
    assert(ids@.take(i as int) =~= ids@);
    r
}


/// The identifiers as bound values.
pub open spec fn sensor_id_list(ids: Seq<SensorId>) -> Seq<SqlValueView> {
    ids.map_values(|d: SensorId| id_value(d.0))
}

/// The identifiers, each bound as its text form.
fn sensor_id_values(ids: &Vec<SensorId>) -> (r: Vec<SqlValue>)
    ensures
        values_view(r@) == sensor_id_list(ids@),
{
    let mut r: Vec<SqlValue> = Vec::new();
    let mut i: usize = 0;
    while i < ids.len()
        invariant
            i <= ids@.len(),
            values_view(r@) == sensor_id_list(ids@.take(i as int)),
        decreases ids@.len() - i,
    {
        let t = ulid_to_string(ids[i].0);
        let ghost before = values_view(r@);
        let ghost tv = t@;
        r.push(SqlValue::Text(t));
        proof {
            assert(values_view(r@) =~= before.push(SqlValueView::Text(tv)));
            assert(values_view(r@) =~= sensor_id_list(ids@.take(i + 1)));
        }
        i = i + 1;
    }
    assert(ids@.take(i as int) =~= ids@);
    r
}


/// The identifiers as bound values.
pub open spec fn dispatcher_id_list(ids: Seq<DispatcherId>) -> Seq<SqlValueView> {
    ids.map_values(|d: DispatcherId| id_value(d.0))
}

/// The identifiers, each bound as its text form.
fn dispatcher_id_values(ids: &Vec<DispatcherId>) -> (r: Vec<SqlValue>)
    ensures
        values_view(r@) == dispatcher_id_list(ids@),
{
    let mut r: Vec<SqlValue> = Vec::new();
    let mut i: usize = 0;
    while i < ids.len()
        invariant
            i <= ids@.len(),
            values_view(r@) == dispatcher_id_list(ids@.take(i as int)),
        decreases ids@.len() - i,
    {
        let t = ulid_to_string(ids[i].0);
        let ghost before = values_view(r@);
        let ghost tv = t@;
        r.push(SqlValue::Text(t));
        proof {
            assert(values_view(r@) =~= before.push(SqlValueView::Text(tv)));
            assert(values_view(r@) =~= dispatcher_id_list(ids@.take(i + 1)));
        }
        i = i + 1;
    }
    assert(ids@.take(i as int) =~= ids@);
    r
}


/// The identifiers as bound values.
pub open spec fn status_id_list(ids: Seq<StatusId>) -> Seq<SqlValueView> {
    ids.map_values(|d: StatusId| id_value(d.0))
}

/// The identifiers, each bound as its text form.
fn status_id_values(ids: &Vec<StatusId>) -> (r: Vec<SqlValue>)
    ensures
        values_view(r@) == status_id_list(ids@),
{
    let mut r: Vec<SqlValue> = Vec::new();
    let mut i: usize = 0;
    while i < ids.len()
        invariant
            i <= ids@.len(),
            values_view(r@) == status_id_list(ids@.take(i as int)),
        decreases ids@.len() - i,
    {
        let t = ulid_to_string(ids[i].0);
        let ghost before = values_view(r@);
        let ghost tv = t@;
        r.push(SqlValue::Text(t));
        proof {
            assert(values_view(r@) =~= before.push(SqlValueView::Text(tv)));
            assert(values_view(r@) =~= status_id_list(ids@.take(i + 1)));
        }
        i = i + 1;
    }
    assert(ids@.take(i as int) =~= ids@);
    r
}


/// The values as bound integers.
pub open spec fn device_state_list(v: Seq<DeviceState>) -> Seq<SqlValueView> {
    v.map_values(|x: DeviceState| SqlValueView::Int(device_state_code(x) as i64))
}

/// Each value bound as its stored integer.
fn device_state_values(v: &Vec<DeviceState>) -> (r: Vec<SqlValue>)
    ensures
        values_view(r@) == device_state_list(v@),
{
    let mut r: Vec<SqlValue> = Vec::new();
    let mut i: usize = 0;
    while i < v.len()
        invariant
            i <= v@.len(),
            values_view(r@) == device_state_list(v@.take(i as int)),
        decreases v@.len() - i,
    {
        let c = encode_device_state(v[i]) as i64;
        let ghost before = values_view(r@);
        r.push(SqlValue::Int(c));
        proof {
            assert(values_view(r@) =~= before.push(SqlValueView::Int(c)));
            assert(values_view(r@) =~= device_state_list(v@.take(i + 1)));
        }
        i = i + 1;
    }
    assert(v@.take(i as int) =~= v@);
    r
}


/// The values as bound integers.
pub open spec fn device_kind_list(v: Seq<DeviceKind>) -> Seq<SqlValueView> {
    v.map_values(|x: DeviceKind| SqlValueView::Int(device_kind_code(x) as i64))
}

/// Each value bound as its stored integer.
fn device_kind_values(v: &Vec<DeviceKind>) -> (r: Vec<SqlValue>)
    ensures
        values_view(r@) == device_kind_list(v@),
{
    let mut r: Vec<SqlValue> = Vec::new();
    let mut i: usize = 0;
    while i < v.len()
        invariant
            i <= v@.len(),
            values_view(r@) == device_kind_list(v@.take(i as int)),
        decreases v@.len() - i,
    {
        let c = encode_device_kind(v[i]) as i64;
        let ghost before = values_view(r@);
        r.push(SqlValue::Int(c));
        proof {
            assert(values_view(r@) =~= before.push(SqlValueView::Int(c)));
            assert(values_view(r@) =~= device_kind_list(v@.take(i + 1)));
        }
        i = i + 1;
    }
    assert(v@.take(i as int) =~= v@);
    r
}


/// The values as bound integers.
pub open spec fn dispatcher_state_list(v: Seq<DispatcherState>) -> Seq<SqlValueView> {
    v.map_values(|x: DispatcherState| SqlValueView::Int(dispatcher_state_code(x) as i64))
}

/// Each value bound as its stored integer.
fn dispatcher_state_values(v: &Vec<DispatcherState>) -> (r: Vec<SqlValue>)
    ensures
        values_view(r@) == dispatcher_state_list(v@),
{
    let mut r: Vec<SqlValue> = Vec::new();
    let mut i: usize = 0;
    while i < v.len()
        invariant
            i <= v@.len(),
            values_view(r@) == dispatcher_state_list(v@.take(i as int)),
        decreases v@.len() - i,
    {
        let c = encode_dispatcher_state(v[i]) as i64;
        let ghost before = values_view(r@);
        r.push(SqlValue::Int(c));
        proof {
            assert(values_view(r@) =~= before.push(SqlValueView::Int(c)));
            assert(values_view(r@) =~= dispatcher_state_list(v@.take(i + 1)));
        }
        i = i + 1;
    }
    assert(v@.take(i as int) =~= v@);
    r
}


/// The values as bound integers.
pub open spec fn metric_type_list(v: Seq<SensorMetricType>) -> Seq<SqlValueView> {
    v.map_values(|x: SensorMetricType| SqlValueView::Int(metric_type_code(x) as i64))
}

/// Each value bound as its stored integer.
fn metric_type_values(v: &Vec<SensorMetricType>) -> (r: Vec<SqlValue>)
    ensures
        values_view(r@) == metric_type_list(v@),
{
    let mut r: Vec<SqlValue> = Vec::new();
    let mut i: usize = 0;
    while i < v.len()
        invariant
            i <= v@.len(),
            values_view(r@) == metric_type_list(v@.take(i as int)),
        decreases v@.len() - i,
    {
        let c = encode_metric_type(v[i]) as i64;
        let ghost before = values_view(r@);
        r.push(SqlValue::Int(c));
        proof {
            assert(values_view(r@) =~= before.push(SqlValueView::Int(c)));
            assert(values_view(r@) =~= metric_type_list(v@.take(i + 1)));
        }
        i = i + 1;
    }
    assert(v@.take(i as int) =~= v@);
    r
}


/// The values as bound integers.
pub open spec fn error_code_list(v: Seq<DeviceErrorCode>) -> Seq<SqlValueView> {
    v.map_values(|x: DeviceErrorCode| SqlValueView::Int(error_code_code(x) as i64))
}

/// Each value bound as its stored integer.
fn error_code_values(v: &Vec<DeviceErrorCode>) -> (r: Vec<SqlValue>)
    ensures
        values_view(r@) == error_code_list(v@),
{
    let mut r: Vec<SqlValue> = Vec::new();
    let mut i: usize = 0;
    while i < v.len()
        invariant
            i <= v@.len(),
            values_view(r@) == error_code_list(v@.take(i as int)),
        decreases v@.len() - i,
    {
        let c = encode_error_code(v[i]) as i64;
        let ghost before = values_view(r@);
        r.push(SqlValue::Int(c));
        proof {
            assert(values_view(r@) =~= before.push(SqlValueView::Int(c)));
            assert(values_view(r@) =~= error_code_list(v@.take(i + 1)));
        }
        i = i + 1;
    }
    assert(v@.take(i as int) =~= v@);
    r
}


/// The values as bound integers.
pub open spec fn location_list(v: Seq<H3Cell>) -> Seq<SqlValueView> {
    v.map_values(|x: H3Cell| SqlValueView::Int(x.0 as i64))
}

/// Each value bound as its stored integer.
fn location_values(v: &Vec<H3Cell>) -> (r: Vec<SqlValue>)
    ensures
        values_view(r@) == location_list(v@),
{
    let mut r: Vec<SqlValue> = Vec::new();
    let mut i: usize = 0;
    while i < v.len()
        invariant
            i <= v@.len(),
            values_view(r@) == location_list(v@.take(i as int)),
        decreases v@.len() - i,
    {
        let c = v[i].0 as i64;
        let ghost before = values_view(r@);
        r.push(SqlValue::Int(c));
        proof {
            assert(values_view(r@) =~= before.push(SqlValueView::Int(c)));
            assert(values_view(r@) =~= location_list(v@.take(i + 1)));
        }
        i = i + 1;
    }
    assert(v@.take(i as int) =~= v@);
    r
}


// ---------------------------------------------------------------------------
// Conditions
// ---------------------------------------------------------------------------

/// `text` followed by one bound integer.
pub open spec fn compare(text: Seq<char>, v: i64) -> Seq<SqlPartView> {
    seq![SqlPartView::Sql(text), SqlPartView::Bind(SqlValueView::Int(v))]
}

/// `text`, a bound integer, ` AND ` and another bound integer.
pub open spec fn between(text: Seq<char>, a: i64, b: i64) -> Seq<SqlPartView> {
    seq![
        SqlPartView::Sql(text),
        SqlPartView::Bind(SqlValueView::Int(a)),
        SqlPartView::Sql(" AND "@),
        SqlPartView::Bind(SqlValueView::Int(b)),
    ]
}

/// The abstract content of a list of conditions.
pub open spec fn cond_views(c: Seq<Vec<SqlPart>>) -> Seq<Seq<SqlPartView>> {
    c.map_values(|x: Vec<SqlPart>| parts_view(x@))
}

fn in_list_part(head: &'static str, vals: Vec<SqlValue>) -> (r: Vec<SqlPart>)
    ensures
        parts_view(r@) == in_list(head@, values_view(vals@)),
{
    let mut q: Vec<SqlPart> = Vec::new();
    push_in_list(&mut q, head, vals);
    assert(parts_view(q@) =~= in_list(head@, values_view(vals@)));
    q
}

fn compare_part(text: &'static str, v: i64) -> (r: Vec<SqlPart>)
    ensures
        parts_view(r@) == compare(text@, v),
{
    let mut q: Vec<SqlPart> = Vec::new();
    q.push(SqlPart::Sql(text));
    q.push(SqlPart::Bind(SqlValue::Int(v)));
    assert(parts_view(q@) =~= compare(text@, v));
    q
}

fn between_part(text: &'static str, a: i64, b: i64) -> (r: Vec<SqlPart>)
    ensures
        parts_view(r@) == between(text@, a, b),
{
    let mut q: Vec<SqlPart> = Vec::new();
    q.push(SqlPart::Sql(text));
    q.push(SqlPart::Bind(SqlValue::Int(a)));
    q.push(SqlPart::Sql(" AND "));
    q.push(SqlPart::Bind(SqlValue::Int(b)));
    assert(parts_view(q@) =~= between(text@, a, b));
    q
}

fn text_part(text: &'static str) -> (r: Vec<SqlPart>)
    ensures
        parts_view(r@) == seq![SqlPartView::Sql(text@)],
{
    let mut q: Vec<SqlPart> = Vec::new();
    q.push(SqlPart::Sql(text));
    assert(parts_view(q@) =~= seq![SqlPartView::Sql(text@)]);
    q
}

fn add_condition(conds: &mut Vec<Vec<SqlPart>>, c: Vec<SqlPart>)
    ensures
        cond_views(final(conds)@) == cond_views(old(conds)@).push(parts_view(c@)),
{
    let ghost cv = parts_view(c@);
    conds.push(c);
    assert(cond_views(conds@) =~= cond_views(old(conds)@).push(cv));
}

/// Appends the conditions to `query`, the first after ` WHERE `, every
/// later one after ` AND `.
pub fn join_conditions(query: Vec<SqlPart>, conds: Vec<Vec<SqlPart>>) -> (r: Vec<SqlPart>)
    ensures
        parts_view(r@) == parts_view(query@) + conjunction(cond_views(conds@)),
{
    let ghost all = cond_views(conds@);
    let ghost start = parts_view(query@);
    let mut q = query;
    let mut conds = conds;
    let mut i: usize = 0;
    let n = conds.len();
    assert(all.take(0) =~= Seq::<Seq<SqlPartView>>::empty());
    assert(parts_view(q@) =~= start + conjunction(all.take(0)));
    while conds.len() > 0
        invariant
            i + conds@.len() == n,
            n == all.len(),
            cond_views(conds@) == all.skip(i as int),
            parts_view(q@) == start + conjunction(all.take(i as int)),
        decreases conds@.len(),
    {
        let ghost before = conds@;
        let c = conds.remove(0);
        let ghost cv = parts_view(c@);
        proof {
            assert(cond_views(before)[0] == all.skip(i as int)[0]);
            assert(cv == all[i as int]);
            assert forall|k: int| 0 <= k < conds@.len() implies #[trigger] cond_views(conds@)[k] == all.skip(
                i + 1,
            )[k] by {
                assert(conds@[k] == before[k + 1]);
                assert(cond_views(before)[k + 1] == all.skip(i as int)[k + 1]);
            }
            assert(cond_views(conds@) =~= all.skip(i + 1));
            lemma_conjunction_push(all.take(i as int), cv);
            assert(all.take(i as int).push(cv) =~= all.take(i + 1));
        }
        let ghost q_before = parts_view(q@);
        push_joiner(&mut q, i == 0);
        let mut c = c;
        let ghost q_mid = q@;
        let ghost c_seq = c@;
        q.append(&mut c);
        proof {
            assert(q@ == q_mid + c_seq);
            assert(parts_view(q@) =~= parts_view(q_mid) + parts_view(c_seq));
            assert(parts_view(q@) =~= q_before + seq![SqlPartView::Sql(joiner(i == 0))] + cv);
        }
        i = i + 1;
    }
    assert(all.take(i as int) =~= all);
    q
}

// ---------------------------------------------------------------------------
// Dispatchers
// ---------------------------------------------------------------------------

/// The conditions a dispatcher filter imposes, in order.
pub open spec fn dispatcher_conditions(f: DispatcherFilterView) -> Seq<Seq<SqlPartView>> {
    let c = Seq::<Seq<SqlPartView>>::empty();
    let c = add_if(c, listed(f.states), in_list("state IN ("@, dispatcher_state_list(list_of(f.states))));
    add_if(c, listed(f.locations), in_list("location IN ("@, location_list(list_of(f.locations))))
}

fn dispatcher_condition_list(filter: &DispatcherFilter) -> (r: Vec<Vec<SqlPart>>)
    ensures
        cond_views(r@) == dispatcher_conditions(filter@),
{
    let ghost f = filter@;
    let mut conds: Vec<Vec<SqlPart>> = Vec::new();
    let ghost mut g = Seq::<Seq<SqlPartView>>::empty();
    assert(cond_views(conds@) =~= g);
    if let Some(v) = &filter.states {
        if v.len() > 0 {
            add_condition(&mut conds, in_list_part("state IN (", dispatcher_state_values(v)));
        }
    }
    proof {
        g = add_if(g, listed(f.states), in_list("state IN ("@, dispatcher_state_list(list_of(f.states))));
    }
    if let Some(v) = &filter.locations {
        if v.len() > 0 {
            add_condition(&mut conds, in_list_part("location IN (", location_values(v)));
        }
    }
    proof {
        g = add_if(g, listed(f.locations), in_list("location IN ("@, location_list(list_of(f.locations))));
    }
    conds
}

/// Appends to `query` the WHERE clause of a dispatcher filter.
pub fn filter_dispatchers(query: Vec<SqlPart>, filter: &DispatcherFilter) -> (r: Vec<SqlPart>)
    ensures
        parts_view(r@) == parts_view(query@) + conjunction(dispatcher_conditions(filter@)),
{
    join_conditions(query, dispatcher_condition_list(filter))
}


// ---------------------------------------------------------------------------
// Devices
// ---------------------------------------------------------------------------

/// The condition that the manufacturer holds `pattern`.
pub open spec fn like_condition(pattern: Seq<char>) -> Seq<SqlPartView> {
    seq![
        SqlPartView::Sql("manufacturer LIKE "@),
        SqlPartView::Bind(SqlValueView::Text(like_operand(pattern))),
    ]
}

fn like_part(pattern: &String) -> (r: Vec<SqlPart>)
    ensures
        parts_view(r@) == like_condition(pattern@),
{
    let mut q: Vec<SqlPart> = Vec::new();
    q.push(SqlPart::Sql("manufacturer LIKE "));
    let operand = concat3("%", pattern.as_str(), "%");
    proof {
        reveal_strlit("%");
        assert(operand@ =~= like_operand(pattern@));
    }
    q.push(SqlPart::Bind(SqlValue::Text(operand)));
    assert(parts_view(q@) =~= like_condition(pattern@));
    q
}

/// The conditions a device filter imposes, in order.
pub open spec fn device_conditions(f: DeviceFilterView) -> Seq<Seq<SqlPartView>> {
    let c = Seq::<Seq<SqlPartView>>::empty();
    let c = add_if(c, listed(f.ids), in_list("id IN ("@, device_id_list(list_of(f.ids))));
    let c = add_if(c, listed(f.states), in_list("state IN ("@, device_state_list(list_of(f.states))));
    let c = add_if(c, listed(f.kinds), in_list("kind IN ("@, device_kind_list(list_of(f.kinds))));
    let c = add_if(c, listed(f.locations), in_list("location IN ("@, location_list(list_of(f.locations))));
    let c = match f.provisioned_after { Some(t) => c.push(compare("provisioned_at >= "@, t.second)), None => c };
    let c = match f.provisioned_before { Some(t) => c.push(compare("provisioned_at <= "@, t.second)), None => c };
    let c = match f.sensor_count { Some(r) => c.push(between(" sensor_count BETWEEN "@, r.start as i64, r.end as i64)), None => c };
    match f.manufacturer_pattern { Some(p) => c.push(like_condition(p)), None => c }
}

fn device_condition_list(filter: &DeviceFilter) -> (r: Vec<Vec<SqlPart>>)
    ensures
        cond_views(r@) == device_conditions(filter@),
{
    let ghost f = filter@;
    let mut conds: Vec<Vec<SqlPart>> = Vec::new();
    let ghost mut g = Seq::<Seq<SqlPartView>>::empty();
    assert(cond_views(conds@) =~= g);
    if let Some(v) = &filter.ids {
        if v.len() > 0 {
            add_condition(&mut conds, in_list_part("id IN (", device_id_values(v)));
        }
    }
    proof {
        g = add_if(g, listed(f.ids), in_list("id IN ("@, device_id_list(list_of(f.ids))));
    }
    if let Some(v) = &filter.states {
        if v.len() > 0 {
            add_condition(&mut conds, in_list_part("state IN (", device_state_values(v)));
        }
    }
    proof {
        g = add_if(g, listed(f.states), in_list("state IN ("@, device_state_list(list_of(f.states))));
    }
    if let Some(v) = &filter.kinds {
        if v.len() > 0 {
            add_condition(&mut conds, in_list_part("kind IN (", device_kind_values(v)));
        }
    }
    proof {
        g = add_if(g, listed(f.kinds), in_list("kind IN ("@, device_kind_list(list_of(f.kinds))));
    }
    if let Some(v) = &filter.locations {
        if v.len() > 0 {
            add_condition(&mut conds, in_list_part("location IN (", location_values(v)));
        }
    }
    proof {
        g = add_if(g, listed(f.locations), in_list("location IN ("@, location_list(list_of(f.locations))));
    }
    if let Some(t) = &filter.provisioned_after {
        add_condition(&mut conds, compare_part("provisioned_at >= ", t.as_second()));
    }
    proof {
        g = match f.provisioned_after { Some(t) => g.push(compare("provisioned_at >= "@, t.second)), None => g };
    }
    if let Some(t) = &filter.provisioned_before {
        add_condition(&mut conds, compare_part("provisioned_at <= ", t.as_second()));
    }
    proof {
        g = match f.provisioned_before { Some(t) => g.push(compare("provisioned_at <= "@, t.second)), None => g };
    }
    if let Some(r) = &filter.sensor_count {
        let a = range_start(r) as i64;
        let b = range_end(r) as i64;
        add_condition(&mut conds, between_part(" sensor_count BETWEEN ", a, b));
    }
    proof {
        g = match f.sensor_count { Some(r) => g.push(between(" sensor_count BETWEEN "@, r.start as i64, r.end as i64)), None => g };
    }
    if let Some(p) = &filter.manufacturer_pattern {
        add_condition(&mut conds, like_part(p));
    }
    proof {
        g = match f.manufacturer_pattern { Some(p) => g.push(like_condition(p)), None => g };
    }
    conds
}

/// Appends to `query` the WHERE clause of a device filter.
pub fn filter_devices(query: Vec<SqlPart>, filter: &DeviceFilter) -> (r: Vec<SqlPart>)
    ensures
        parts_view(r@) == parts_view(query@) + conjunction(device_conditions(filter@)),
{
    join_conditions(query, device_condition_list(filter))
}

// ---------------------------------------------------------------------------
// Readings
// ---------------------------------------------------------------------------

/// The conditions a reading filter imposes, in order.
pub open spec fn reading_conditions(f: ReadingFilterView) -> Seq<Seq<SqlPartView>> {
    let c = Seq::<Seq<SqlPartView>>::empty();
    let c = add_if(c, listed(f.ids), in_list("id IN ("@, reading_id_list(list_of(f.ids))));
    let c = add_if(c, listed(f.device_ids), in_list("device_id IN ("@, device_id_list(list_of(f.device_ids))));
    let c = add_if(c, listed(f.sensor_ids), in_list("sensor_id IN ("@, sensor_id_list(list_of(f.sensor_ids))));
    let c = add_if(c, listed(f.dispatcher_ids), in_list("dispatcher_id IN ("@, dispatcher_id_list(list_of(f.dispatcher_ids))));
    let c = add_if(c, listed(f.metric_types), in_list("metric_type IN ("@, metric_type_list(list_of(f.metric_types))));
    let c = add_if(c, listed(f.locations), in_list("location IN ("@, location_list(list_of(f.locations))));
    let c = match f.timestamp_after { Some(t) => c.push(compare("timestamp >= "@, t.second)), None => c };
    let c = match f.timestamp_before { Some(t) => c.push(compare("timestamp <= "@, t.second)), None => c };
    match f.confidence_range { Some(r) => c.push(between("confidence BETWEEN "@, r.start as i64, r.end as i64)), None => c }
}

fn reading_condition_list(filter: &ReadingFilter) -> (r: Vec<Vec<SqlPart>>)
    ensures
        cond_views(r@) == reading_conditions(filter@),
{
    let ghost f = filter@;
    let mut conds: Vec<Vec<SqlPart>> = Vec::new();
    let ghost mut g = Seq::<Seq<SqlPartView>>::empty();
    assert(cond_views(conds@) =~= g);
    if let Some(v) = &filter.ids {
        if v.len() > 0 {
            add_condition(&mut conds, in_list_part("id IN (", reading_id_values(v)));
        }
    }
    proof {
        g = add_if(g, listed(f.ids), in_list("id IN ("@, reading_id_list(list_of(f.ids))));
    }
    if let Some(v) = &filter.device_ids {
        if v.len() > 0 {
            add_condition(&mut conds, in_list_part("device_id IN (", device_id_values(v)));
        }
    }
    proof {
        g = add_if(g, listed(f.device_ids), in_list("device_id IN ("@, device_id_list(list_of(f.device_ids))));
    }
    if let Some(v) = &filter.sensor_ids {
        if v.len() > 0 {
            add_condition(&mut conds, in_list_part("sensor_id IN (", sensor_id_values(v)));
        }
    }
    proof {
        g = add_if(g, listed(f.sensor_ids), in_list("sensor_id IN ("@, sensor_id_list(list_of(f.sensor_ids))));
    }
    if let Some(v) = &filter.dispatcher_ids {
        if v.len() > 0 {
            add_condition(&mut conds, in_list_part("dispatcher_id IN (", dispatcher_id_values(v)));
        }
    }
    proof {
        g = add_if(g, listed(f.dispatcher_ids), in_list("dispatcher_id IN ("@, dispatcher_id_list(list_of(f.dispatcher_ids))));
    }
    if let Some(v) = &filter.metric_types {
        if v.len() > 0 {
            add_condition(&mut conds, in_list_part("metric_type IN (", metric_type_values(v)));
        }
    }
    proof {
        g = add_if(g, listed(f.metric_types), in_list("metric_type IN ("@, metric_type_list(list_of(f.metric_types))));
    }
    if let Some(v) = &filter.locations {
        if v.len() > 0 {
            add_condition(&mut conds, in_list_part("location IN (", location_values(v)));
        }
    }
    proof {
        g = add_if(g, listed(f.locations), in_list("location IN ("@, location_list(list_of(f.locations))));
    }
    if let Some(t) = &filter.timestamp_after {
        add_condition(&mut conds, compare_part("timestamp >= ", t.as_second()));
    }
    proof {
        g = match f.timestamp_after { Some(t) => g.push(compare("timestamp >= "@, t.second)), None => g };
    }
    if let Some(t) = &filter.timestamp_before {
        add_condition(&mut conds, compare_part("timestamp <= ", t.as_second()));
    }
    proof {
        g = match f.timestamp_before { Some(t) => g.push(compare("timestamp <= "@, t.second)), None => g };
    }
    if let Some(r) = &filter.confidence_range {
        let a = range_start(r) as i64;
        let b = range_end(r) as i64;
        add_condition(&mut conds, between_part("confidence BETWEEN ", a, b));
    }
    proof {
        g = match f.confidence_range { Some(r) => g.push(between("confidence BETWEEN "@, r.start as i64, r.end as i64)), None => g };
    }
    conds
}

/// Appends to `query` the WHERE clause of a reading filter.
pub fn filter_readings(query: Vec<SqlPart>, filter: &ReadingFilter) -> (r: Vec<SqlPart>)
    ensures
        parts_view(r@) == parts_view(query@) + conjunction(reading_conditions(filter@)),
{
    join_conditions(query, reading_condition_list(filter))
}

// ---------------------------------------------------------------------------
// Device statuses
// ---------------------------------------------------------------------------

/// The condition on whether a status carries errors.
pub open spec fn error_presence(has_errors: bool) -> Seq<SqlPartView> {
    if has_errors {
        seq![SqlPartView::Sql("device_status_errors.id IS NOT NULL"@)]
    } else {
        seq![SqlPartView::Sql("device_status_errors.id IS NULL"@)]
    }
}

/// Whether the filter looks at the errors of a status, so that the error
/// table must be joined in.
pub open spec fn needs_error_join(f: DeviceStatusFilterView) -> bool {
    f.has_errors is Some || listed(f.error_codes)
}

/// What joins the error table in.
pub open spec fn error_join() -> Seq<SqlPartView> {
    seq![SqlPartView::Sql(" LEFT JOIN device_status_errors ON device_statuses.id = device_status_errors.status_id "@)]
}

/// The conditions a device status filter imposes, in order.
pub open spec fn status_conditions(f: DeviceStatusFilterView) -> Seq<Seq<SqlPartView>> {
    let c = Seq::<Seq<SqlPartView>>::empty();
    let c = add_if(c, listed(f.ids), in_list("device_statuses.id IN ("@, status_id_list(list_of(f.ids))));
    let c = add_if(c, listed(f.device_ids), in_list("device_id IN ("@, device_id_list(list_of(f.device_ids))));
    let c = add_if(c, listed(f.dispatcher_ids), in_list("dispatcher_id IN ("@, dispatcher_id_list(list_of(f.dispatcher_ids))));
    let c = match f.timestamp_after { Some(t) => c.push(compare("timestamp >= "@, t.second)), None => c };
    let c = match f.timestamp_before { Some(t) => c.push(compare("timestamp <= "@, t.second)), None => c };
    let c = match f.battery_range { Some(r) => c.push(between("battery_percent BETWEEN "@, r.start as i64, r.end as i64)), None => c };
    let c = match f.has_errors { Some(b) => c.push(error_presence(b)), None => c };
    add_if(c, listed(f.error_codes), in_list("device_status_errors.error_code IN ("@, error_code_list(list_of(f.error_codes))))
}

fn status_condition_list(filter: &DeviceStatusFilter) -> (r: Vec<Vec<SqlPart>>)
    ensures
        cond_views(r@) == status_conditions(filter@),
{
    let ghost f = filter@;
    let mut conds: Vec<Vec<SqlPart>> = Vec::new();
    let ghost mut g = Seq::<Seq<SqlPartView>>::empty();
    assert(cond_views(conds@) =~= g);
    if let Some(v) = &filter.ids {
        if v.len() > 0 {
            add_condition(&mut conds, in_list_part("device_statuses.id IN (", status_id_values(v)));
        }
    }
    proof {
        g = add_if(g, listed(f.ids), in_list("device_statuses.id IN ("@, status_id_list(list_of(f.ids))));
    }
    if let Some(v) = &filter.device_ids {
        if v.len() > 0 {
            add_condition(&mut conds, in_list_part("device_id IN (", device_id_values(v)));
        }
    }
    proof {
        g = add_if(g, listed(f.device_ids), in_list("device_id IN ("@, device_id_list(list_of(f.device_ids))));
    }
    if let Some(v) = &filter.dispatcher_ids {
        if v.len() > 0 {
            add_condition(&mut conds, in_list_part("dispatcher_id IN (", dispatcher_id_values(v)));
        }
    }
    proof {
        g = add_if(g, listed(f.dispatcher_ids), in_list("dispatcher_id IN ("@, dispatcher_id_list(list_of(f.dispatcher_ids))));
    }
    if let Some(t) = &filter.timestamp_after {
        add_condition(&mut conds, compare_part("timestamp >= ", t.as_second()));
    }
    proof {
        g = match f.timestamp_after { Some(t) => g.push(compare("timestamp >= "@, t.second)), None => g };
    }
    if let Some(t) = &filter.timestamp_before {
        add_condition(&mut conds, compare_part("timestamp <= ", t.as_second()));
    }
    proof {
        g = match f.timestamp_before { Some(t) => g.push(compare("timestamp <= "@, t.second)), None => g };
    }
    if let Some(r) = &filter.battery_range {
        let a = range_start(r) as i64;
        let b = range_end(r) as i64;
        add_condition(&mut conds, between_part("battery_percent BETWEEN ", a, b));
    }
    proof {
        g = match f.battery_range { Some(r) => g.push(between("battery_percent BETWEEN "@, r.start as i64, r.end as i64)), None => g };
    }
    if let Some(b) = filter.has_errors {
        if b {
            add_condition(&mut conds, text_part("device_status_errors.id IS NOT NULL"));
        } else {
            add_condition(&mut conds, text_part("device_status_errors.id IS NULL"));
        }
    }
    proof {
        g = match f.has_errors { Some(b) => g.push(error_presence(b)), None => g };
    }
    if let Some(v) = &filter.error_codes {
        if v.len() > 0 {
            add_condition(&mut conds, in_list_part("device_status_errors.error_code IN (", error_code_values(v)));
        }
    }
    proof {
        g = add_if(g, listed(f.error_codes), in_list("device_status_errors.error_code IN ("@, error_code_list(list_of(f.error_codes))));
    }
    conds
}

/// Appends to `query` the join of the error table where the filter needs
/// it, then the WHERE clause of a device status filter.
pub fn filter_statuses(query: Vec<SqlPart>, filter: &DeviceStatusFilter) -> (r: Vec<SqlPart>)
    ensures
        parts_view(r@) == parts_view(query@) + (if needs_error_join(filter@) {
            error_join()
        } else {
            Seq::empty()
        }) + conjunction(status_conditions(filter@)),
{
    let ghost start = parts_view(query@);
    let mut q = query;
    let needs_join = match &filter.error_codes {
        Some(codes) => filter.has_errors.is_some() || codes.len() > 0,
        None => filter.has_errors.is_some(),
    };
    if needs_join {
        q.push(SqlPart::Sql(
            " LEFT JOIN device_status_errors ON device_statuses.id = device_status_errors.status_id ",
        ));
        assert(parts_view(q@) =~= start + error_join());
    } else {
        assert(parts_view(q@) =~= start + Seq::<SqlPartView>::empty());
    }
    let ghost mid = parts_view(q@);
    let r = join_conditions(q, status_condition_list(filter));
    assert(parts_view(r@) =~= start + (if needs_error_join(filter@) {
        error_join()
    } else {
        Seq::empty()
    }) + conjunction(status_conditions(filter@)));
    r
}


// ---------------------------------------------------------------------------
// Whole statements
// ---------------------------------------------------------------------------

/// The direction keyword of a sort order.
pub open spec fn order_text(o: SortOrder) -> Seq<char> {
    match o {
        SortOrder::Asc => " ASC "@,
        SortOrder::Desc => " DESC "@,
    }
}

/// The LIMIT (and, for offset pages, OFFSET) of a page; a cursor page is
/// limited only.
pub open spec fn page_parts(p: Pagination) -> Seq<SqlPartView> {
    match p {
        Pagination::Offset { offset, limit } => seq![
            SqlPartView::Sql(" LIMIT "@),
            SqlPartView::Bind(SqlValueView::Int(limit as i64)),
            SqlPartView::Sql(" OFFSET "@),
            SqlPartView::Bind(SqlValueView::Int(offset as i64)),
        ],
        Pagination::Cursor { limit, .. } => seq![
            SqlPartView::Sql(" LIMIT "@),
            SqlPartView::Bind(SqlValueView::Int(limit as i64)),
        ],
    }
}

fn order_part(o: SortOrder) -> (r: &'static str)
    ensures
        r@ == order_text(o),
{
    match o {
        SortOrder::Asc => " ASC ",
        SortOrder::Desc => " DESC ",
    }
}

fn push_text(q: &mut Vec<SqlPart>, text: &'static str)
    ensures
        parts_view(final(q)@) == parts_view(old(q)@).push(SqlPartView::Sql(text@)),
{
    q.push(SqlPart::Sql(text));
    assert(parts_view(q@) =~= parts_view(old(q)@).push(SqlPartView::Sql(text@)));
}

fn push_page(q: &mut Vec<SqlPart>, p: Pagination)
    ensures
        parts_view(final(q)@) == parts_view(old(q)@) + page_parts(p),
{
    match p {
        Pagination::Offset { offset, limit } => {
            q.push(SqlPart::Sql(" LIMIT "));
            q.push(SqlPart::Bind(SqlValue::Int(limit as i64)));
            q.push(SqlPart::Sql(" OFFSET "));
            q.push(SqlPart::Bind(SqlValue::Int(offset as i64)));
        },
        Pagination::Cursor { limit, .. } => {
            q.push(SqlPart::Sql(" LIMIT "));
            q.push(SqlPart::Bind(SqlValue::Int(limit as i64)));
        },
    }
    assert(parts_view(q@) =~= parts_view(old(q)@) + page_parts(p));
}

fn statement(text: &'static str) -> (r: Vec<SqlPart>)
    ensures
        parts_view(r@) == seq![SqlPartView::Sql(text@)],
{
    text_part(text)
}

/// The column a device listing is ordered by.
pub open spec fn device_sort_text(s: DeviceSortBy) -> Seq<char> {
    match s {
        DeviceSortBy::State => " ORDER BY state"@,
        DeviceSortBy::Manufacturer => " ORDER BY manufacturer"@,
        DeviceSortBy::ProvisionAt => " ORDER BY provisioned_at "@,
        DeviceSortBy::SensorCount => " ORDER BY sensor_count"@,
    }
}

/// The statement that counts the devices a filter selects (all of them
/// without one).
pub fn device_count_statement(filter: &Option<DeviceFilter>) -> (r: Vec<SqlPart>)
    ensures
        parts_view(r@) == seq![SqlPartView::Sql("SELECT COUNT(*) FROM devices "@)] + match filter {
            Some(f) => conjunction(device_conditions(f@)),
            None => Seq::empty(),
        },
{
    let q = statement("SELECT COUNT(*) FROM devices ");
    match filter {
        Some(f) => filter_devices(q, f),
        None => {
            assert(parts_view(q@) =~= parts_view(q@) + Seq::<SqlPartView>::empty());
            q
        },
    }
}

/// The statement that lists devices: filtered, ordered and paged.
pub fn device_list_statement(options: &QueryOptions<DeviceFilter, DeviceSortBy>) -> (r: Vec<SqlPart>)
    ensures
        parts_view(r@) == seq![
            SqlPartView::Sql(
                "SELECT id, kind, state, location, manufacturer, provisioned_at, sensor_count FROM devices "@,
            ),
        ] + conjunction(device_conditions(options.filter@)) + seq![
            SqlPartView::Sql(device_sort_text(options.sort_by)),
            SqlPartView::Sql(order_text(options.sort_order)),
        ] + page_parts(options.pagination),
{
    let q = statement(
        "SELECT id, kind, state, location, manufacturer, provisioned_at, sensor_count FROM devices ",
    );
    let mut q = filter_devices(q, &options.filter);
    let sort: &'static str = match options.sort_by {
        DeviceSortBy::State => " ORDER BY state",
        DeviceSortBy::Manufacturer => " ORDER BY manufacturer",
        DeviceSortBy::ProvisionAt => " ORDER BY provisioned_at ",
        DeviceSortBy::SensorCount => " ORDER BY sensor_count",
    };
    push_text(&mut q, sort);
    push_text(&mut q, order_part(options.sort_order));
    push_page(&mut q, options.pagination);
    q
}

/// Texts as bound values.
pub open spec fn text_list(ts: Seq<String>) -> Seq<SqlValueView> {
    ts.map_values(|t: String| SqlValueView::Text(t@))
}

/// The statement that fetches the sensors of the devices with these ids
/// (as their rows hold them).
pub fn sensors_of_devices_statement(device_ids: Vec<String>) -> (r: Vec<SqlPart>)
    ensures
        parts_view(r@) == in_list(
            "SELECT id, kind, metric_type, metric_value, device_id FROM sensors WHERE device_id IN ("@,
            text_list(device_ids@),
        ),
{
    let ghost expected = text_list(device_ids@);
    let mut vals: Vec<SqlValue> = Vec::new();
    let mut ids = device_ids;
    let n = ids.len();
    let mut i: usize = 0;
    while ids.len() > 0
        invariant
            i + ids@.len() == n,
            n == expected.len(),
            text_list(ids@) == expected.skip(i as int),
            values_view(vals@) == expected.take(i as int),
        decreases ids@.len(),
    {
        let ghost before = ids@;
        let t = ids.remove(0);
        proof {
            assert(text_list(before)[0] == expected.skip(i as int)[0]);
            assert forall|k: int| 0 <= k < ids@.len() implies #[trigger] text_list(ids@)[k] == expected.skip(i + 1)[k] by {
                assert(ids@[k] == before[k + 1]);
                assert(text_list(before)[k + 1] == expected.skip(
                    i as int,
                )[k + 1]);
            }
            assert(text_list(ids@) =~= expected.skip(i + 1));
        }
        let ghost tv = t@;
        let ghost vb = values_view(vals@);
        vals.push(SqlValue::Text(t));
        proof {
            assert(values_view(vals@) =~= vb.push(SqlValueView::Text(tv)));
            assert(expected[i as int] == SqlValueView::Text(tv));
            assert(values_view(vals@) =~= expected.take(i + 1));
        }
        i = i + 1;
    }
    assert(expected.take(i as int) =~= expected);
    in_list_part("SELECT id, kind, metric_type, metric_value, device_id FROM sensors WHERE device_id IN (", vals)
}

/// The statement that counts the dispatchers a filter selects (all of them
/// without one).
pub fn dispatcher_count_statement(filter: &Option<DispatcherFilter>) -> (r: Vec<SqlPart>)
    ensures
        parts_view(r@) == seq![SqlPartView::Sql("SELECT COUNT(*) FROM dispatchers "@)] + match filter {
            Some(f) => conjunction(dispatcher_conditions(f@)),
            None => Seq::empty(),
        },
{
    let q = statement("SELECT COUNT(*) FROM dispatchers ");
    match filter {
        Some(f) => filter_dispatchers(q, f),
        None => {
            assert(parts_view(q@) =~= parts_view(q@) + Seq::<SqlPartView>::empty());
            q
        },
    }
}

/// The statement that lists dispatchers: filtered, ordered and, for an
/// offset page, paged (a cursor page is not limited here).
pub fn dispatcher_list_statement(options: &QueryOptions<DispatcherFilter, DispatcherSortBy>) -> (r: Vec<
    SqlPart,
>)
    ensures
        parts_view(r@) == seq![SqlPartView::Sql("SELECT id, state, location, provisioned_at FROM dispatchers"@)]
            + conjunction(dispatcher_conditions(options.filter@)) + seq![
            SqlPartView::Sql(" ORDER BY provisioned_at"@),
            SqlPartView::Sql(order_text(options.sort_order)),
        ] + match options.pagination {
            Pagination::Offset { .. } => page_parts(options.pagination),
            Pagination::Cursor { .. } => Seq::empty(),
        },
{
    let q = statement("SELECT id, state, location, provisioned_at FROM dispatchers");
    let mut q = filter_dispatchers(q, &options.filter);
    match options.sort_by {
        DispatcherSortBy::ProvisionAt => push_text(&mut q, " ORDER BY provisioned_at"),
    }
    push_text(&mut q, order_part(options.sort_order));
    match options.pagination {
        Pagination::Offset { .. } => push_page(&mut q, options.pagination),
        Pagination::Cursor { .. } => {
            assert(parts_view(q@) =~= parts_view(q@) + Seq::<SqlPartView>::empty());
        },
    }
    q
}

/// The column a reading listing is ordered by.
pub open spec fn reading_sort_text(s: ReadingSortBy) -> Seq<char> {
    match s {
        ReadingSortBy::Timestamp => " ORDER BY timestamp"@,
        ReadingSortBy::Confidence => " ORDER BY confidence"@,
        ReadingSortBy::DeviceId => " ORDER BY device_id"@,
    }
}

/// The statement that counts the readings a filter selects (all of them
/// without one).
pub fn reading_count_statement(filter: &Option<ReadingFilter>) -> (r: Vec<SqlPart>)
    ensures
        parts_view(r@) == seq![SqlPartView::Sql("SELECT COUNT(*) FROM readings "@)] + match filter {
            Some(f) => conjunction(reading_conditions(f@)),
            None => Seq::empty(),
        },
{
    let q = statement("SELECT COUNT(*) FROM readings ");
    match filter {
        Some(f) => filter_readings(q, f),
        None => {
            assert(parts_view(q@) =~= parts_view(q@) + Seq::<SqlPartView>::empty());
            q
        },
    }
}

/// The statement that lists readings: filtered, ordered and paged.
pub fn reading_list_statement(options: &QueryOptions<ReadingFilter, ReadingSortBy>) -> (r: Vec<SqlPart>)
    ensures
        parts_view(r@) == seq![
            SqlPartView::Sql(
                "SELECT id, device_id, dispatcher_id, sensor_id, metric_type, metric_value, location, confidence, timestamp FROM readings "@,
            ),
        ] + conjunction(reading_conditions(options.filter@)) + seq![
            SqlPartView::Sql(reading_sort_text(options.sort_by)),
            SqlPartView::Sql(order_text(options.sort_order)),
        ] + page_parts(options.pagination),
{
    let q = statement(
        "SELECT id, device_id, dispatcher_id, sensor_id, metric_type, metric_value, location, confidence, timestamp FROM readings ",
    );
    let mut q = filter_readings(q, &options.filter);
    let sort: &'static str = match options.sort_by {
        ReadingSortBy::Timestamp => " ORDER BY timestamp",
        ReadingSortBy::Confidence => " ORDER BY confidence",
        ReadingSortBy::DeviceId => " ORDER BY device_id",
    };
    push_text(&mut q, sort);
    push_text(&mut q, order_part(options.sort_order));
    push_page(&mut q, options.pagination);
    q
}

/// The column a status listing is ordered by.
pub open spec fn status_sort_text(s: DeviceStatusSortBy) -> Seq<char> {
    match s {
        DeviceStatusSortBy::Timestamp => " ORDER BY timestamp"@,
        DeviceStatusSortBy::BatteryPercent => " ORDER BY battery_percent"@,
        DeviceStatusSortBy::DeviceId => " ORDER BY device_id"@,
    }
}

/// What a status filter adds to a statement: the join of the error table
/// where needed, then its WHERE clause.
pub open spec fn status_filter_parts(f: DeviceStatusFilterView) -> Seq<SqlPartView> {
    (if needs_error_join(f) {
        error_join()
    } else {
        Seq::empty()
    }) + conjunction(status_conditions(f))
}

/// The statement that counts the status reports a filter selects (all of
/// them without one).
pub fn status_count_statement(filter: &Option<DeviceStatusFilter>) -> (r: Vec<SqlPart>)
    ensures
        parts_view(r@) == seq![
            SqlPartView::Sql("SELECT COUNT(DISTINCT device_statuses.id) FROM device_statuses "@),
        ] + match filter {
            Some(f) => status_filter_parts(f@),
            None => Seq::empty(),
        },
{
    let q = statement("SELECT COUNT(DISTINCT device_statuses.id) FROM device_statuses ");
    let ghost start = parts_view(q@);
    match filter {
        Some(f) => {
            let r = filter_statuses(q, f);
            assert(parts_view(r@) =~= start + status_filter_parts(f@));
            r
        },
        None => {
            assert(parts_view(q@) =~= parts_view(q@) + Seq::<SqlPartView>::empty());
            q
        },
    }
}

/// The statement that lists status reports: filtered, ordered and paged.
pub fn status_list_statement(options: &QueryOptions<DeviceStatusFilter, DeviceStatusSortBy>) -> (r: Vec<
    SqlPart,
>)
    ensures
        parts_view(r@) == seq![
            SqlPartView::Sql(
                "SELECT DISTINCT device_statuses.id, device_id, dispatcher_id, battery_percent, uptime_seconds, signal_rssi, timestamp FROM device_statuses "@,
            ),
        ] + status_filter_parts(options.filter@) + seq![
            SqlPartView::Sql(status_sort_text(options.sort_by)),
            SqlPartView::Sql(order_text(options.sort_order)),
        ] + page_parts(options.pagination),
{
    let q = statement(
        "SELECT DISTINCT device_statuses.id, device_id, dispatcher_id, battery_percent, uptime_seconds, signal_rssi, timestamp FROM device_statuses ",
    );
    let ghost start = parts_view(q@);
    let mut q = filter_statuses(q, &options.filter);
    assert(parts_view(q@) =~= start + status_filter_parts(options.filter@));
    let sort: &'static str = match options.sort_by {
        DeviceStatusSortBy::Timestamp => " ORDER BY timestamp",
        DeviceStatusSortBy::BatteryPercent => " ORDER BY battery_percent",
        DeviceStatusSortBy::DeviceId => " ORDER BY device_id",
    };
    push_text(&mut q, sort);
    push_text(&mut q, order_part(options.sort_order));
    push_page(&mut q, options.pagination);
    q
}

// ---------------------------------------------------------------------------
// Laws of the filters
// ---------------------------------------------------------------------------

/// One for a field that is set, zero otherwise.
pub open spec fn one_if(b: bool) -> int {
    if b {
        1
    } else {
        0
    }
}

/// A parameter list condition: `head`, the bound values separated by
/// `, `, and a closing bracket.
pub open spec fn listing_condition(head: Seq<char>, vals: Seq<SqlValueView>) -> Seq<SqlPartView> {
    seq![SqlPartView::Sql(head)] + bind_list(vals) + seq![SqlPartView::Sql(")"@)]
}

/// A reading filter's statement has one condition for each field that is
/// set and no other: readings taken at or after `timestamp_after` (its
/// second bound after `timestamp >= `), at or before `timestamp_before`
/// (`timestamp <= `), with a confidence in the range (`confidence BETWEEN`
/// its ends), and with an id, device, sensor, dispatcher, metric type or
/// location among those listed.
pub proof fn law_reading_filter_conditions(f: ReadingFilterView)
    ensures
        reading_conditions(f).len() == one_if(listed(f.ids)) + one_if(listed(f.device_ids)) + one_if(
            listed(f.sensor_ids),
        ) + one_if(listed(f.dispatcher_ids)) + one_if(listed(f.metric_types)) + one_if(listed(f.locations))
            + one_if(f.timestamp_after is Some) + one_if(f.timestamp_before is Some) + one_if(
            f.confidence_range is Some,
        ),
        f.timestamp_after matches Some(t) ==> reading_conditions(f).contains(
            seq![SqlPartView::Sql("timestamp >= "@), SqlPartView::Bind(SqlValueView::Int(t.second))],
        ),
        f.timestamp_before matches Some(t) ==> reading_conditions(f).contains(
            seq![SqlPartView::Sql("timestamp <= "@), SqlPartView::Bind(SqlValueView::Int(t.second))],
        ),
        f.confidence_range matches Some(r) ==> reading_conditions(f).contains(
            seq![
                SqlPartView::Sql("confidence BETWEEN "@),
                SqlPartView::Bind(SqlValueView::Int(r.start as i64)),
                SqlPartView::Sql(" AND "@),
                SqlPartView::Bind(SqlValueView::Int(r.end as i64)),
            ],
        ),
        listed(f.ids) ==> reading_conditions(f).contains(
            listing_condition("id IN ("@, reading_id_list(list_of(f.ids))),
        ),
        listed(f.device_ids) ==> reading_conditions(f).contains(
            listing_condition("device_id IN ("@, device_id_list(list_of(f.device_ids))),
        ),
        listed(f.sensor_ids) ==> reading_conditions(f).contains(
            listing_condition("sensor_id IN ("@, sensor_id_list(list_of(f.sensor_ids))),
        ),
        listed(f.dispatcher_ids) ==> reading_conditions(f).contains(
            listing_condition("dispatcher_id IN ("@, dispatcher_id_list(list_of(f.dispatcher_ids))),
        ),
        listed(f.metric_types) ==> reading_conditions(f).contains(
            listing_condition("metric_type IN ("@, metric_type_list(list_of(f.metric_types))),
        ),
        listed(f.locations) ==> reading_conditions(f).contains(
            listing_condition("location IN ("@, location_list(list_of(f.locations))),
        ),
{
    broadcast use vstd::seq_lib::group_seq_properties;
}

/// A device filter's statement has one condition for each field that is
/// set and no other: devices provisioned at or after `provisioned_after`
/// (`provisioned_at >= `), at or before `provisioned_before`
/// (`provisioned_at <= `), with a sensor count in the range, a
/// manufacturer holding the pattern (`LIKE` the pattern between `%`), and
/// an id, state, kind or location among those listed.
pub proof fn law_device_filter_conditions(f: DeviceFilterView)
    ensures
        device_conditions(f).len() == one_if(listed(f.ids)) + one_if(listed(f.states)) + one_if(
            listed(f.kinds),
        ) + one_if(listed(f.locations)) + one_if(f.provisioned_after is Some) + one_if(
            f.provisioned_before is Some,
        ) + one_if(f.sensor_count is Some) + one_if(f.manufacturer_pattern is Some),
        f.provisioned_after matches Some(t) ==> device_conditions(f).contains(
            seq![SqlPartView::Sql("provisioned_at >= "@), SqlPartView::Bind(SqlValueView::Int(t.second))],
        ),
        f.provisioned_before matches Some(t) ==> device_conditions(f).contains(
            seq![SqlPartView::Sql("provisioned_at <= "@), SqlPartView::Bind(SqlValueView::Int(t.second))],
        ),
        f.sensor_count matches Some(r) ==> device_conditions(f).contains(
            seq![
                SqlPartView::Sql(" sensor_count BETWEEN "@),
                SqlPartView::Bind(SqlValueView::Int(r.start as i64)),
                SqlPartView::Sql(" AND "@),
                SqlPartView::Bind(SqlValueView::Int(r.end as i64)),
            ],
        ),
        f.manufacturer_pattern matches Some(p) ==> device_conditions(f).contains(
            seq![
                SqlPartView::Sql("manufacturer LIKE "@),
                SqlPartView::Bind(SqlValueView::Text(seq!['%'] + p + seq!['%'])),
            ],
        ),
        listed(f.ids) ==> device_conditions(f).contains(
            listing_condition("id IN ("@, device_id_list(list_of(f.ids))),
        ),
        listed(f.states) ==> device_conditions(f).contains(
            listing_condition("state IN ("@, device_state_list(list_of(f.states))),
        ),
        listed(f.kinds) ==> device_conditions(f).contains(
            listing_condition("kind IN ("@, device_kind_list(list_of(f.kinds))),
        ),
        listed(f.locations) ==> device_conditions(f).contains(
            listing_condition("location IN ("@, location_list(list_of(f.locations))),
        ),
{
    broadcast use vstd::seq_lib::group_seq_properties;
}

/// A dispatcher filter's statement has one condition for each field that
/// is set and no other: a state among those listed, a location among those
/// listed.
pub proof fn law_dispatcher_filter_conditions(f: DispatcherFilterView)
    ensures
        dispatcher_conditions(f).len() == one_if(listed(f.states)) + one_if(listed(f.locations)),
        listed(f.states) ==> dispatcher_conditions(f).contains(
            listing_condition("state IN ("@, dispatcher_state_list(list_of(f.states))),
        ),
        listed(f.locations) ==> dispatcher_conditions(f).contains(
            listing_condition("location IN ("@, location_list(list_of(f.locations))),
        ),
{
    broadcast use vstd::seq_lib::group_seq_properties;
}

/// A status filter's statement has one condition for each field that is
/// set and no other: statuses taken at or after `timestamp_after`
/// (`timestamp >= `), at or before `timestamp_before` (`timestamp <= `),
/// with a battery level in the range, with or without errors as asked, and
/// with an id, device, dispatcher or error code among those listed.
pub proof fn law_status_filter_conditions(f: DeviceStatusFilterView)
    ensures
        status_conditions(f).len() == one_if(listed(f.ids)) + one_if(listed(f.device_ids)) + one_if(
            listed(f.dispatcher_ids),
        ) + one_if(f.timestamp_after is Some) + one_if(f.timestamp_before is Some) + one_if(
            f.battery_range is Some,
        ) + one_if(f.has_errors is Some) + one_if(listed(f.error_codes)),
        f.timestamp_after matches Some(t) ==> status_conditions(f).contains(
            seq![SqlPartView::Sql("timestamp >= "@), SqlPartView::Bind(SqlValueView::Int(t.second))],
        ),
        f.timestamp_before matches Some(t) ==> status_conditions(f).contains(
            seq![SqlPartView::Sql("timestamp <= "@), SqlPartView::Bind(SqlValueView::Int(t.second))],
        ),
        f.battery_range matches Some(r) ==> status_conditions(f).contains(
            seq![
                SqlPartView::Sql("battery_percent BETWEEN "@),
                SqlPartView::Bind(SqlValueView::Int(r.start as i64)),
                SqlPartView::Sql(" AND "@),
                SqlPartView::Bind(SqlValueView::Int(r.end as i64)),
            ],
        ),
        f.has_errors == Some(true) ==> status_conditions(f).contains(
            seq![SqlPartView::Sql("device_status_errors.id IS NOT NULL"@)],
        ),
        f.has_errors == Some(false) ==> status_conditions(f).contains(
            seq![SqlPartView::Sql("device_status_errors.id IS NULL"@)],
        ),
        listed(f.ids) ==> status_conditions(f).contains(
            listing_condition("device_statuses.id IN ("@, status_id_list(list_of(f.ids))),
        ),
        listed(f.device_ids) ==> status_conditions(f).contains(
            listing_condition("device_id IN ("@, device_id_list(list_of(f.device_ids))),
        ),
        listed(f.dispatcher_ids) ==> status_conditions(f).contains(
            listing_condition("dispatcher_id IN ("@, dispatcher_id_list(list_of(f.dispatcher_ids))),
        ),
        listed(f.error_codes) ==> status_conditions(f).contains(
            listing_condition("device_status_errors.error_code IN ("@, error_code_list(list_of(f.error_codes))),
        ),
{
    broadcast use vstd::seq_lib::group_seq_properties;
}

/// A listing statement ends with its order and page: ascending or
/// descending as asked, at most `limit` rows (bound first), and for an
/// offset page, skipping `offset` rows (bound second); a cursor page is
/// limited only. The sort key names the column of the field asked for.
pub proof fn law_listing_order_and_page(offset: usize, limit: usize, after: Option<u128>)
    ensures
        page_parts(Pagination::Offset { offset, limit }) == seq![
            SqlPartView::Sql(" LIMIT "@),
            SqlPartView::Bind(SqlValueView::Int(limit as i64)),
            SqlPartView::Sql(" OFFSET "@),
            SqlPartView::Bind(SqlValueView::Int(offset as i64)),
        ],
        page_parts(Pagination::Cursor { after, limit }) == seq![
            SqlPartView::Sql(" LIMIT "@),
            SqlPartView::Bind(SqlValueView::Int(limit as i64)),
        ],
        order_text(SortOrder::Asc) == " ASC "@,
        order_text(SortOrder::Desc) == " DESC "@,
        device_sort_text(DeviceSortBy::State) == " ORDER BY state"@,
        device_sort_text(DeviceSortBy::Manufacturer) == " ORDER BY manufacturer"@,
        device_sort_text(DeviceSortBy::ProvisionAt) == " ORDER BY provisioned_at "@,
        device_sort_text(DeviceSortBy::SensorCount) == " ORDER BY sensor_count"@,
        reading_sort_text(ReadingSortBy::Timestamp) == " ORDER BY timestamp"@,
        reading_sort_text(ReadingSortBy::Confidence) == " ORDER BY confidence"@,
        reading_sort_text(ReadingSortBy::DeviceId) == " ORDER BY device_id"@,
        status_sort_text(DeviceStatusSortBy::Timestamp) == " ORDER BY timestamp"@,
        status_sort_text(DeviceStatusSortBy::BatteryPercent) == " ORDER BY battery_percent"@,
        status_sort_text(DeviceStatusSortBy::DeviceId) == " ORDER BY device_id"@,
{
}

} // verus!
