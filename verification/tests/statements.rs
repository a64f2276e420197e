use ersha::columnar::{
    build_clauses, build_device_count_query, build_device_list_query, build_dispatcher_where_clause,
    build_reading_where_clause, build_where_clause,
};
use ersha::filter::{
    DeviceFilter, DeviceSortBy, DeviceStatusFilter, DispatcherFilter, Pagination, QueryOptions, ReadingFilter,
    SensorMetricType, SortOrder,
};
use ersha::model::{DeviceErrorCode, DeviceId, DeviceState, DispatcherState, H3Cell, Timestamp};
use ersha::query::{
    device_count_statement, device_list_statement, filter_devices, filter_dispatchers, filter_statuses,
    sensors_of_devices_statement, SqlPart, SqlValue,
};

/// The SQL text with `?` for each bound value, and the bound values.
fn render(parts: &[SqlPart]) -> (String, Vec<String>) {
    let mut sql = String::new();
    let mut binds = Vec::new();
    for p in parts {
        match p {
            SqlPart::Sql(s) => sql.push_str(s),
            SqlPart::Bind(SqlValue::Int(n)) => {
                sql.push('?');
                binds.push(n.to_string());
            }
            SqlPart::Bind(SqlValue::Text(t)) => {
                sql.push('?');
                binds.push(t.clone());
            }
        }
    }
    (sql, binds)
}

#[test]
fn empty_filter_adds_nothing() {
    let (sql, binds) = render(&filter_devices(vec![], &DeviceFilter::new()));
    assert_eq!(sql, "");
    assert!(binds.is_empty());
    let f = DeviceFilter::builder().ids(vec![]).states(vec![]).build();
    assert_eq!(render(&filter_devices(vec![], &f)).0, "");
}

#[test]
fn dispatcher_filter_where_clause() {
    let f = DispatcherFilter::builder()
        .states(vec![DispatcherState::Active, DispatcherState::Suspended])
        .locations(vec![H3Cell(10)])
        .build();
    let (sql, binds) = render(&filter_dispatchers(vec![], &f));
    assert_eq!(sql, " WHERE state IN (?, ?) AND location IN (?)");
    assert_eq!(binds, vec!["0", "1", "10"]);
}

#[test]
fn device_filter_where_clause() {
    let f = DeviceFilter::builder()
        .ids(vec![DeviceId(0x41414141414141414141414141414141)])
        .states(vec![DeviceState::Suspended])
        .provisioned_after(Timestamp { second: 100, nanosecond: 0 })
        .sensor_count(1..=3)
        .manufacturer_pattern("App".to_string())
        .build();
    let (sql, binds) = render(&filter_devices(vec![], &f));
    assert_eq!(
        sql,
        " WHERE id IN (?) AND state IN (?) AND provisioned_at >= ? AND  sensor_count BETWEEN ? AND ? AND manufacturer LIKE ?"
    );
    assert_eq!(binds, vec!["21850M2GA1850M2GA1850M2GA1", "1", "100", "1", "3", "%App%"]);
}

#[test]
fn status_filter_joins_errors_when_needed() {
    let f = DeviceStatusFilter::builder().has_errors(true).build();
    let (sql, _) = render(&filter_statuses(vec![], &f));
    assert_eq!(
        sql,
        " LEFT JOIN device_status_errors ON device_statuses.id = device_status_errors.status_id  WHERE device_status_errors.id IS NOT NULL"
    );
    let f = DeviceStatusFilter::builder().battery_range(20..=80).build();
    let (sql, binds) = render(&filter_statuses(vec![], &f));
    assert_eq!(sql, " WHERE battery_percent BETWEEN ? AND ?");
    assert_eq!(binds, vec!["20", "80"]);
    let f = DeviceStatusFilter::builder().error_codes(vec![DeviceErrorCode::RadioFault]).build();
    let (sql, binds) = render(&filter_statuses(vec![], &f));
    assert!(sql.starts_with(" LEFT JOIN"));
    assert!(sql.ends_with("WHERE device_status_errors.error_code IN (?)"));
    assert_eq!(binds, vec!["2"]);
}

#[test]
fn device_statements() {
    let (sql, _) = render(&device_count_statement(&None));
    assert_eq!(sql, "SELECT COUNT(*) FROM devices ");
    let options = QueryOptions {
        filter: DeviceFilter::new(),
        sort_by: DeviceSortBy::Manufacturer,
        sort_order: SortOrder::Asc,
        pagination: Pagination::Offset { offset: 20, limit: 10 },
    };
    let (sql, binds) = render(&device_list_statement(&options));
    assert_eq!(
        sql,
        "SELECT id, kind, state, location, manufacturer, provisioned_at, sensor_count FROM devices  ORDER BY manufacturer ASC  LIMIT ? OFFSET ?"
    );
    assert_eq!(binds, vec!["10", "20"]);
    let (sql, binds) = render(&sensors_of_devices_statement(vec!["A".to_string(), "B".to_string()]));
    assert_eq!(
        sql,
        "SELECT id, kind, metric_type, metric_value, device_id FROM sensors WHERE device_id IN (?, ?)"
    );
    assert_eq!(binds, vec!["A", "B"]);
}

#[test]
fn columnar_device_where_clause() {
    let f = DeviceFilter::builder()
        .ids(vec![DeviceId(1), DeviceId(2)])
        .locations(vec![H3Cell(5), H3Cell(u64::MAX)])
        .provisioned_before(Timestamp { second: -5, nanosecond: 0 })
        .manufacturer_pattern("Acme".to_string())
        .build();
    let (sql, binds) = build_where_clause(&f);
    assert_eq!(
        sql,
        " WHERE id IN (?, ?) AND location IN (5, -1) AND provisioned_at <= -5 AND manufacturer LIKE '%Acme%'"
    );
    assert_eq!(binds.len(), 2);
    assert_eq!(binds[0], "00000000000000000000000001");
    let (sql, binds) = build_where_clause(&DeviceFilter::new());
    assert_eq!(sql, "");
    assert!(binds.is_empty());
}

#[test]
fn columnar_other_where_clauses() {
    let f = DispatcherFilter::builder().states(vec![DispatcherState::Suspended]).build();
    assert_eq!(build_dispatcher_where_clause(&f).0, " WHERE state IN (1)");
    let f = ReadingFilter::builder()
        .metric_types(vec![SensorMetricType::AirTemp, SensorMetricType::Rainfall])
        .confidence_range(50..=90)
        .build();
    assert_eq!(build_reading_where_clause(&f).0, " WHERE metric_type IN (2, 4) AND confidence BETWEEN 50 AND 90");
    let f = DeviceStatusFilter::builder().has_errors(false).build();
    let (join, clause, binds) = build_clauses(&f);
    assert_eq!(join, " LEFT JOIN device_status_errors ON device_statuses.id = device_status_errors.status_id");
    assert_eq!(clause, " WHERE device_status_errors.status_id IS NULL");
    assert!(binds.is_empty());
}

#[test]
fn columnar_device_queries() {
    let (sql, binds) = build_device_count_query(&None);
    assert_eq!(sql, "SELECT count() FROM devices FINAL");
    assert!(binds.is_empty());
    let options = QueryOptions {
        filter: DeviceFilter::builder().states(vec![DeviceState::Active]).build(),
        sort_by: DeviceSortBy::ProvisionAt,
        sort_order: SortOrder::Desc,
        pagination: Pagination::Cursor { after: None, limit: 25 },
    };
    let (sql, _) = build_device_list_query(&options);
    assert_eq!(
        sql,
        "SELECT ?fields FROM devices FINAL WHERE state IN (0) ORDER BY provisioned_at DESC LIMIT 25"
    );
}
