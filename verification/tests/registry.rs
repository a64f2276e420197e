use ersha::filter::{
    DeviceFilter, DeviceSortBy, DispatcherFilter, DispatcherSortBy, Pagination, QueryOptions, SortOrder,
};
use ersha::model::{
    Device, DeviceId, DeviceKind, DeviceState, Dispatcher, DispatcherId, DispatcherState, H3Cell, Percentage,
    Sensor, SensorId, SensorKind, SensorMetric, Timestamp,
};
use ersha::registry::{InMemoryDeviceRegistry, InMemoryDispatcherRegistry, InMemoryError};

fn at(second: i64) -> Timestamp {
    Timestamp { second, nanosecond: 0 }
}

fn dispatcher(id: DispatcherId, state: DispatcherState, provisioned_at: Timestamp) -> Dispatcher {
    Dispatcher { id, state, location: H3Cell(0x1337deadbeef), provisioned_at }
}

fn device(id: u128, manufacturer: Option<&str>, second: i64, sensors: usize) -> Device {
    Device {
        id: DeviceId(id),
        kind: DeviceKind::Sensor,
        state: DeviceState::Active,
        location: H3Cell(7),
        manufacturer: manufacturer.map(|m| m.to_string()),
        provisioned_at: at(second),
        sensors: (0..sensors)
            .map(|i| Sensor {
                id: SensorId(id * 100 + i as u128),
                metric: SensorMetric::SoilMoisture { value: Percentage(10) },
                kind: SensorKind::SoilMoisture,
            })
            .collect(),
    }
}

#[test]
fn test_register_and_get() {
    let mut reg = InMemoryDispatcherRegistry::new();
    let id = DispatcherId(1);
    reg.register(dispatcher(id, DispatcherState::Active, at(5))).unwrap();
    let fetched = reg.get(id).unwrap().expect("Dispatcher should exist");
    assert_eq!(fetched.id, id);
    assert_eq!(fetched.state, DispatcherState::Active);
}

#[test]
fn test_suspend_logic() {
    let mut reg = InMemoryDispatcherRegistry::new();
    let id = DispatcherId(1);
    reg.register(dispatcher(id, DispatcherState::Active, at(5))).unwrap();
    reg.suspend(id).unwrap();
    let updated = reg.get(id).unwrap().unwrap();
    assert_eq!(updated.state, DispatcherState::Suspended);
}

#[test]
fn test_count_with_filter() {
    let mut reg = InMemoryDispatcherRegistry::new();
    reg.batch_register(vec![
        dispatcher(DispatcherId(1), DispatcherState::Active, at(5)),
        dispatcher(DispatcherId(2), DispatcherState::Suspended, at(5)),
    ])
    .unwrap();
    assert_eq!(reg.count(None).unwrap(), 2);
    let filter = DispatcherFilter::builder().states(vec![DispatcherState::Active]).build();
    assert_eq!(reg.count(Some(filter)).unwrap(), 1);
}

#[test]
fn test_list_sorting_and_pagination() {
    let mut reg = InMemoryDispatcherRegistry::new();
    let id1 = DispatcherId(1);
    let id2 = DispatcherId(2);
    let id3 = DispatcherId(3);
    reg.batch_register(vec![
        dispatcher(id1, DispatcherState::Active, at(100)),
        dispatcher(id2, DispatcherState::Active, at(300)),
        dispatcher(id3, DispatcherState::Active, at(200)),
    ])
    .unwrap();
    let options = QueryOptions {
        filter: DispatcherFilter::new(),
        sort_by: DispatcherSortBy::ProvisionAt,
        sort_order: SortOrder::Desc,
        pagination: Pagination::Offset { offset: 0, limit: 2 },
    };
    let results = reg.list(options).unwrap();
    assert_eq!(results.len(), 2);
    assert_eq!(results[0].id, id2);
    assert_eq!(results[1].id, id3);
}

#[test]
fn test_cursor_pagination() {
    let mut reg = InMemoryDispatcherRegistry::new();
    let id1 = DispatcherId(1);
    let id2 = DispatcherId(2);
    reg.batch_register(vec![
        dispatcher(id1, DispatcherState::Active, at(10)),
        dispatcher(id2, DispatcherState::Active, at(20)),
    ])
    .unwrap();
    let options = QueryOptions {
        filter: DispatcherFilter::new(),
        sort_by: DispatcherSortBy::ProvisionAt,
        sort_order: SortOrder::Asc,
        pagination: Pagination::Cursor { after: Some(id1.0), limit: 1 },
    };
    let results = reg.list(options).unwrap();
    assert_eq!(results.len(), 1);
    assert_eq!(results[0].id, id2);
}

#[test]
fn suspending_an_unknown_dispatcher_fails() {
    let mut reg = InMemoryDispatcherRegistry::new();
    assert!(matches!(reg.suspend(DispatcherId(9)), Err(InMemoryError::NotFound)));
    assert!(reg.get(DispatcherId(9)).unwrap().is_none());
}

#[test]
fn offset_pages_are_consecutive() {
    let mut reg = InMemoryDispatcherRegistry::new();
    reg.batch_register((1..=5).map(|i| dispatcher(DispatcherId(i), DispatcherState::Active, at(i as i64 * 10))).collect())
        .unwrap();
    let page = |offset: usize, limit: usize| {
        reg.list(QueryOptions {
            filter: DispatcherFilter::new(),
            sort_by: DispatcherSortBy::ProvisionAt,
            sort_order: SortOrder::Asc,
            pagination: Pagination::Offset { offset, limit },
        })
        .unwrap()
        .iter()
        .map(|d| d.id.0)
        .collect::<Vec<u128>>()
    };
    assert_eq!(page(0, 2), vec![1, 2]);
    assert_eq!(page(2, 2), vec![3, 4]);
    assert_eq!(page(4, 2), vec![5]);
    assert_eq!(page(6, 2), Vec::<u128>::new());
}

#[test]
fn device_register_get_and_suspend() {
    let mut reg = InMemoryDeviceRegistry::new();
    reg.register(device(1, Some("Apple"), 10, 2)).unwrap();
    let d = reg.get(DeviceId(1)).unwrap().unwrap();
    assert_eq!(d.sensors.len(), 2);
    assert_eq!(d.manufacturer.as_deref(), Some("Apple"));
    reg.suspend(DeviceId(1)).unwrap();
    assert_eq!(reg.get(DeviceId(1)).unwrap().unwrap().state, DeviceState::Suspended);
    assert!(matches!(reg.suspend(DeviceId(2)), Err(InMemoryError::NotFound)));
}

#[test]
fn device_filter_by_manufacturer_ignores_case() {
    let mut reg = InMemoryDeviceRegistry::new();
    reg.batch_register(vec![
        device(1, Some("Apple"), 10, 0),
        device(2, Some("Banana"), 20, 0),
        device(3, None, 30, 0),
    ])
    .unwrap();
    let filter = DeviceFilter::builder().manufacturer_pattern("app".to_string()).build();
    assert_eq!(reg.count(Some(filter)).unwrap(), 1);
    let filter = DeviceFilter::builder().manufacturer_pattern("AN".to_string()).build();
    assert_eq!(reg.count(Some(filter)).unwrap(), 1);
}

#[test]
fn device_add_sensor_and_sort_by_sensor_count() {
    let mut reg = InMemoryDeviceRegistry::new();
    reg.batch_register(vec![device(1, None, 10, 3), device(2, None, 20, 1)]).unwrap();
    reg.add_sensor(
        DeviceId(2),
        Sensor {
            id: SensorId(45),
            metric: SensorMetric::Humidity { value: Percentage(45) },
            kind: SensorKind::Humidity,
        },
    )
    .unwrap();
    assert_eq!(reg.get(DeviceId(2)).unwrap().unwrap().sensors.len(), 2);
    assert!(matches!(
        reg.add_sensor(
            DeviceId(9),
            Sensor {
                id: SensorId(46),
                metric: SensorMetric::Humidity { value: Percentage(1) },
                kind: SensorKind::Humidity,
            }
        ),
        Err(InMemoryError::NotFound)
    ));
    let listed = reg
        .list(QueryOptions {
            filter: DeviceFilter::new(),
            sort_by: DeviceSortBy::SensorCount,
            sort_order: SortOrder::Asc,
            pagination: Pagination::Offset { offset: 0, limit: 10 },
        })
        .unwrap();
    let ids: Vec<u128> = listed.iter().map(|d| d.id.0).collect();
    assert_eq!(ids, vec![2, 1]);
}
