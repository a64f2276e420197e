use ersha::api::{
    apply_device_update, apply_dispatcher_update, list_pagination, list_response, new_dispatcher, parse_device_id,
    parse_dispatcher_id, ApiResponse as JsonResponse, DeviceUpdateRequest, DispatcherCreateRequest,
    DispatcherUpdateRequest, ListQueryParams,
};
use ersha::dashboard::{
    create_sensors_from_forms, device_from_form, page_window, paginated_response, parse_ulid,
    sensor_kind_from_name, ApiResponse, DashboardError, DeviceForm, PaginationQuery, SensorForm,
};
use ersha::filter::Pagination;
use ersha::model::{
    Device, DeviceId, DeviceKind, DeviceState, Dispatcher, DispatcherId, DispatcherState, FloatBits, H3Cell,
    Percentage, SensorId, SensorKind, SensorMetric, Timestamp,
};

fn device() -> Device {
    Device {
        id: DeviceId(1),
        kind: DeviceKind::Sensor,
        state: DeviceState::Active,
        location: H3Cell(5),
        manufacturer: Some("Acme".to_string()),
        provisioned_at: Timestamp { second: 3, nanosecond: 0 },
        sensors: vec![],
    }
}

#[test]
fn parse_ids_from_paths() {
    assert_eq!(parse_device_id("21850M2GA1850M2GA1850M2GA1").unwrap(), DeviceId(0x41414141414141414141414141414141));
    assert_eq!(
        parse_device_id("not-a-ulid").unwrap_err(),
        "Invalid device ID format. Expected ULID."
    );
    assert_eq!(
        parse_dispatcher_id("").unwrap_err(),
        "Invalid dispatcher ID format. Expected ULID."
    );
    assert_eq!(parse_ulid("00000000000000000000000001").unwrap(), 1);
    assert_eq!(
        parse_ulid("zz").unwrap_err(),
        DashboardError::InvalidUlid("Invalid ID format: zz".to_string())
    );
}

#[test]
fn partial_device_update() {
    let unchanged = apply_device_update(
        device(),
        DeviceUpdateRequest { kind: None, state: None, location: None, manufacturer: None },
    );
    assert_eq!(unchanged.manufacturer.as_deref(), Some("Acme"));
    assert_eq!(unchanged.location, H3Cell(5));
    let updated = apply_device_update(
        device(),
        DeviceUpdateRequest {
            kind: None,
            state: Some(DeviceState::Suspended),
            location: Some(H3Cell(9)),
            manufacturer: Some(None),
        },
    );
    assert_eq!(updated.state, DeviceState::Suspended);
    assert_eq!(updated.location, H3Cell(9));
    assert_eq!(updated.manufacturer, None);
    assert_eq!(updated.id, DeviceId(1));
    assert_eq!(updated.provisioned_at, Timestamp { second: 3, nanosecond: 0 });
}

#[test]
fn dispatcher_create_and_update() {
    let d = new_dispatcher(
        DispatcherId(2),
        DispatcherCreateRequest { location: H3Cell(8) },
        Timestamp { second: 1, nanosecond: 0 },
    );
    assert_eq!(d.state, DispatcherState::Active);
    let moved = apply_dispatcher_update(d, DispatcherUpdateRequest { state: None, location: Some(H3Cell(3)) });
    assert_eq!(moved, Dispatcher { location: H3Cell(3), ..d });
}

#[test]
fn list_pages() {
    let params = ListQueryParams { offset: Some(20), limit: Some(10), sort_by: None, sort_order: None };
    assert_eq!(list_pagination(&params), Pagination::Offset { offset: 20, limit: 10 });
    let page = list_response(vec![1, 2, 3], 35, &params);
    assert_eq!(page.page, Some(2));
    assert_eq!(page.per_page, Some(10));
    assert!(page.has_more);
    let defaults = ListQueryParams::default();
    assert_eq!(list_pagination(&defaults), Pagination::Offset { offset: 0, limit: 50 });
    let page = list_response(Vec::<u8>::new(), 50, &defaults);
    assert_eq!(page.page, Some(0));
    assert_eq!(page.per_page, None);
    assert!(!page.has_more);
    let ok = JsonResponse::ok(5, None);
    assert!(ok.success);
    let failed = JsonResponse::<u8>::failure("no".to_string());
    assert!(!failed.success && failed.data.is_none());
}

#[test]
fn sensor_forms() {
    assert_eq!(sensor_kind_from_name(&"soil_temp".to_string()), Some(SensorKind::SoilTemp));
    assert_eq!(sensor_kind_from_name(&"Soil_Temp".to_string()), None);
    let forms = vec![SensorForm { kind: "humidity".to_string() }, SensorForm { kind: "rainfall".to_string() }];
    let sensors = create_sensors_from_forms(&forms, &vec![SensorId(1), SensorId(2)]).unwrap();
    assert_eq!(sensors[0].metric, SensorMetric::Humidity { value: Percentage(0) });
    assert_eq!(sensors[1].metric, SensorMetric::Rainfall { value: FloatBits(0) });
    assert_eq!(sensors[1].id, SensorId(2));
    let bad = vec![SensorForm { kind: "humidity".to_string() }, SensorForm { kind: "wind".to_string() }];
    assert_eq!(
        create_sensors_from_forms(&bad, &vec![SensorId(1), SensorId(2)]).unwrap_err(),
        DashboardError::InvalidSensorKind("wind".to_string())
    );
}

#[test]
fn dashboard_pages_and_errors() {
    let q = PaginationQuery { page: Some(3), limit: Some(500) };
    assert_eq!(page_window(q), (200, 400));
    let q = PaginationQuery { page: None, limit: None };
    assert_eq!(page_window(q), (50, 0));
    let page = paginated_response(vec![1, 2], PaginationQuery { page: Some(1), limit: Some(1) });
    assert_eq!(page.total, 2);
    assert!(page.has_more);
    assert_eq!(DashboardError::NotFound("x".to_string()).status_and_message(), (404, "x".to_string()));
    assert_eq!(DashboardError::Internal("y".to_string()).status_and_message().0, 500);
    assert_eq!(DashboardError::Validation("z".to_string()).status_and_message().0, 400);
    let ok = ApiResponse::success(1);
    assert!(ok.success && ok.message.is_none());
    let err = ApiResponse::<u8>::error("bad".to_string());
    assert_eq!(err.message.as_deref(), Some("bad"));
    let form = DeviceForm { location: 6, manufacturer: None, sensors: vec![] };
    let d = device_from_form(DeviceId(4), &form, vec![], Timestamp { second: 0, nanosecond: 0 });
    assert_eq!(d.state, DeviceState::Active);
    assert_eq!(d.location, H3Cell(6));
}
