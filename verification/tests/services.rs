use ersha::dispatch::{
    check_handshake, device_id_be_bytes, end_session, is_transient_error, location_from_be_bytes, plan_batch,
    reading_from_packet, AlertRequest, DisconnectionReason, DispatcherState, EdgeConnectionError, IoErrorKind,
    PrimeEvent, SessionEnd, Uploader, UploaderAction, MAX_BACKOFF_SECS,
};
use ersha::model::{
    BatchId, BatchUploadRequest, DeviceId, DeviceStatus, Dispatcher, DispatcherId, DispatcherState as Registered,
    H3Cell, Percentage, ReadingId, SensorId, SensorMetric, SensorReading, StatusId, Timestamp,
};
use ersha::prime::{handle_batch_upload, hello_response, HelloRejectionReason, HelloResponse};

fn reading(n: u128, device: u128) -> SensorReading {
    SensorReading {
        id: ReadingId(n),
        device_id: DeviceId(device),
        dispatcher_id: DispatcherId(1),
        metric: SensorMetric::Humidity { value: Percentage(50) },
        location: H3Cell(1),
        confidence: Percentage(100),
        timestamp: Timestamp { second: 10, nanosecond: 0 },
        sensor_id: SensorId(9),
    }
}

fn status(n: u128, device: u128) -> DeviceStatus {
    DeviceStatus {
        id: StatusId(n),
        device_id: DeviceId(device),
        dispatcher_id: DispatcherId(1),
        battery_percent: Percentage(90),
        uptime_seconds: 1,
        signal_rssi: -1,
        errors: vec![],
        timestamp: Timestamp { second: 10, nanosecond: 0 },
        sensor_statuses: vec![],
    }
}

#[test]
fn transient_error_kinds() {
    assert!(is_transient_error(IoErrorKind::ConnectionReset));
    assert!(is_transient_error(IoErrorKind::Other));
    assert!(!is_transient_error(IoErrorKind::Unlisted));
}

#[test]
fn connected_devices_and_events() {
    let mut state = DispatcherState::new(100);
    state.device_connected(DeviceId(1));
    state.device_connected(DeviceId(1));
    state.device_connected(DeviceId(2));
    assert_eq!(state.connected_count(), 2);
    state.device_disconnected(DeviceId(1), DisconnectionReason::GracefulClose);
    assert_eq!(state.connected_count(), 1);
    state.queue_alert(AlertRequest {
        id: 5,
        dispatcher_id: DispatcherId(1),
        device_id: DeviceId(2),
        message: "hot".to_string(),
    });
    let events = state.take_pending_events();
    assert_eq!(events.len(), 2);
    assert!(matches!(
        &events[0],
        PrimeEvent::DeviceDisconnection { device_id, reason: DisconnectionReason::GracefulClose } if *device_id == DeviceId(1)
    ));
    assert!(matches!(&events[1], PrimeEvent::Alert(a) if a.id == 5));
    assert!(state.take_pending_events().is_empty());
    assert_eq!(state.uptime_secs(160), 60);
    assert_eq!(state.uptime_secs(50), 0);
}

#[test]
fn uploader_backoff_doubles_up_to_a_minute() {
    let mut up = Uploader::new();
    assert_eq!(up.on_tick(), UploaderAction::Connect);
    let mut waits = Vec::new();
    for _ in 0..8 {
        match up.on_connect(false) {
            UploaderAction::Sleep { secs } => waits.push(secs),
            other => panic!("unexpected {:?}", other),
        }
    }
    assert_eq!(waits, vec![1, 2, 4, 8, 16, 32, 60, 60]);
    assert_eq!(up.current_backoff(), MAX_BACKOFF_SECS);
    assert_eq!(up.on_connect(true), UploaderAction::Fetch);
    assert_eq!(up.current_backoff(), 1);
    assert_eq!(up.on_tick(), UploaderAction::Fetch);
    let planned = (vec![ReadingId(1)], vec![StatusId(2)]);
    assert_eq!(up.on_upload(true, planned.clone()), Some(planned.clone()));
    assert_eq!(up.on_tick(), UploaderAction::Fetch);
    assert_eq!(up.on_upload(false, planned), None);
    assert_eq!(up.on_tick(), UploaderAction::Connect);
}

#[test]
fn batches_collect_ids() {
    assert!(plan_batch(&vec![], &vec![]).is_none());
    let (r, s) = plan_batch(&vec![reading(1, 1), reading(2, 1)], &vec![status(3, 1)]).unwrap();
    assert_eq!(r, vec![ReadingId(1), ReadingId(2)]);
    assert_eq!(s, vec![StatusId(3)]);
}

#[test]
fn edge_handshake() {
    assert!(check_handshake(*b"HELLO").is_ok());
    assert_eq!(check_handshake(*b"HELL0"), Err(EdgeConnectionError::HandshakeMismatch(*b"HELL0")));
    assert_eq!(location_from_be_bytes(0x0102030405060708u64.to_be_bytes()), 0x0102030405060708);
    let id = 0x000102030405060708090a0b0c0d0e0fu128;
    assert_eq!(device_id_be_bytes(id), id.to_be_bytes());
}

#[test]
fn ending_sessions() {
    let mut state = DispatcherState::new(0);
    state.device_connected(DeviceId(1));
    assert_eq!(
        end_session(&mut state, DeviceId(1), SessionEnd::BadPreamble(7)),
        Err(EdgeConnectionError::InvalidPreamble(7))
    );
    assert_eq!(state.connected_count(), 0);
    let events = state.take_pending_events();
    assert!(matches!(
        &events[0],
        PrimeEvent::DeviceDisconnection { reason: DisconnectionReason::Error(m), .. } if m == "Invalid preamble"
    ));
    state.device_connected(DeviceId(2));
    assert_eq!(
        end_session(&mut state, DeviceId(2), SessionEnd::PayloadFailed("bad".to_string())),
        Err(EdgeConnectionError::Postcard("bad".to_string()))
    );
    assert_eq!(state.connected_count(), 0);
    let events = state.take_pending_events();
    assert_eq!(events.len(), 1);
    assert!(matches!(
        &events[0],
        PrimeEvent::DeviceDisconnection { device_id, reason: DisconnectionReason::Error(m) }
            if *device_id == DeviceId(2) && m == "bad"
    ));
    state.device_connected(DeviceId(3));
    assert_eq!(end_session(&mut state, DeviceId(3), SessionEnd::Closed), Ok(()));
    assert_eq!(state.connected_count(), 0);
}

#[test]
fn readings_from_packets() {
    let r = reading_from_packet(
        ReadingId(1),
        DeviceId(2),
        DispatcherId(3),
        44,
        5,
        SensorMetric::SoilMoisture { value: Percentage(12) },
        Timestamp { second: 9, nanosecond: 1 },
    );
    assert_eq!(r.confidence, Percentage(100));
    assert_eq!(r.location, H3Cell(44));
    assert_eq!(r.sensor_id, SensorId(5));
}

#[test]
fn hello_answers() {
    let id = DispatcherId(4);
    let active = Dispatcher {
        id,
        location: H3Cell(1),
        state: Registered::Active,
        provisioned_at: Timestamp { second: 0, nanosecond: 0 },
    };
    assert_eq!(hello_response(id, &Ok(Some(active))), HelloResponse::Accepted { dispatcher_id: id });
    let suspended = Dispatcher { state: Registered::Suspended, ..active };
    assert_eq!(
        hello_response(id, &Ok(Some(suspended))),
        HelloResponse::Rejected { reason: HelloRejectionReason::DispatcherSuspended }
    );
    assert_eq!(
        hello_response(id, &Ok(None)),
        HelloResponse::Rejected { reason: HelloRejectionReason::UnknownDispatcher }
    );
    assert_eq!(
        hello_response(id, &Err("down".to_string())),
        HelloResponse::Rejected { reason: HelloRejectionReason::InternalError }
    );
}

#[test]
fn batch_keeps_known_devices_only() {
    let request = BatchUploadRequest {
        id: BatchId(8),
        dispatcher_id: DispatcherId(1),
        readings: vec![reading(1, 10), reading(2, 11), reading(3, 10)],
        statuses: vec![status(4, 11)],
        timestamp: Timestamp { second: 0, nanosecond: 0 },
    };
    let (readings, statuses, summary) =
        handle_batch_upload(&request, &vec![true, false, true], &vec![false]);
    assert_eq!(readings.iter().map(|r| r.id.0).collect::<Vec<_>>(), vec![1, 3]);
    assert!(statuses.is_empty());
    assert_eq!(summary.id, BatchId(8));
    assert_eq!(summary.readings_stored, 2);
    assert_eq!(summary.readings_rejected, 1);
    assert_eq!(summary.statuses_stored, 0);
    assert_eq!(summary.statuses_rejected, 1);
}

#[test]
fn events_come_out_in_call_order_and_devices_count_once() {
    let mut state = DispatcherState::new(0);
    state.device_connected(DeviceId(3));
    state.device_disconnected(DeviceId(9), DisconnectionReason::Error("gone".to_string()));
    state.queue_alert(AlertRequest {
        id: 1,
        dispatcher_id: DispatcherId(4),
        device_id: DeviceId(3),
        message: "first".to_string(),
    });
    state.device_connected(DeviceId(3));
    state.device_connected(DeviceId(8));
    state.device_disconnected(DeviceId(3), DisconnectionReason::GracefulClose);
    state.device_connected(DeviceId(3));
    // 3 and 8 were last connected; 9 was never connected.
    assert_eq!(state.connected_count(), 2);
    let events = state.take_pending_events();
    assert_eq!(events.len(), 3);
    assert!(matches!(
        &events[0],
        PrimeEvent::DeviceDisconnection { device_id, reason: DisconnectionReason::Error(m) }
            if *device_id == DeviceId(9) && m == "gone"
    ));
    assert!(matches!(&events[1], PrimeEvent::Alert(a) if a.id == 1 && a.message == "first"));
    assert!(matches!(
        &events[2],
        PrimeEvent::DeviceDisconnection { device_id, reason: DisconnectionReason::GracefulClose } if *device_id == DeviceId(3)
    ));
    assert!(state.take_pending_events().is_empty());
    assert_eq!(state.connected_count(), 2);
}
