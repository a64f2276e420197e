//! The decisions of the prime service when a dispatcher calls it: whether
//! a dispatcher may connect, and which parts of an uploaded batch are kept.
use vstd::prelude::*;

use crate::model::{BatchId, BatchUploadRequest, DeviceStatus, DeviceStatusView, Dispatcher, DispatcherId, DispatcherState, SensorReading};

verus! {

/// Why a dispatcher was turned away.
#[derive(Debug, Clone, Copy, PartialEq, Eq, Structural)]
pub enum HelloRejectionReason {
    DispatcherSuspended,
    UnknownDispatcher,
    InternalError,
}

/// The answer to a dispatcher's hello.
#[derive(Debug, Clone, Copy, PartialEq, Eq, Structural)]
pub enum HelloResponse {
    Accepted { dispatcher_id: DispatcherId },
    Rejected { reason: HelloRejectionReason },
}

/// The answer to a hello from `dispatcher_id`, given what the registry
/// said of it.
pub open spec fn hello_answer(dispatcher_id: DispatcherId, found: Result<Option<Dispatcher>, ()>) -> HelloResponse {
    match found {
        Ok(Some(d)) => if d.state == DispatcherState::Active {
            HelloResponse::Accepted { dispatcher_id }
        } else {
            HelloResponse::Rejected { reason: HelloRejectionReason::DispatcherSuspended }
        },
        Ok(None) => HelloResponse::Rejected { reason: HelloRejectionReason::UnknownDispatcher },
        Err(_) => HelloResponse::Rejected { reason: HelloRejectionReason::InternalError },
    }
}

/// Answers a dispatcher's hello from what the registry said of it (its
/// entry, none, or the message of the error it failed with): an active
/// dispatcher is accepted, a suspended or unknown one is rejected, and so
/// is any dispatcher while the registry fails.
pub fn hello_response(dispatcher_id: DispatcherId, found: &Result<Option<Dispatcher>, String>) -> (r: HelloResponse)
    ensures
        r == hello_answer(
            dispatcher_id,
            match found {
                Ok(x) => Ok(*x),
                Err(_) => Err(()),
            },
        ),
{
    match found {
        Ok(Some(d)) => {
            if d.state == DispatcherState::Active {
                HelloResponse::Accepted { dispatcher_id }
            } else {
                HelloResponse::Rejected { reason: HelloRejectionReason::DispatcherSuspended }
            }
        },
        Ok(None) => HelloResponse::Rejected { reason: HelloRejectionReason::UnknownDispatcher },
        Err(_) => HelloResponse::Rejected { reason: HelloRejectionReason::InternalError },
    }
}

/// A dispatcher is accepted exactly when the registry holds it as active.
pub proof fn law_only_active_dispatchers_accepted(dispatcher_id: DispatcherId, found: Result<Option<Dispatcher>, ()>)
    ensures
        hello_answer(dispatcher_id, found) is Accepted <==> (found matches Ok(Some(d)) && d.state
            == DispatcherState::Active),
        hello_answer(dispatcher_id, found) matches HelloResponse::Accepted { dispatcher_id: x } ==> x
            == dispatcher_id,
{
}

/// How much of a batch was kept.
#[derive(Debug, Clone, Copy, PartialEq, Eq, Structural)]
pub struct BatchUploadSummary {
    pub id: BatchId,
    pub readings_stored: u32,
    pub readings_rejected: u32,
    pub statuses_stored: u32,
    pub statuses_rejected: u32,
}

/// The items whose flag is set, in order.
pub open spec fn kept<T>(items: Seq<T>, known: Seq<bool>) -> Seq<T>
    decreases items.len(),
{
    if items.len() == 0 {
        Seq::empty()
    } else {
        let rest = kept(items.drop_last(), known);
        if known[items.len() - 1] {
            rest.push(items.last())
        } else {
            rest
        }
    }
}

proof fn lemma_kept_len<T>(items: Seq<T>, known: Seq<bool>)
    ensures
        kept(items, known).len() <= items.len(),
    decreases items.len(),
{
    if items.len() > 0 {
        lemma_kept_len(items.drop_last(), known);
    }
}

/// The readings of a batch that come from known devices, and how many were
/// turned away.
fn keep_readings(readings: &Vec<SensorReading>, known: &Vec<bool>) -> (r: (Vec<SensorReading>, u32))
    requires
        known@.len() == readings@.len(),
        readings@.len() <= u32::MAX,
    ensures
        r.0@ == kept(readings@, known@),
        r.1 == readings@.len() - kept(readings@, known@).len(),
{
    let mut valid: Vec<SensorReading> = Vec::new();
    let mut rejected: u32 = 0;
    let mut i: usize = 0;
    while i < readings.len()
        invariant
            i <= readings@.len(),
            known@.len() == readings@.len(),
            readings@.len() <= u32::MAX,
            valid@ == kept(readings@.take(i as int), known@),
            rejected == i - valid@.len(),
            valid@.len() <= i,
        decreases readings@.len() - i,
    {
        proof {
            assert(readings@.take(i + 1).drop_last() =~= readings@.take(i as int));
        }
        if known[i] {
            valid.push(readings[i]);
        } else {
            rejected = rejected + 1;
        }
        i = i + 1;
    }
    assert(readings@.take(i as int) =~= readings@);
    (valid, rejected)
}

/// The abstract content of a list of statuses.
pub open spec fn status_views(v: Seq<DeviceStatus>) -> Seq<DeviceStatusView> {
    v.map_values(|s: DeviceStatus| s@)
}

/// The statuses of a batch that come from known devices, and how many were
/// turned away.
fn keep_statuses(statuses: &Vec<DeviceStatus>, known: &Vec<bool>) -> (r: (Vec<DeviceStatus>, u32))
    requires
        known@.len() == statuses@.len(),
        statuses@.len() <= u32::MAX,
    ensures
        status_views(r.0@) == kept(status_views(statuses@), known@),
        r.1 == statuses@.len() - kept(status_views(statuses@), known@).len(),
{
    let ghost all = status_views(statuses@);
    let mut valid: Vec<DeviceStatus> = Vec::new();
    let mut rejected: u32 = 0;
    let mut i: usize = 0;
    while i < statuses.len()
        invariant
            i <= statuses@.len(),
            known@.len() == statuses@.len(),
            statuses@.len() <= u32::MAX,
            all == status_views(statuses@),
            status_views(valid@) == kept(all.take(i as int), known@),
            rejected == i - valid@.len(),
            valid@.len() <= i,
        decreases statuses@.len() - i,
    {
        proof {
            assert(all.take(i + 1).drop_last() =~= all.take(i as int));
        }
        let ghost before = status_views(valid@);
        if known[i] {
            let s = statuses[i].duplicate();
            let ghost sv = s@;
            valid.push(s);
            proof {
                assert(status_views(valid@) =~= before.push(sv));
            }
        } else {
            rejected = rejected + 1;
        }
        i = i + 1;
    }
    assert(all.take(i as int) =~= all);
    (valid, rejected)
}

/// Handles an uploaded batch, given for each reading and each status
/// whether the registry knows its device: the readings and statuses of
/// known devices are kept in order, the rest are turned away, and the
/// summary counts both.
pub fn handle_batch_upload(request: &BatchUploadRequest, reading_known: &Vec<bool>, status_known: &Vec<bool>) -> (r: (
    Vec<SensorReading>,
    Vec<DeviceStatus>,
    BatchUploadSummary,
))
    requires
        reading_known@.len() == request.readings@.len(),
        status_known@.len() == request.statuses@.len(),
        request.readings@.len() <= u32::MAX,
        request.statuses@.len() <= u32::MAX,
    ensures
        r.0@ == kept(request.readings@, reading_known@),
        status_views(r.1@) == kept(status_views(request.statuses@), status_known@),
        r.2.id == request.id,
        r.2.readings_stored == r.0@.len(),
        r.2.readings_rejected == request.readings@.len() - r.0@.len(),
        r.2.statuses_stored == r.1@.len(),
        r.2.statuses_rejected == request.statuses@.len() - r.1@.len(),
{
    let (readings, readings_rejected) = keep_readings(&request.readings, reading_known);
    let (statuses, statuses_rejected) = keep_statuses(&request.statuses, status_known);
    proof {
        lemma_kept_len(request.readings@, reading_known@);
        lemma_kept_len(status_views(request.statuses@), status_known@);
        assert(statuses@.len() == status_views(statuses@).len());
    }
    let summary = BatchUploadSummary {
        id: request.id,
        readings_stored: readings.len() as u32,
        readings_rejected,
        statuses_stored: statuses.len() as u32,
        statuses_rejected,
    };
    (readings, statuses, summary)
}

} // verus!
