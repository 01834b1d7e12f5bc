use landlock_observability::channel::TryRecvError;
use landlock_observability::collector::{Collector, DEFAULT_EVENT_CAPACITY};
use landlock_observability::delivery::DeliveryQueue;
use landlock_observability::error::{
    CollectorReceiveErrorKind, CollectorStartError, CollectorStartErrorKind, ReceiveTimeoutError,
    TryReceiveError,
};
use landlock_observability::worker::WorkerStage;
use std::error::Error;

type Source = Box<dyn Error + Send + Sync>;

const RULESET_FREE_FIXTURE: [u8; 344] = [0; 344];

#[derive(Clone, Copy, Debug, Eq, PartialEq)]
struct FreeRulesetEvent {
    timestamp: u64,
    ruleset: u64,
    version: u32,
}

#[derive(Clone, Copy, Debug, Eq, PartialEq)]
enum Event {
    FreeRuleset(FreeRulesetEvent),
}

fn event(id: u64) -> Event {
    Event::FreeRuleset(FreeRulesetEvent {
        timestamp: id,
        ruleset: id,
        version: id as u32,
    })
}

/// Decodes a record of 344 bytes that starts with its timestamp.
fn decode(data: &[u8]) -> Result<Event, Source> {
    if data.len() != RULESET_FREE_FIXTURE.len() {
        return Err(format!("record of {} bytes", data.len()).into());
    }
    let mut timestamp = [0; 8];
    timestamp.copy_from_slice(&data[..8]);
    Ok(Event::FreeRuleset(FreeRulesetEvent {
        timestamp: u64::from_ne_bytes(timestamp),
        ruleset: 0,
        version: 0,
    }))
}

fn sample(timestamp: u64) -> [u8; 344] {
    let mut data = RULESET_FREE_FIXTURE;
    data[..std::mem::size_of::<u64>()].copy_from_slice(&timestamp.to_ne_bytes());
    data
}

fn fake_collector(capacity: usize) -> Collector<Event, Source> {
    let mut collector = Collector::with_event_capacity(capacity).unwrap();
    for stage in [
        WorkerStage::Load,
        WorkerStage::Attach,
        WorkerStage::AddRing,
        WorkerStage::BuildRing,
        WorkerStage::Poll,
    ] {
        assert_eq!(collector.advance(Ok(())), stage);
    }
    assert!(matches!(
        collector.startup_result("early".into()),
        Some(Ok(()))
    ));
    collector
}

fn fake_failure(text: &str) -> Source {
    std::io::Error::other(text).into()
}

#[test]
fn zero_capacity_is_rejected_before_spawn() {
    let Err(error) = Collector::<Event, Source>::with_event_capacity(0) else {
        panic!()
    };
    assert_eq!(error.kind(), CollectorStartErrorKind::InvalidCapacity);
    assert!(error.source().is_none());

    let spawn = CollectorStartError::new(
        CollectorStartErrorKind::Spawn,
        std::io::Error::other("fake spawn failure"),
    );
    assert!(spawn.source().is_some());
}

#[test]
fn empty_and_timeout_are_distinct() {
    let mut collector = fake_collector(1);
    assert!(matches!(collector.try_recv(), Err(TryReceiveError::Empty)));
    assert!(!collector.delivery_ready());
    assert!(matches!(
        collector.recv_timeout(),
        Err(ReceiveTimeoutError::Timeout)
    ));
}

#[test]
fn capacity_n_preserves_accepted_delivery_order() {
    let mut running = true;
    let mut queue = DeliveryQueue::new(3);
    for timestamp in 1..=3 {
        assert_eq!(queue.deliver(&mut running, &sample(timestamp), decode), 0);
    }
    assert_eq!(queue.deliver(&mut running, &sample(4), decode), 0);

    for timestamp in 1..=3 {
        let entry = queue.entries.try_recv().unwrap();
        assert!(!entry.output_full_before);
        assert_eq!(entry.delivery.unwrap(), decode(&sample(timestamp)).unwrap());
    }
    assert!(matches!(queue.entries.try_recv(), Err(TryRecvError::Empty)));
    assert!(queue.output_full_pending);
}

#[test]
fn capacity_one_pairs_notice_with_next_accepted_delivery() {
    let mut collector = fake_collector(1);

    assert_eq!(collector.deliver(&sample(1), decode), 0);
    assert_eq!(collector.deliver(&sample(2), decode), 0);
    assert_eq!(collector.deliver(&sample(3), decode), 0);
    assert_eq!(collector.try_recv().unwrap(), decode(&sample(1)).unwrap());

    assert_eq!(collector.deliver(&sample(4), decode), 0);
    assert!(!collector.output_full_pending());
    let TryReceiveError::Collector(notice) = collector.try_recv().unwrap_err() else {
        panic!()
    };
    assert_eq!(notice.kind(), CollectorReceiveErrorKind::OutputQueueFull);
    assert!(notice.source().is_none());
    assert_eq!(collector.try_recv().unwrap(), decode(&sample(4)).unwrap());
    assert!(matches!(collector.try_recv(), Err(TryReceiveError::Empty)));
}

#[test]
fn accepted_delivery_clears_the_pending_notice() {
    let mut running = true;
    let mut queue = DeliveryQueue::new(1);
    for timestamp in 1..=3 {
        assert_eq!(queue.deliver(&mut running, &sample(timestamp), decode), 0);
    }
    assert!(queue.output_full_pending);
    assert!(!queue.entries.try_recv().unwrap().output_full_before);
    assert_eq!(queue.deliver(&mut running, &sample(4), decode), 0);
    assert!(!queue.output_full_pending);
    let entry = queue.entries.try_recv().unwrap();
    assert!(entry.output_full_before);
    assert_eq!(entry.delivery.unwrap(), decode(&sample(4)).unwrap());
}

#[test]
fn malformed_sample_preserves_private_source() {
    let mut running = true;
    let mut queue = DeliveryQueue::new(1);
    assert_eq!(queue.deliver(&mut running, &[0], decode), 0);
    let error = queue.entries.try_recv().unwrap().delivery.unwrap_err();
    assert_eq!(error.kind(), CollectorReceiveErrorKind::MalformedSample);
    assert!(error.source().is_some());
    assert_eq!(
        error.message(),
        "failed to decode BPF event sample: record of 1 bytes"
    );
}

#[test]
fn paired_malformed_delivery_precedes_terminal_error() {
    let mut collector = fake_collector(1);
    assert_eq!(collector.deliver(&sample(1), decode), 0);
    assert_eq!(collector.deliver(&sample(2), decode), 0);
    assert!(collector.try_recv().is_ok());
    assert_eq!(collector.deliver(&[0], decode), 0);
    assert_eq!(
        collector.advance(Err(fake_failure("fake poll failure"))),
        WorkerStage::Finished
    );
    collector.worker_exited();

    let TryReceiveError::Collector(error) = collector.try_recv().unwrap_err() else {
        panic!()
    };
    assert_eq!(error.kind(), CollectorReceiveErrorKind::OutputQueueFull);
    let TryReceiveError::Collector(error) = collector.try_recv().unwrap_err() else {
        panic!()
    };
    assert_eq!(error.kind(), CollectorReceiveErrorKind::MalformedSample);
    assert!(error.source().is_some());
    let TryReceiveError::Collector(error) = collector.try_recv().unwrap_err() else {
        panic!()
    };
    assert_eq!(error.kind(), CollectorReceiveErrorKind::PollFailure);
}

#[test]
fn buffered_item_precedes_terminal_poll_error_and_stop() {
    let mut collector = fake_collector(1);
    assert_eq!(collector.deliver_decoded(Ok(event(1))), 0);
    assert_eq!(
        collector.advance(Err(fake_failure("fake poll failure"))),
        WorkerStage::Finished
    );
    collector.worker_exited();
    assert_eq!(collector.try_recv().unwrap(), event(1));
    let TryReceiveError::Collector(error) = collector.try_recv().unwrap_err() else {
        panic!()
    };
    assert_eq!(error.kind(), CollectorReceiveErrorKind::PollFailure);
    assert!(error.source().is_some());
    let TryReceiveError::Collector(error) = collector.try_recv().unwrap_err() else {
        panic!()
    };
    assert_eq!(error.kind(), CollectorReceiveErrorKind::WorkerStop);
    assert!(error.source().is_none());
}

#[test]
fn shutdown_request_finishes_the_worker_after_one_poll() {
    let mut collector = fake_collector(1);
    collector.request_shutdown();
    assert_eq!(collector.stage(), WorkerStage::Poll);
    assert_eq!(collector.advance(Ok(())), WorkerStage::Finished);
}

#[test]
fn returned_poll_failure_is_followed_by_worker_stop_only() {
    let mut collector = fake_collector(2);
    assert_eq!(
        collector.advance(Err(fake_failure("fake poll failure"))),
        WorkerStage::Finished
    );
    let TryReceiveError::Collector(error) = collector.try_recv().unwrap_err() else {
        panic!()
    };
    assert_eq!(error.kind(), CollectorReceiveErrorKind::PollFailure);
    assert_eq!(collector.advance(Ok(())), WorkerStage::Finished);
    for _ in 0..3 {
        let TryReceiveError::Collector(error) = collector.try_recv().unwrap_err() else {
            panic!()
        };
        assert_eq!(error.kind(), CollectorReceiveErrorKind::WorkerStop);
        let ReceiveTimeoutError::Collector(error) = collector.recv_timeout().unwrap_err() else {
            panic!()
        };
        assert_eq!(error.kind(), CollectorReceiveErrorKind::WorkerStop);
    }
}

#[test]
fn only_malformed_samples_and_poll_failures_have_a_source() {
    let mut collector = fake_collector(1);
    assert_eq!(collector.deliver(&[0], decode), 0);
    assert_eq!(collector.deliver(&[0], decode), 0);
    collector.advance(Err(fake_failure("fake poll failure")));
    let expected = [
        (CollectorReceiveErrorKind::MalformedSample, true),
        (CollectorReceiveErrorKind::OutputQueueFull, false),
        (CollectorReceiveErrorKind::PollFailure, true),
        (CollectorReceiveErrorKind::WorkerStop, false),
    ];
    for (kind, sourced) in expected {
        let TryReceiveError::Collector(error) = collector.try_recv().unwrap_err() else {
            panic!()
        };
        assert_eq!(error.kind(), kind);
        assert_eq!(error.source().is_some(), sourced);
    }
}

#[test]
fn callback_stops_during_shutdown_and_disconnection_under_traffic() {
    let mut running = true;
    let mut queue = DeliveryQueue::new(8);
    for _ in 0..100 {
        assert_eq!(
            queue.deliver(&mut running, &RULESET_FREE_FIXTURE, decode),
            0
        );
    }
    running = false;
    assert_eq!(
        queue.deliver(&mut running, &RULESET_FREE_FIXTURE, decode),
        -1
    );
    running = true;
    queue.entries.close_receiver();
    assert_eq!(
        queue.deliver(&mut running, &RULESET_FREE_FIXTURE, decode),
        -1
    );
    assert!(!running);
}

#[test]
fn default_capacity_is_1024_entries() {
    assert_eq!(DEFAULT_EVENT_CAPACITY, 1024);
    let mut collector = Collector::<u64, Source>::new().unwrap();
    for id in 0..1025 {
        assert_eq!(collector.deliver_decoded(Ok(id)), 0);
    }
    for id in 0..1024 {
        assert_eq!(collector.try_recv().unwrap(), id);
    }
    assert!(matches!(collector.try_recv(), Err(TryReceiveError::Empty)));
    assert_eq!(collector.deliver_decoded(Ok(2000)), 0);
    let TryReceiveError::Collector(notice) = collector.try_recv().unwrap_err() else {
        panic!()
    };
    assert_eq!(notice.kind(), CollectorReceiveErrorKind::OutputQueueFull);
    assert_eq!(collector.try_recv().unwrap(), 2000);
}

#[test]
fn notice_takes_no_entry_of_its_own() {
    let mut collector = Collector::<u64, Source>::with_event_capacity(2).unwrap();
    for id in 1..=3 {
        assert_eq!(collector.deliver_decoded(Ok(id)), 0);
    }
    assert_eq!(collector.try_recv().unwrap(), 1);
    assert_eq!(collector.try_recv().unwrap(), 2);
    // The entry that carries the notice leaves room for one more.
    assert_eq!(collector.deliver_decoded(Ok(4)), 0);
    assert_eq!(collector.deliver_decoded(Ok(5)), 0);
    assert!(collector.try_recv().is_err());
    assert_eq!(collector.try_recv().unwrap(), 4);
    assert_eq!(collector.try_recv().unwrap(), 5);
    assert!(matches!(collector.try_recv(), Err(TryReceiveError::Empty)));
}

#[test]
fn last_omission_is_announced_before_the_poll_failure() {
    let mut collector = fake_collector(1);
    assert_eq!(collector.deliver_decoded(Ok(event(1))), 0);
    assert_eq!(collector.deliver_decoded(Ok(event(2))), 0);
    collector.advance(Err(fake_failure("fake poll failure")));
    // The worker has ended the stream; that it has yet to exit does not show.
    assert_eq!(collector.recv_timeout().unwrap(), event(1));
    let ReceiveTimeoutError::Collector(error) = collector.recv_timeout().unwrap_err() else {
        panic!()
    };
    assert_eq!(error.kind(), CollectorReceiveErrorKind::OutputQueueFull);
    let ReceiveTimeoutError::Collector(error) = collector.recv_timeout().unwrap_err() else {
        panic!()
    };
    assert_eq!(error.kind(), CollectorReceiveErrorKind::PollFailure);
    assert_eq!(
        error.message(),
        "failed to poll BPF ring buffer: fake poll failure"
    );
    for round in 0..4 {
        if round == 2 {
            collector.worker_exited();
        }
        assert!(collector.delivery_ready());
        let ReceiveTimeoutError::Collector(error) = collector.recv_timeout().unwrap_err() else {
            panic!()
        };
        assert_eq!(error.kind(), CollectorReceiveErrorKind::WorkerStop);
    }
}

#[test]
fn shutdown_silences_the_poll_failure() {
    let mut collector = fake_collector(2);
    assert_eq!(collector.deliver_decoded(Ok(event(1))), 0);
    collector.request_shutdown();
    assert_eq!(collector.deliver(&sample(2), decode), -1);
    assert_eq!(
        collector.advance(Err(fake_failure("callback stopped the poll"))),
        WorkerStage::Finished
    );
    assert_eq!(collector.try_recv().unwrap(), event(1));
    let TryReceiveError::Collector(error) = collector.try_recv().unwrap_err() else {
        panic!()
    };
    assert_eq!(error.kind(), CollectorReceiveErrorKind::WorkerStop);
}

#[test]
fn poll_goes_on_while_running() {
    let mut collector = fake_collector(1);
    assert_eq!(collector.advance(Ok(())), WorkerStage::Poll);
    assert_eq!(collector.advance(Ok(())), WorkerStage::Poll);
    collector.request_shutdown();
    assert_eq!(collector.advance(Ok(())), WorkerStage::Finished);
    assert_eq!(collector.advance(Ok(())), WorkerStage::Finished);
}

#[test]
fn no_notice_without_omission() {
    let mut collector = Collector::<u64, Source>::with_event_capacity(2).unwrap();
    for id in 0..10 {
        assert_eq!(collector.deliver_decoded(Ok(id)), 0);
        assert_eq!(collector.try_recv().unwrap(), id);
    }
    assert!(matches!(collector.try_recv(), Err(TryReceiveError::Empty)));
}

#[test]
fn omissions_in_a_row_share_one_notice() {
    let mut collector = Collector::<u64, Source>::with_event_capacity(1).unwrap();
    let mut received = vec![];
    for id in 0..6 {
        assert_eq!(collector.deliver_decoded(Ok(id)), 0);
        if id % 3 == 2 {
            while let Some(delivery) = match collector.try_recv() {
                Ok(event) => Some(Ok(event)),
                Err(TryReceiveError::Collector(error)) => Some(Err(error.kind())),
                Err(_) => None,
            } {
                received.push(delivery);
            }
        }
    }
    assert_eq!(
        received,
        vec![Ok(0), Err(CollectorReceiveErrorKind::OutputQueueFull), Ok(3)]
    );
}
