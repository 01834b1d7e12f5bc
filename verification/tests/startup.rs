use landlock_observability::channel::{Channel, TryRecvError, TrySendError};
use landlock_observability::collector::{spawn_failure, startup_failure, Collector};
use landlock_observability::error::{
    failure_message, output_queue_full, receive_error, worker_stop, CollectorReceiveError,
    CollectorReceiveErrorKind, CollectorStartError, CollectorStartErrorKind, ErrorDetail,
    ReceiveTimeoutError, TryReceiveError,
};
use landlock_observability::worker::{WorkerStage, POLL_INTERVAL_MILLIS};

fn failing_at(stage: usize) -> CollectorStartError<&'static str> {
    let mut collector = Collector::<u8, &'static str>::with_event_capacity(4).unwrap();
    for _ in 0..stage {
        assert!(!collector.startup_ready());
        assert!(collector.startup_result("early").is_none());
        collector.advance(Ok(()));
    }
    assert_eq!(
        collector.advance(Err("fake failure")),
        WorkerStage::Finished
    );
    collector.worker_exited();
    assert!(collector.startup_ready());
    let Some(Err(error)) = collector.startup_result("early") else {
        panic!()
    };
    error
}

#[test]
fn first_failing_stage_is_reported() {
    let kinds = [
        CollectorStartErrorKind::Open,
        CollectorStartErrorKind::Load,
        CollectorStartErrorKind::Attach,
        CollectorStartErrorKind::RingSetup,
        CollectorStartErrorKind::RingSetup,
    ];
    for (stage, kind) in kinds.into_iter().enumerate() {
        let error = failing_at(stage);
        assert_eq!(error.kind(), kind);
        assert_eq!(error.source(), Some(&"fake failure"));
    }
}

#[test]
fn startup_succeeds_only_after_every_stage() {
    let mut collector = Collector::<u8, &'static str>::with_event_capacity(4).unwrap();
    assert_eq!(collector.stage(), WorkerStage::Open);
    for _ in 0..5 {
        assert!(collector.startup_result("early").is_none());
        collector.advance(Ok(()));
    }
    assert_eq!(collector.stage(), WorkerStage::Poll);
    assert!(matches!(collector.startup_result("early"), Some(Ok(()))));
    assert!(collector.startup_result("early").is_none());
}

#[test]
fn shutdown_before_the_first_poll_finishes_after_the_report() {
    let mut collector = Collector::<u8, &'static str>::with_event_capacity(4).unwrap();
    for _ in 0..4 {
        collector.advance(Ok(()));
    }
    collector.request_shutdown();
    assert_eq!(collector.advance(Ok(())), WorkerStage::Finished);
    assert!(matches!(collector.startup_result("early"), Some(Ok(()))));
}

#[test]
fn worker_that_stops_without_a_report_is_an_early_stop() {
    let mut collector = Collector::<u8, &'static str>::with_event_capacity(4).unwrap();
    collector.advance(Ok(()));
    collector.worker_exited();
    assert!(collector.startup_ready());
    let Some(Err(error)) = collector.startup_result("receiving on a closed channel") else {
        panic!()
    };
    assert_eq!(error.kind(), CollectorStartErrorKind::EarlyWorkerStop);
    assert_eq!(error.source(), Some(&"receiving on a closed channel"));
    assert_eq!(
        error.message(),
        "failed to complete collector startup: receiving on a closed channel"
    );
}

#[test]
fn startup_failure_is_dropped_when_nobody_waits() {
    let mut startup = Channel::<Result<(), CollectorStartError<u8>>>::new(1);
    startup_failure(&mut startup, CollectorStartErrorKind::Attach, 7);
    let error = startup.try_recv().unwrap().unwrap_err();
    assert_eq!(error.kind(), CollectorStartErrorKind::Attach);
    assert_eq!(error.source(), Some(&7));
    startup.close_receiver();
    startup_failure(&mut startup, CollectorStartErrorKind::Open, 8);
    assert!(startup.try_recv().is_err());
}

#[test]
fn worker_finishes_without_a_poll_when_its_start_is_not_awaited() {
    let mut collector = Collector::<u8, &'static str>::with_event_capacity(4).unwrap();
    for _ in 0..4 {
        collector.advance(Ok(()));
    }
    collector.close_startup();
    assert_eq!(collector.advance(Ok(())), WorkerStage::Finished);
    let Some(Err(error)) = collector.startup_result("early") else {
        panic!()
    };
    assert_eq!(error.kind(), CollectorStartErrorKind::EarlyWorkerStop);
    let Err(TryReceiveError::Collector(error)) = collector.try_recv() else {
        panic!()
    };
    assert_eq!(error.kind(), CollectorReceiveErrorKind::WorkerStop);
}

#[test]
fn failed_stage_is_not_reported_when_its_start_is_not_awaited() {
    let mut collector = Collector::<u8, &'static str>::with_event_capacity(4).unwrap();
    collector.close_startup();
    assert_eq!(
        collector.advance(Err("fake failure")),
        WorkerStage::Finished
    );
    let Some(Err(error)) = collector.startup_result("early") else {
        panic!()
    };
    assert_eq!(error.kind(), CollectorStartErrorKind::EarlyWorkerStop);
}

#[test]
fn startup_is_reported_once() {
    let mut collector = Collector::<u8, &'static str>::with_event_capacity(4).unwrap();
    collector.advance(Err("fake failure"));
    assert_eq!(
        collector.advance(Err("another failure")),
        WorkerStage::Finished
    );
    let Some(Err(error)) = collector.startup_result("early") else {
        panic!()
    };
    assert_eq!(error.source(), Some(&"fake failure"));
    let Some(Err(error)) = collector.startup_result("early") else {
        panic!()
    };
    assert_eq!(error.kind(), CollectorStartErrorKind::EarlyWorkerStop);
}

#[test]
fn spawn_failure_keeps_its_source() {
    let error = spawn_failure("fake spawn failure");
    assert_eq!(error.kind(), CollectorStartErrorKind::Spawn);
    assert_eq!(error.source(), Some(&"fake spawn failure"));
    assert_eq!(
        error.message(),
        "failed to spawn collector worker: fake spawn failure"
    );
}

#[test]
fn zero_capacity_message() {
    let Err(error) = Collector::<u8, &'static str>::with_event_capacity(0) else {
        panic!()
    };
    assert_eq!(
        error.message(),
        "failed to validate collector event capacity: event capacity must be greater than zero"
    );
}

#[test]
fn start_error_descriptions() {
    let expected = [
        (
            CollectorStartErrorKind::InvalidCapacity,
            "validate collector event capacity",
        ),
        (CollectorStartErrorKind::Spawn, "spawn collector worker"),
        (CollectorStartErrorKind::Open, "open embedded BPF object"),
        (CollectorStartErrorKind::Load, "load BPF object"),
        (CollectorStartErrorKind::Attach, "attach BPF programs"),
        (CollectorStartErrorKind::RingSetup, "set up BPF ring buffer"),
        (
            CollectorStartErrorKind::EarlyWorkerStop,
            "complete collector startup",
        ),
    ];
    for (kind, description) in expected {
        assert_eq!(kind.description(), description);
        let error = CollectorStartError::new(kind, "why");
        assert_eq!(error.message(), format!("failed to {description}: why"));
    }
}

#[test]
fn receive_error_descriptions() {
    let expected = [
        (
            CollectorReceiveErrorKind::MalformedSample,
            "decode BPF event sample",
        ),
        (
            CollectorReceiveErrorKind::OutputQueueFull,
            "deliver entries through the full output queue",
        ),
        (
            CollectorReceiveErrorKind::PollFailure,
            "poll BPF ring buffer",
        ),
        (
            CollectorReceiveErrorKind::WorkerStop,
            "receive from the stopped collector worker",
        ),
    ];
    for (kind, description) in expected {
        assert_eq!(kind.description(), description);
        let error: CollectorReceiveError<u8> = receive_error(kind, "why");
        assert_eq!(error.kind(), kind);
        assert!(error.source().is_none());
        assert_eq!(error.message(), format!("failed to {description}: why"));
    }
}

#[test]
fn fixed_receive_errors() {
    let stop: CollectorReceiveError<u8> = worker_stop();
    assert_eq!(
        stop.message(),
        "failed to receive from the stopped collector worker: \
         collector worker is no longer running"
    );
    let notice: CollectorReceiveError<u8> = output_queue_full();
    assert_eq!(
        notice.message(),
        "failed to deliver entries through the full output queue: \
         one or more delivery entries were omitted"
    );
}

#[test]
fn receive_results_display_and_source() {
    let empty = TryReceiveError::<u8>::Empty;
    assert_eq!(empty.message(), "collector output queue is empty");
    assert!(empty.source().is_none());
    let failed = TryReceiveError::Collector(CollectorReceiveError::new(
        CollectorReceiveErrorKind::PollFailure,
        5u8,
    ));
    assert_eq!(failed.message(), "failed to poll BPF ring buffer: 5");
    assert_eq!(failed.source().unwrap().source(), Some(&5));

    let timeout = ReceiveTimeoutError::<u8>::Timeout;
    assert_eq!(timeout.message(), "timed out waiting for collector output");
    assert!(timeout.source().is_none());
    let failed = ReceiveTimeoutError::Collector(CollectorReceiveError::new(
        CollectorReceiveErrorKind::MalformedSample,
        6u8,
    ));
    assert_eq!(failed.message(), "failed to decode BPF event sample: 6");
    assert_eq!(failed.source().unwrap().source(), Some(&6));
}

#[test]
fn details_display_their_source_or_text() {
    assert_eq!(ErrorDetail::Source(42).message(), "42");
    assert_eq!(ErrorDetail::<u8>::Static("text").message(), "text");
    assert_eq!(ErrorDetail::Source(42).source(), Some(&42));
    assert_eq!(ErrorDetail::<u8>::Static("text").source(), None);
    assert_eq!(failure_message("do it", "no"), "failed to do it: no");
}

#[test]
fn channel_is_bounded_and_first_in_first_out() {
    let mut channel = Channel::new(2);
    assert!(!channel.is_settled());
    assert!(channel.try_send('a').is_ok());
    assert!(channel.is_settled());
    assert!(channel.try_send('b').is_ok());
    assert!(matches!(
        channel.try_send('c'),
        Err(TrySendError::Full('c'))
    ));
    assert_eq!(channel.try_recv(), Ok('a'));
    assert!(channel.try_send('d').is_ok());
    channel.close_sender();
    assert_eq!(channel.try_recv(), Ok('b'));
    assert_eq!(channel.try_recv(), Ok('d'));
    assert_eq!(channel.try_recv(), Err(TryRecvError::Disconnected));
    assert!(channel.is_settled());
}

#[test]
fn channel_without_receiver_refuses_even_when_full() {
    let mut channel = Channel::new(1);
    assert!(channel.try_send(1).is_ok());
    channel.close_receiver();
    assert!(matches!(
        channel.try_send(2),
        Err(TrySendError::Disconnected(2))
    ));
}

#[test]
fn worker_polls_for_at_most_100_milliseconds() {
    assert_eq!(POLL_INTERVAL_MILLIS, 100);
}
