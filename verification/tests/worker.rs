use zizq::acks::handle_job;
use zizq::retry::{next_backoff, ReportAction, Reporter};
use zizq::{
    AckEvent, AckPhase, AckState, Client, Dispatch, Duration, Effect, Event, HandlerError,
    JobReport, Phase, Wait, Worker, ZizqError,
};

fn response(status: u16) -> ZizqError {
    ZizqError::Response {
        status,
        message: "m".into(),
    }
}

fn transport() -> ZizqError {
    let e = reqwest::Client::new().get("http://").build().unwrap_err();
    ZizqError::Transport(e)
}

fn client() -> Client {
    Client::builder().url("http://h:1").build().unwrap()
}

fn ms(n: u64) -> Duration {
    Duration::from_millis(n)
}

#[test]
fn backoff_doubles_up_to_thirty_seconds() {
    let mut d = ms(500);
    let mut seen = vec![];
    for _ in 0..8 {
        seen.push(d.as_millis());
        d = next_backoff(d);
    }
    assert_eq!(seen, [500, 1000, 2000, 4000, 8000, 16000, 30000, 30000]);
}

#[test]
fn transient_reports_are_retried_and_others_end() {
    let mut r = Reporter::new();
    assert_eq!(r.settle(&Err(transport())), ReportAction::RetryAfter(ms(500)));
    assert_eq!(r.settle(&Err(response(503))), ReportAction::RetryAfter(ms(1000)));
    assert_eq!(r.backoff, ms(2000));
    assert_eq!(r.settle(&Err(response(404))), ReportAction::Drop);
    assert_eq!(r.settle(&Err(ZizqError::Decode("x".into()))), ReportAction::Drop);
    assert_eq!(r.settle(&Ok(())), ReportAction::Done);
    assert_eq!(r.backoff, ms(2000));
}

#[test]
fn handler_outcomes_become_reports() {
    assert!(matches!(handle_job("j".into(), Ok(())), JobReport::Ack(id) if id == "j"));
    let e = HandlerError {
        error_type: "E".into(),
        message: "boom".into(),
    };
    assert_eq!(e.to_text(), "boom (E)");
    match handle_job("j".into(), Err(e)) {
        JobReport::Failure {
            id,
            message,
            error_type,
        } => {
            assert_eq!(id, "j");
            assert_eq!(message, "boom");
            assert_eq!(error_type, "E");
        }
        other => panic!("unexpected report {other:?}"),
    }
}

#[test]
fn a_loop_never_runs_more_handlers_than_allowed() {
    let mut d = Dispatch::new(2, true);
    assert_eq!(d.waits_for(), Wait::Connection);
    assert!(matches!(d.step::<u32>(Event::Connected), Effect::Continue));
    assert_eq!(d.waits_for(), Wait::Job);
    assert!(matches!(d.step(Event::Received(7)), Effect::Spawn(7)));
    assert!(matches!(d.step(Event::Received(8)), Effect::Spawn(8)));
    assert_eq!(d.inflight, 2);
    assert_eq!(d.waits_for(), Wait::Slot);
    assert!(matches!(d.step::<u32>(Event::SlotFreed), Effect::Continue));
    assert_eq!(d.waits_for(), Wait::Job);
    // A reconnect does not wait for running handlers.
    assert!(matches!(d.step::<u32>(Event::StreamEnded), Effect::Continue));
    assert_eq!(d.waits_for(), Wait::Sleep(ms(500)));
    assert!(matches!(d.step::<u32>(Event::Elapsed), Effect::Continue));
    assert!(matches!(d.step::<u32>(Event::Connected), Effect::Continue));
    assert_eq!(d.inflight, 1);
}

#[test]
fn failed_connects_wait_longer_each_time() {
    let mut d = Dispatch::new(1, true);
    for wait in [500, 1000, 2000, 4000, 8000, 16000, 30000, 30000] {
        assert!(matches!(
            d.step::<u32>(Event::ConnectFailed(response(503))),
            Effect::Continue
        ));
        assert_eq!(d.waits_for(), Wait::Sleep(ms(wait)));
        d.step::<u32>(Event::Elapsed);
    }
    d.step::<u32>(Event::Connected);
    d.step::<u32>(Event::StreamFailed(transport()));
    assert_eq!(d.waits_for(), Wait::Sleep(ms(500)));
}

#[test]
fn a_client_error_on_connecting_is_final() {
    let mut d = Dispatch::new(1, true);
    match d.step::<u32>(Event::ConnectFailed(response(401))) {
        Effect::Drain {
            keep_stream,
            result,
        } => {
            assert!(!keep_stream);
            assert_eq!(result.unwrap_err().status(), Some(401));
        }
        other => panic!("unexpected effect {other:?}"),
    }
    assert_eq!(d.waits_for(), Wait::Drain);
    assert!(matches!(
        d.step::<u32>(Event::Drained),
        Effect::Stop { abort: false }
    ));
    assert_eq!(d.phase, Phase::Stopped);
    assert_eq!(d.waits_for(), Wait::Nothing);
}

#[test]
fn without_reconnecting_the_stream_ends_the_loop() {
    let started = || {
        let mut d = Dispatch::new(1, false);
        d.step::<u32>(Event::Connected);
        d
    };
    assert!(matches!(
        started().step::<u32>(Event::StreamEnded),
        Effect::Drain {
            keep_stream: false,
            result: Ok(())
        }
    ));
    assert!(matches!(
        started().step::<u32>(Event::StreamFailed(transport())),
        Effect::Drain {
            keep_stream: false,
            result: Err(ZizqError::Transport(_))
        }
    ));
    let mut d = Dispatch::new(1, false);
    assert!(matches!(
        d.step::<u32>(Event::ConnectFailed(response(503))),
        Effect::Drain {
            keep_stream: false,
            result: Err(_)
        }
    ));
}

#[test]
fn a_shutdown_keeps_an_open_stream_during_the_drain() {
    let mut d = Dispatch::new(1, true);
    d.step::<u32>(Event::Connected);
    assert!(matches!(
        d.step::<u32>(Event::Shutdown),
        Effect::Drain {
            keep_stream: true,
            result: Ok(())
        }
    ));
    assert!(matches!(
        d.step::<u32>(Event::DeadlinePassed),
        Effect::Stop { abort: true }
    ));
    let mut d = Dispatch::new(1, true);
    d.step::<u32>(Event::ConnectFailed(transport()));
    assert!(matches!(
        d.step::<u32>(Event::Shutdown),
        Effect::Drain {
            keep_stream: false,
            result: Ok(())
        }
    ));
}

#[test]
fn acks_are_batched_and_retried() {
    let mut a = AckState::new();
    a.step(AckEvent::Got("1".into()));
    a.step(AckEvent::Got("2".into()));
    a.step(AckEvent::Empty);
    assert_eq!(a.phase, AckPhase::Sending);
    assert_eq!(a.batch, ["1", "2"]);
    a.step(AckEvent::Sent(Err(response(500))));
    assert_eq!(a.phase, AckPhase::Sleeping);
    assert_eq!(a.wait, ms(500));
    a.step(AckEvent::Elapsed);
    assert_eq!(a.phase, AckPhase::Sending);
    assert_eq!(a.batch, ["1", "2"]);
    a.step(AckEvent::Sent(Err(transport())));
    assert_eq!(a.wait, ms(1000));
    a.step(AckEvent::Elapsed);
    a.step(AckEvent::Sent(Ok(())));
    assert_eq!(a.phase, AckPhase::Idle);
    assert!(a.batch.is_empty());
    // The next batch starts its waits over.
    a.step(AckEvent::Got("3".into()));
    a.step(AckEvent::Empty);
    a.step(AckEvent::Sent(Err(response(503))));
    assert_eq!(a.wait, ms(500));
    a.step(AckEvent::Elapsed);
    a.step(AckEvent::Sent(Err(response(400))));
    assert_eq!(a.phase, AckPhase::Idle);
    a.step(AckEvent::Closed);
    assert_eq!(a.phase, AckPhase::Stopped);
}

#[test]
fn a_worker_needs_a_client_and_a_handler() {
    assert!(matches!(
        Worker::<u32>::builder().build(),
        Err(ZizqError::MissingClient)
    ));
    assert!(matches!(
        Worker::<u32>::builder().handler(1).build(),
        Err(ZizqError::MissingClient)
    ));
    assert!(matches!(
        Worker::<u32>::builder().client(client()).build(),
        Err(ZizqError::MissingHandler)
    ));
}

#[test]
fn worker_defaults() {
    let w = Worker::builder().client(client()).handler(7).build().unwrap();
    assert_eq!(w.handler, 7);
    assert_eq!(w.concurrency, 1);
    assert_eq!(w.prefetch, 1);
    assert!(w.reconnect);
    assert_eq!(w.shutdown_timeout, Duration::from_secs(60));
    assert!(w.queues.is_empty());
    assert_eq!(w.run(), Dispatch::new(1, true));
}

#[test]
fn concurrency_sets_the_prefetch_unless_it_was_set() {
    let build = |b: zizq::WorkerBuilder<u32>| b.client(client()).handler(1).build().unwrap();
    let w = build(Worker::builder().concurrency(16));
    assert_eq!((w.concurrency, w.prefetch), (16, 16));
    let w = build(Worker::builder().prefetch(4).concurrency(16));
    assert_eq!((w.concurrency, w.prefetch), (16, 4));
    let w = build(Worker::builder().concurrency(0));
    assert_eq!((w.concurrency, w.prefetch), (1, 1));
    let w = build(Worker::builder().concurrency(8).concurrency(9));
    assert_eq!((w.concurrency, w.prefetch), (9, 9));
    let w = build(Worker::builder().concurrency(8).prefetch(4).concurrency(9));
    assert_eq!((w.concurrency, w.prefetch), (9, 4));
}

#[test]
fn a_worker_takes_from_its_queues() {
    let w = Worker::builder()
        .client(client())
        .handler(1)
        .queues(&["a", "b"])
        .prefetch(3)
        .reconnect(false)
        .shutdown_timeout(Duration::from_secs(1))
        .build()
        .unwrap();
    assert_eq!(
        w.client.url(&w.take().request()),
        "http://h:1/jobs/take?queue=a%2Cb&prefetch=3"
    );
    assert!(!w.reconnect);
    assert_eq!(w.shutdown_timeout, Duration::from_secs(1));
}
