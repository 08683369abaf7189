use kitu::ecs::{ComponentRegistry, RecordingSystem, System};
use kitu::error::KituError;
use kitu::osc::OscMessage;
use kitu::runtime::{build_runtime, Runtime, RuntimeConfig};
use kitu::tick::Tick;
use kitu::transport::{LocalChannel, Transport, TransportEvent};
use std::sync::{Arc, Mutex};

struct FailingTransport;

impl Transport for FailingTransport {
    fn send(&mut self, _message: OscMessage) -> Result<(), KituError> {
        Err(KituError::NotImplemented("send".into()))
    }

    fn poll_event(&mut self) -> Option<TransportEvent> {
        None
    }
}

struct Counting {
    events: Vec<TransportEvent>,
    polls: Arc<Mutex<usize>>,
}

impl Transport for Counting {
    fn send(&mut self, _message: OscMessage) -> Result<(), KituError> {
        Ok(())
    }

    fn poll_event(&mut self) -> Option<TransportEvent> {
        *self.polls.lock().unwrap() += 1;
        if self.events.is_empty() {
            None
        } else {
            Some(self.events.remove(0))
        }
    }
}

struct Noting {
    seen: Arc<Mutex<Vec<u64>>>,
    fails_at: u64,
}

impl System for Noting {
    fn run(&mut self, _components: &mut ComponentRegistry, tick: Tick) -> Result<(), KituError> {
        self.seen.lock().unwrap().push(tick.get());
        if tick.get() == self.fails_at {
            Err(KituError::InvalidInput("boom"))
        } else {
            Ok(())
        }
    }
}

#[test]
fn runtime_advances_ticks() {
    let mut runtime = build_runtime(LocalChannel::default());
    assert_eq!(runtime.current_tick().get(), 0);
    runtime.tick_once().unwrap();
    assert_eq!(runtime.current_tick().get(), 1);
}

#[test]
fn runtime_processes_multiple_ticks() {
    let mut runtime = build_runtime(LocalChannel::default());
    runtime.run_for_ticks(3).unwrap();
    assert_eq!(runtime.current_tick().get(), 3);
}

#[test]
fn tick_once_returns_error_when_dispatch_fails() {
    let mut runtime = build_runtime(FailingTransport);
    assert!(runtime.tick_once().is_ok());
}

#[test]
fn runtime_starts_at_tick_zero_with_its_settings() {
    let runtime = Runtime::new(RuntimeConfig { tick_rate_hz: 30 }, LocalChannel::connected());
    assert_eq!(runtime.config().tick_rate_hz, 30);
    assert_eq!(runtime.config(), RuntimeConfig { tick_rate_hz: 30 });
    assert_eq!(runtime.current_tick(), Tick::start());
    let built = build_runtime(LocalChannel::connected());
    assert_eq!(built.config().tick_rate_hz, 60);
    assert_eq!(RuntimeConfig::default_60hz(), RuntimeConfig { tick_rate_hz: 60 });
}

#[test]
fn n_cycles_from_the_start_reach_tick_n() {
    for n in [0u64, 1, 2, 5, 64] {
        let mut runtime = build_runtime(LocalChannel::connected());
        for _ in 0..n {
            runtime.tick_once().unwrap();
        }
        assert_eq!(runtime.current_tick().get(), n);
        let mut other = build_runtime(LocalChannel::connected());
        other.run_for_ticks(n).unwrap();
        assert_eq!(other.current_tick().get(), n);
    }
}

#[test]
fn a_cycle_drains_every_waiting_event() {
    let polls = Arc::new(Mutex::new(0));
    let events = vec![
        TransportEvent::Connected,
        TransportEvent::Disconnected,
        TransportEvent::Connected,
    ];
    let mut runtime = build_runtime(Counting { events, polls: polls.clone() });
    runtime.tick_once().unwrap();
    assert_eq!(*polls.lock().unwrap(), 4);
    runtime.tick_once().unwrap();
    assert_eq!(*polls.lock().unwrap(), 5);
    assert_eq!(runtime.current_tick().get(), 2);
}

#[test]
fn failing_system_leaves_the_tick_and_the_transport_untouched() {
    let polls = Arc::new(Mutex::new(0));
    let seen = Arc::new(Mutex::new(Vec::new()));
    let mut runtime = build_runtime(Counting {
        events: vec![TransportEvent::Connected],
        polls: polls.clone(),
    });
    runtime.world_mut().schedule_system(Noting { seen: seen.clone(), fails_at: 0 });
    runtime.world_mut().schedule_system(Noting { seen: seen.clone(), fails_at: 9 });
    assert_eq!(runtime.tick_once(), Err(KituError::InvalidInput("boom")));
    assert_eq!(runtime.current_tick().get(), 0);
    assert_eq!(*polls.lock().unwrap(), 0);
    assert_eq!(*seen.lock().unwrap(), vec![0]);
    runtime.tick_once().unwrap();
    assert_eq!(runtime.current_tick().get(), 1);
    assert_eq!(*seen.lock().unwrap(), vec![0, 0]);
    assert_eq!(*polls.lock().unwrap(), 2);
}

#[test]
fn run_for_ticks_stops_at_the_first_failure() {
    let seen = Arc::new(Mutex::new(Vec::new()));
    let mut runtime = build_runtime(LocalChannel::connected());
    runtime.run_for_ticks(2).unwrap();
    runtime.world_mut().schedule_system(Noting { seen: seen.clone(), fails_at: 2 });
    assert_eq!(runtime.run_for_ticks(5), Err(KituError::InvalidInput("boom")));
    assert_eq!(runtime.current_tick().get(), 2);
    assert_eq!(*seen.lock().unwrap(), vec![2]);
    runtime.run_for_ticks(5).unwrap();
    assert_eq!(runtime.current_tick().get(), 7);
}

#[test]
fn systems_run_for_the_tick_of_their_cycle() {
    let seen = Arc::new(Mutex::new(Vec::new()));
    let mut runtime = build_runtime(LocalChannel::connected());
    for _ in 0..3 {
        runtime.world_mut().schedule_system(Noting { seen: seen.clone(), fails_at: u64::MAX });
        runtime.world_mut().schedule_system(RecordingSystem::default());
        runtime.tick_once().unwrap();
    }
    assert_eq!(*seen.lock().unwrap(), vec![0, 1, 2]);
}

#[test]
fn world_is_reached_through_the_runtime() {
    let mut runtime = build_runtime(LocalChannel::default());
    runtime.world_mut().register_component("Transform").unwrap();
    assert!(runtime.world_mut().register_component("Transform").is_err());
    assert_eq!(
        runtime.world_mut().registered_components(),
        vec!["Transform".to_string()]
    );
}
