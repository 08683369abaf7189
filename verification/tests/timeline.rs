use kitu::tick::Tick;
use kitu::timeline::{Timeline, TimelineStep};

#[test]
fn parses_emit_and_wait_steps() {
    let script = "emit: start\nwait:2\nemit: end";
    let mut timeline = Timeline::parse(script).unwrap();
    assert_eq!(
        timeline.next_step(Tick::start()),
        Some(TimelineStep::Emit("start".into()))
    );
    assert_eq!(
        timeline.next_step(Tick::start()),
        Some(TimelineStep::Wait(2))
    );
    assert_eq!(
        timeline.next_step(Tick::start()),
        Some(TimelineStep::Emit("end".into()))
    );
    assert!(timeline.is_finished());
}

#[test]
fn unknown_directives_error() {
    let script = "noop";
    assert!(Timeline::parse(script).is_err());
}

#[test]
fn three_steps_come_out_in_order_and_finish_the_timeline() {
    let mut timeline = Timeline::parse("emit:start\nwait:2\nemit:end").unwrap();
    assert_eq!(timeline.len(), 3);
    assert!(!timeline.is_finished());
    assert_eq!(
        timeline.next_step(Tick::start()),
        Some(TimelineStep::Emit("start".into()))
    );
    assert!(!timeline.is_finished());
    assert_eq!(timeline.next_step(Tick::start().advance_by(9)), Some(TimelineStep::Wait(2)));
    assert!(!timeline.is_finished());
    assert_eq!(timeline.len(), 1);
    assert_eq!(
        timeline.next_step(Tick::start()),
        Some(TimelineStep::Emit("end".into()))
    );
    assert!(timeline.is_finished());
    assert!(timeline.is_empty());
    assert_eq!(timeline.next_step(Tick::start()), None);
    assert_eq!(timeline.next_step(Tick::start()), None);
    assert_eq!(timeline.len(), 0);
}

#[test]
fn bogus_script_is_invalid_input() {
    assert_eq!(
        Timeline::parse("bogus"),
        Err(kitu::error::KituError::InvalidInput("unknown directive"))
    );
}

#[test]
fn one_bad_line_fails_the_whole_script() {
    assert_eq!(
        Timeline::parse("emit:a\nwait:1\nnoop\nemit:b"),
        Err(kitu::error::KituError::InvalidInput("unknown directive"))
    );
    assert_eq!(
        Timeline::parse("emit:a\nwait:soon\nnoop"),
        Err(kitu::error::KituError::InvalidInput("wait expects integer"))
    );
    assert_eq!(
        Timeline::parse("noop\nwait:soon"),
        Err(kitu::error::KituError::InvalidInput("unknown directive"))
    );
}

#[test]
fn wait_takes_a_number_that_fits_in_sixty_four_bits() {
    let steps = |script: &str| Timeline::parse(script).map(|mut t| t.next_step(Tick::start()));
    assert_eq!(steps("wait:0"), Ok(Some(TimelineStep::Wait(0))));
    assert_eq!(steps("wait: 007 "), Ok(Some(TimelineStep::Wait(7))));
    assert_eq!(steps("wait:+5"), Ok(Some(TimelineStep::Wait(5))));
    assert_eq!(
        steps("wait:18446744073709551615"),
        Ok(Some(TimelineStep::Wait(u64::MAX)))
    );
    for bad in [
        "wait:",
        "wait: ",
        "wait:-1",
        "wait:+",
        "wait:++1",
        "wait:1 2",
        "wait:1.5",
        "wait:0x10",
        "wait:1_000",
        "wait:18446744073709551616",
        "wait:99999999999999999999999999",
        "wait:٣",
    ] {
        assert_eq!(
            steps(bad),
            Err(kitu::error::KituError::InvalidInput("wait expects integer")),
            "{bad}"
        );
    }
}

#[test]
fn labels_are_trimmed_and_may_be_empty() {
    let mut timeline = Timeline::parse("  emit:  a b  \nemit:\n\temit:\t\nemit:emit:x").unwrap();
    assert_eq!(timeline.next_step(Tick::start()), Some(TimelineStep::Emit("a b".into())));
    assert_eq!(timeline.next_step(Tick::start()), Some(TimelineStep::Emit(String::new())));
    assert_eq!(timeline.next_step(Tick::start()), Some(TimelineStep::Emit(String::new())));
    assert_eq!(timeline.next_step(Tick::start()), Some(TimelineStep::Emit("emit:x".into())));
    assert!(timeline.is_finished());
}

#[test]
fn blank_lines_and_line_endings_do_not_count() {
    let mut timeline = Timeline::parse("\n\n  \r\nemit:a\r\n\r\nwait:3\r\n\n").unwrap();
    assert_eq!(timeline.len(), 2);
    assert_eq!(timeline.next_step(Tick::start()), Some(TimelineStep::Emit("a".into())));
    assert_eq!(timeline.next_step(Tick::start()), Some(TimelineStep::Wait(3)));
    assert!(Timeline::parse("").unwrap().is_finished());
    assert!(Timeline::parse(" \n\t\n").unwrap().is_finished());
    assert!(Timeline::default().is_finished());
    let mut wide = Timeline::parse("\u{3000}emit:\u{a0}x\u{2003}").unwrap();
    assert_eq!(wide.next_step(Tick::start()), Some(TimelineStep::Emit("x".into())));
}

#[test]
fn directives_are_spelled_exactly() {
    for bad in ["Emit:a", "emit :a", "emit", "wait", "# note", "emit;a", "e mit:a", "WAIT:1"] {
        assert_eq!(
            Timeline::parse(bad),
            Err(kitu::error::KituError::InvalidInput("unknown directive")),
            "{bad}"
        );
    }
}

#[test]
fn parsing_agrees_with_the_standard_line_and_number_reading() {
    let scripts = [
        "emit: start\nwait:2\nemit: end",
        "emit:a\r\nwait:10\r\nemit:b\r",
        "wait:1\n\nwait:2\n",
        "emit:\u{85}x\u{85}\nwait:\u{2009}4\u{2009}",
        "emit:a\rb\nwait:3",
        "wait:12\r\r\nemit:z",
    ];
    for script in scripts {
        let mut expected = Vec::new();
        for line in script.lines() {
            let trimmed = line.trim();
            if trimmed.is_empty() {
                continue;
            }
            if let Some(rest) = trimmed.strip_prefix("emit:") {
                expected.push(TimelineStep::Emit(rest.trim().to_string()));
            } else if let Some(rest) = trimmed.strip_prefix("wait:") {
                expected.push(TimelineStep::Wait(rest.trim().parse().unwrap()));
            }
        }
        let mut timeline = Timeline::parse(script).unwrap();
        let mut got = Vec::new();
        while let Some(step) = timeline.next_step(Tick::start()) {
            got.push(step);
        }
        assert_eq!(got, expected, "{script:?}");
    }
}
