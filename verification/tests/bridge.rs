use pumpkin_embed::bridge::{
    first_panic_step, first_step, pumpkin_log_count, pumpkin_logs_since, Bridge, PanicStep,
    StartOutcome, StartStep,
};
use pumpkin_embed::stats::pumpkin_stats_json;

fn loaded(java_enabled: bool) -> StartOutcome<u32> {
    StartOutcome::Loaded {
        java_enabled,
        java_address: "0.0.0.0:25565".to_owned(),
        max_players: 20,
    }
}

fn failed(error: &str) -> StartOutcome<u32> {
    StartOutcome::Failed { error: error.to_owned() }
}

/// Takes a run as far as the step that creates the server or probes for it.
fn configured(bridge: &mut Bridge<u32>, java_enabled: bool) -> StartStep {
    let mut step = first_step();
    while !matches!(step, StartStep::LoadConfig) {
        step = bridge.start_next(step, StartOutcome::Done);
    }
    bridge.start_next(step, loaded(java_enabled))
}

#[test]
fn a_run_goes_through_every_step_in_order() {
    let mut bridge: Bridge<u32> = Bridge::new();
    let step = bridge.start_next(StartStep::ResetState, StartOutcome::Done);
    assert!(matches!(step, StartStep::CaptureOutput));
    let step = bridge.start_next(step, StartOutcome::Done);
    assert!(matches!(step, StartStep::HookPanics));
    let step = bridge.start_next(step, StartOutcome::Done);
    assert!(matches!(step, StartStep::EnterDirectory));
    let step = bridge.start_next(step, StartOutcome::Done);
    assert!(matches!(step, StartStep::BuildRuntime));
    let step = bridge.start_next(step, StartOutcome::Done);
    assert!(matches!(step, StartStep::LoadConfig));
    let step = bridge.start_next(step, loaded(true));
    assert!(matches!(&step, StartStep::ProbeAddress { address } if address == "0.0.0.0:25565"));
    assert_eq!(bridge.max_players(), 20);
    let step = bridge.start_next(step, StartOutcome::Done);
    assert!(matches!(step, StartStep::CreateServer));
    assert_eq!(bridge.active_server(), None);
    let step = bridge.start_next(step, StartOutcome::Created { server: 5 });
    assert!(matches!(step, StartStep::InitPlugins));
    assert_eq!(bridge.active_server(), Some(&5));
    let step = bridge.start_next(step, StartOutcome::Done);
    assert!(matches!(step, StartStep::Serve));
    assert_eq!(bridge.active_server(), Some(&5));
    let step = bridge.start_next(step, StartOutcome::Done);
    assert!(matches!(step, StartStep::Finished));
    assert_eq!(bridge.active_server(), None);
    assert_eq!(pumpkin_log_count(&bridge), 0);
}

#[test]
fn a_second_run_skips_what_was_set_up() {
    let mut bridge: Bridge<u32> = Bridge::new();
    configured(&mut bridge, true);
    let step = bridge.start_next(StartStep::ResetState, StartOutcome::Done);
    assert!(matches!(step, StartStep::EnterDirectory));
}

#[test]
fn a_hook_is_installed_though_output_was_captured_before() {
    let mut bridge: Bridge<u32> = Bridge::new();
    assert!(bridge.start_log_capture());
    assert!(!bridge.start_log_capture());
    let step = bridge.start_next(StartStep::ResetState, StartOutcome::Done);
    assert!(matches!(step, StartStep::HookPanics));
    assert!(!bridge.install_panic_hook());
}

#[test]
fn a_taken_port_is_reported_and_ends_the_run() {
    let mut bridge: Bridge<u32> = Bridge::new();
    let step = configured(&mut bridge, true);
    let step = bridge.start_next(step, failed("Address already in use (os error 98)"));
    assert!(matches!(step, StartStep::Finished));
    assert_eq!(
        pumpkin_logs_since(&bridge, 0),
        "ERROR Cannot start server: failed to bind 0.0.0.0:25565: \
         Address already in use (os error 98). Is another server instance already running?"
    );
    assert_eq!(bridge.active_server(), None);
}

#[test]
fn a_server_that_cannot_be_created_is_reported_and_ends_the_run() {
    let mut bridge: Bridge<u32> = Bridge::new();
    let step = configured(&mut bridge, false);
    assert!(matches!(step, StartStep::CreateServer));
    let step = bridge.start_next(step, failed("no world"));
    assert!(matches!(step, StartStep::Finished));
    assert_eq!(pumpkin_logs_since(&bridge, 0), "ERROR Cannot start server: no world");
    assert_eq!(pumpkin_log_count(&bridge), 1);
}

#[test]
fn steps_accept_only_their_outcomes() {
    let probe = StartStep::ProbeAddress { address: "a".to_owned() };
    assert!(probe.accepts(&StartOutcome::<u32>::Done));
    assert!(probe.accepts(&failed("e")));
    assert!(!probe.accepts(&loaded(true)));
    assert!(StartStep::LoadConfig.accepts(&loaded(false)));
    assert!(!StartStep::LoadConfig.accepts(&StartOutcome::<u32>::Done));
    assert!(StartStep::CreateServer.accepts(&StartOutcome::Created { server: 1u32 }));
    assert!(!StartStep::CreateServer.accepts(&StartOutcome::<u32>::Done));
    assert!(StartStep::Serve.accepts(&StartOutcome::<u32>::Done));
    assert!(!StartStep::Serve.accepts(&failed("e")));
    assert!(!StartStep::Finished.accepts(&StartOutcome::<u32>::Done));
}

#[test]
fn captured_lines_are_trimmed_and_blank_ones_skipped() {
    let mut bridge: Bridge<u32> = Bridge::new();
    assert!(bridge.capture_line(Some("  one \r")));
    assert!(bridge.capture_line(Some(" \t ")));
    assert!(bridge.capture_line(Some("")));
    assert!(bridge.capture_line(Some("two  words")));
    assert!(!bridge.capture_line(None));
    assert_eq!(pumpkin_log_count(&bridge), 2);
    assert_eq!(pumpkin_logs_since(&bridge, 0), "one\ntwo  words");
    assert_eq!(pumpkin_logs_since(&bridge, 1), "two  words");
}

#[test]
fn logs_with_a_nul_are_not_handed_out() {
    let mut bridge: Bridge<u32> = Bridge::new();
    bridge.buffer_log_line("a\0b".to_owned());
    bridge.buffer_log_line("c".to_owned());
    assert_eq!(pumpkin_log_count(&bridge), 2);
    assert_eq!(pumpkin_logs_since(&bridge, 0), "");
    assert_eq!(pumpkin_logs_since(&bridge, 1), "c");
}

#[test]
fn a_panic_is_logged_before_its_report_is_saved() {
    for captured in [true, false] {
        let mut bridge: Bridge<u32> = Bridge::new();
        let mut steps = Vec::new();
        let mut step = first_panic_step();
        while step != PanicStep::Finished {
            if step == PanicStep::SaveReport {
                assert_eq!(pumpkin_logs_since(&bridge, 0), "PANIC: at the disco");
            } else {
                assert_eq!(pumpkin_log_count(&bridge), 0);
            }
            steps.push(step);
            step = bridge.panic_next(step, captured, "at the disco");
        }
        let mut expected = vec![
            PanicStep::WriteFallback,
            PanicStep::CaptureBacktrace,
            PanicStep::BuildReport,
            PanicStep::SaveReport,
        ];
        if !captured {
            expected.insert(2, PanicStep::ForceBacktrace);
        }
        assert_eq!(steps, expected);
        assert_eq!(bridge.panic_next(step, captured, ""), PanicStep::Finished);
        assert_eq!(pumpkin_log_count(&bridge), 1);
    }
}

#[test]
fn a_run_begins_with_the_reset_and_never_returns_to_it() {
    let mut bridge: Bridge<u32> = Bridge::new();
    for run in 0..3u32 {
        let mut step = first_step();
        assert!(matches!(step, StartStep::ResetState));
        let mut steps = 0;
        while !matches!(step, StartStep::Finished) {
            let outcome = match step {
                StartStep::LoadConfig => loaded(true),
                StartStep::CreateServer => StartOutcome::Created { server: run },
                _ => StartOutcome::Done,
            };
            if matches!(step, StartStep::Serve) {
                assert_eq!(bridge.active_server(), Some(&run));
            }
            step = bridge.start_next(step, outcome);
            steps += 1;
            assert!(!matches!(step, StartStep::ResetState));
        }
        assert_eq!(steps, if run == 0 { 10 } else { 8 });
        assert_eq!(pumpkin_log_count(&bridge), 0);
    }
}

#[test]
fn a_run_after_a_failed_one_serves() {
    let mut bridge: Bridge<u32> = Bridge::new();
    let step = configured(&mut bridge, true);
    bridge.start_next(step, failed("taken"));
    let step = configured(&mut bridge, false);
    let step = bridge.start_next(step, StartOutcome::Created { server: 9 });
    let step = bridge.start_next(step, StartOutcome::Done);
    assert!(matches!(step, StartStep::Serve));
    assert_eq!(bridge.active_server(), Some(&9));
    assert_eq!(pumpkin_log_count(&bridge), 1);
}

#[test]
fn running_stats_carry_the_configured_maximum() {
    let mut bridge: Bridge<u32> = Bridge::new();
    configured(&mut bridge, true);
    let stats = bridge.running_stats(Some(100), "19.8".to_owned(), "12.34".to_owned(), 3);
    assert_eq!(
        pumpkin_stats_json(Some(stats)),
        r#"{"running":true,"tps":19.8,"mspt":12.34,"online":3,"max":20}"#
    );
    let stats = bridge.running_stats(None, String::new(), String::new(), 0);
    assert_eq!(
        pumpkin_stats_json(Some(stats)),
        r#"{"running":true,"tps":0.0,"mspt":0.00,"online":0,"max":20}"#
    );
}
