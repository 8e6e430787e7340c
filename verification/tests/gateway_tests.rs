use maude_gateway::framing::frame_response;
use maude_gateway::gateway::encode_command;
use maude_gateway::gateway::launch_flags;
use maude_gateway::gateway::quit_line;
use maude_gateway::gateway::start_decision;
use maude_gateway::gateway::GatewayError;
use maude_gateway::gateway::ProbeStatus;
use maude_gateway::gateway::SpawnOutcome;
use maude_gateway::gateway::STOP_GRACE_MS;

#[test]
fn failed_spawn_yields_spawn_error_and_no_handle() {
    match start_decision(SpawnOutcome::SpawnFailed) {
        Err(e) => assert_eq!(e, GatewayError::SpawnFailure),
        Ok(_) => panic!("no handle may exist after a failed spawn"),
    }
}

#[test]
fn missing_pipes_yield_stream_acquisition_error() {
    assert_eq!(
        start_decision(SpawnOutcome::StdinUnavailable).unwrap_err(),
        GatewayError::StreamAcquisitionFailure
    );
    assert_eq!(
        start_decision(SpawnOutcome::StdoutUnavailable).unwrap_err(),
        GatewayError::StreamAcquisitionFailure
    );
}

#[test]
fn successful_spawn_yields_a_live_handle() {
    let p = start_decision(SpawnOutcome::Spawned).unwrap();
    assert!(p.is_alive(ProbeStatus::Running));
}

#[test]
fn command_encoding_appends_exactly_one_terminator() {
    assert_eq!(encode_command(&b"2 + 2 .".to_vec()), b"2 + 2 .\n".to_vec());
    assert_eq!(encode_command(&Vec::new()), b"\n".to_vec());
}

#[test]
fn execute_is_rejected_on_a_stopped_handle() {
    let mut p = start_decision(SpawnOutcome::Spawned).unwrap();
    p.mark_stopped();
    assert_eq!(
        p.prepare_command(&b"red x .".to_vec()),
        Err(GatewayError::HandleTerminated)
    );
}

#[test]
fn alive_is_true_while_running_and_repeatable() {
    let p = start_decision(SpawnOutcome::Spawned).unwrap();
    assert!(p.is_alive(ProbeStatus::Running));
    assert!(p.is_alive(ProbeStatus::Running));
    assert!(p.is_alive(ProbeStatus::Running));
}

#[test]
fn alive_is_false_once_the_child_exited_or_the_probe_failed() {
    let p = start_decision(SpawnOutcome::Spawned).unwrap();
    assert!(!p.is_alive(ProbeStatus::Exited));
    assert!(!p.is_alive(ProbeStatus::ProbeFailed));
}

#[test]
fn alive_is_false_after_stop_whatever_the_probe_says() {
    let mut p = start_decision(SpawnOutcome::Spawned).unwrap();
    p.mark_stopped();
    assert!(!p.is_alive(ProbeStatus::Running));
    assert!(!p.is_alive(ProbeStatus::Exited));
    assert!(!p.is_alive(ProbeStatus::ProbeFailed));
}

#[test]
fn quit_line_is_the_quit_command_and_terminator() {
    assert_eq!(quit_line(), b"quit\n".to_vec());
}

#[test]
fn launch_flags_are_the_fixed_interactive_set() {
    assert_eq!(
        launch_flags(),
        vec!["-no-banner", "-no-wrap", "-no-advise", "-interactive"]
    );
}

#[test]
fn grace_period_is_one_hundred_milliseconds() {
    assert_eq!(STOP_GRACE_MS, 100);
}

#[test]
fn every_error_kind_describes_itself() {
    assert_eq!(GatewayError::SpawnFailure.describe(), "spawn failed");
    assert_eq!(
        GatewayError::StreamAcquisitionFailure.describe(),
        "failed to get stream"
    );
    assert_eq!(GatewayError::LockFailure.describe(), "lock failed");
    assert_eq!(GatewayError::WriteFailure.describe(), "write failed");
    assert_eq!(GatewayError::FlushFailure.describe(), "flush failed");
    assert_eq!(GatewayError::ReadFailure.describe(), "read failed");
    assert_eq!(GatewayError::HandleTerminated.describe(), "handle terminated");
}

#[test]
fn full_session_scenario() {
    // Start: the spawn succeeds and the startup banner is consumed up to
    // the first prompt.
    let mut p = start_decision(SpawnOutcome::Spawned).unwrap();
    let banner = vec![b"some banner text\n".to_vec(), b"Maude> ".to_vec()];
    assert_eq!(frame_response(&banner), b"some banner text".to_vec());

    // Execute: the command goes out as exactly one line and the response is
    // everything before the next prompt, trimmed.
    let line = p.prepare_command(&b"2 + 2 .".to_vec()).unwrap();
    assert_eq!(line, b"2 + 2 .\n".to_vec());
    let output = vec![
        b"reduce in CONVERSION : 2 + 2 .\n".to_vec(),
        b"result NzNat: 4\n".to_vec(),
        b"Maude> ".to_vec(),
    ];
    assert_eq!(
        frame_response(&output),
        b"reduce in CONVERSION : 2 + 2 .\nresult NzNat: 4".to_vec()
    );

    // Stop: the quit line goes out, then the handle is terminated and no
    // longer alive.
    assert_eq!(quit_line(), b"quit\n".to_vec());
    p.mark_stopped();
    assert!(!p.is_alive(ProbeStatus::Running));
    assert!(!p.is_alive(ProbeStatus::Exited));
}
