use cmux_core::bringup::Error;
use cmux_core::script::{InitScript, InitStep};

fn describe(step: &InitStep) -> String {
    match step {
        InitStep::Command { cmd, timeout_ms } => format!("{cmd}@{timeout_ms}"),
        InitStep::Pause { ms } => format!("pause {ms}"),
        InitStep::EnterPin => "pin".to_string(),
        InitStep::AwaitSim => "sim".to_string(),
        InitStep::AwaitRegistration => "reg".to_string(),
        InitStep::DefinePdp => "pdp".to_string(),
        InitStep::Finished(Ok(())) => "done".to_string(),
        InitStep::Finished(Err(e)) => format!("failed {e:?}"),
    }
}

/// Run the script answering every step with the outcome `answer` picks.
fn run(pin: bool, mut answer: impl FnMut(&InitStep) -> Result<(), Error>) -> Vec<String> {
    let mut s = InitScript::new(pin);
    let mut outcome = Ok(());
    let mut trace = Vec::new();
    for _ in 0..100 {
        let step = s.next(outcome);
        trace.push(describe(&step));
        if let InitStep::Finished(_) = step {
            return trace;
        }
        outcome = answer(&step);
    }
    panic!("script did not finish: {trace:?}");
}

#[test]
fn script_success_path() {
    let trace = run(false, |_| Ok(()));
    assert_eq!(
        trace,
        vec![
            "AT@2000", "AT@2000", "ATE0@2000", "AT+CMEE=2@2000", "AT+CFUN=0@10000",
            "AT+CFUN=1,1@10000", "pause 5000", "AT@2000", "ATE0@2000", "AT+CMEE=2@2000", "sim",
            "AT+CREG=2@2000", "reg", "pdp", "AT+CGATT=1@15000",
            "AT+CMUX=0,0,5,127,10,3,30,10,2@2000", "done",
        ]
    );
}

#[test]
fn script_enters_pin_when_configured() {
    let trace = run(true, |_| Ok(()));
    assert!(trace.windows(2).any(|w| w[0] == "AT+CMEE=2@2000" && w[1] == "pin"));
    assert_eq!(trace.last().unwrap(), "done");
}

#[test]
fn script_probes_five_times_then_checks_echo() {
    let mut probes = 0;
    let trace = run(false, |step| match step {
        InitStep::Command { cmd: "AT", .. } => {
            probes += 1;
            Err(Error::Cmd("ERROR"))
        }
        _ => Ok(()),
    });
    assert_eq!(probes, 6);
    assert_eq!(trace.iter().filter(|t| *t == "pause 100").count(), 5);
    assert_eq!(trace.last().unwrap(), "failed Timeout(\"AT echo\")");
}

#[test]
fn script_tolerates_radio_and_attach_failures() {
    let trace = run(false, |step| match step {
        InitStep::Command { cmd: "AT+CFUN=0", .. }
        | InitStep::Command { cmd: "AT+CFUN=1,1", .. }
        | InitStep::Command { cmd: "AT+CGATT=1", .. }
        | InitStep::Command { cmd: "AT+CREG=2", .. }
        | InitStep::DefinePdp => Err(Error::Cmd("ERROR")),
        _ => Ok(()),
    });
    assert_eq!(trace.last().unwrap(), "done");
}

#[test]
fn script_failures_map_to_errors() {
    let trace = run(false, |step| match step {
        InitStep::AwaitSim => Err(Error::NotRegistered),
        _ => Ok(()),
    });
    assert_eq!(trace.last().unwrap(), "failed SimLocked");
    let trace = run(false, |step| match step {
        InitStep::AwaitRegistration => Err(Error::NotRegistered),
        _ => Ok(()),
    });
    assert_eq!(trace.last().unwrap(), "failed NotRegistered");
    let trace = run(false, |step| match step {
        InitStep::Command { cmd: "AT+CMUX=0,0,5,127,10,3,30,10,2", .. } => Err(Error::Io),
        _ => Ok(()),
    });
    assert_eq!(trace.last().unwrap(), "failed Cmd(\"CMUX\")");
    let mut after_reset = false;
    let trace = run(false, |step| match step {
        InitStep::Pause { ms: 5000 } => {
            after_reset = true;
            Ok(())
        }
        InitStep::Command { cmd: "ATE0", .. } if after_reset => Err(Error::Io),
        _ => Ok(()),
    });
    assert_eq!(trace.last().unwrap(), "failed Cmd(\"ATE0 post-CFUN\")");
}

#[test]
fn script_stays_finished() {
    let mut s = InitScript::new(false);
    let mut step = s.next(Ok(()));
    for _ in 0..3 {
        step = s.next(Err(Error::Io));
    }
    // AT failed, paused, AT failed, paused...; drive to the end with failures
    for _ in 0..20 {
        if let InitStep::Finished(_) = step {
            break;
        }
        step = s.next(Err(Error::Io));
    }
    assert!(matches!(step, InitStep::Finished(Err(Error::Timeout("AT echo")))));
    assert!(matches!(s.next(Ok(())), InitStep::Finished(Err(Error::Timeout("AT echo")))));
}
