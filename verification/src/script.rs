//! The raw-AT bring-up script, from the first `AT` to `AT+CMUX=0`, as a
//! sequence of steps for the caller to perform.
//!
//! The caller performs each step (sends the command, waits, polls) and
//! hands its outcome back to `InitScript::next`, which decides the next
//! step: probes are retried, some failures are tolerated, others end the
//! script with a specific error.
use vstd::prelude::*;

use crate::bringup::Error;

verus! {

/// Timeout of an ordinary AT command, in milliseconds.
pub const COMMAND_TIMEOUT_MS: u64 = 2_000;

/// Number of `AT` probes before the script moves on.
pub const PROBE_TRIES: u8 = 5;

/// One step for the caller to perform.
#[derive(Copy, Clone, Debug)]
pub enum InitStep {
    /// Send an AT command and wait (at most `timeout_ms`) for its final result.
    Command { cmd: &'static str, timeout_ms: u64 },
    /// Wait this many milliseconds.
    Pause { ms: u64 },
    /// Send `AT+CPIN=<pin>` with the configured SIM PIN.
    EnterPin,
    /// Poll `AT+CPIN?` until `+CPIN: READY`.
    AwaitSim,
    /// Poll the network registration status until registered.
    AwaitRegistration,
    /// Send `AT+CGDCONT=1,"IP","<apn>"` with the configured APN.
    DefinePdp,
    /// The script is over.
    Finished(Result<(), Error>),
}

/// Where the script stands: the step whose outcome it waits for.
#[derive(Copy, Clone, Debug, PartialEq, Eq, Structural)]
pub enum Stage {
    Start,
    Probe,
    ProbePause,
    Echo,
    EchoOff,
    Verbose,
    RadioOff,
    RadioReset,
    Settle,
    Reprobe,
    ReprobePause,
    EchoOffAgain,
    VerboseAgain,
    Pin,
    Sim,
    RegMode,
    Registration,
    Pdp,
    Attach,
    Mux,
    Over,
}

/// The script as a mathematical value.
pub struct ScriptModel {
    pub stage: Stage,
    pub tries: u8,
    pub pin: bool,
    pub result: Result<(), Error>,
}

pub open spec fn cmd(c: &'static str) -> InitStep {
    InitStep::Command { cmd: c, timeout_ms: COMMAND_TIMEOUT_MS }
}

/// The script after `stage`, with the step to perform.
pub open spec fn goto(s: ScriptModel, stage: Stage, step: InitStep) -> (ScriptModel, InitStep) {
    (ScriptModel { stage, ..s }, step)
}

/// The script ended with `r`.
pub open spec fn finish(s: ScriptModel, r: Result<(), Error>) -> (ScriptModel, InitStep) {
    (ScriptModel { stage: Stage::Over, result: r, ..s }, InitStep::Finished(r))
}

/// One move of the script: the outcome of the step it waited for gives the
/// next script and the next step.
pub open spec fn script_next(s: ScriptModel, outcome: Result<(), Error>) -> (ScriptModel, InitStep) {
    let ok = outcome is Ok;
    match s.stage {
        Stage::Start => (ScriptModel { stage: Stage::Probe, tries: 1, ..s }, cmd("AT")),
        Stage::Probe => if ok {
            goto(s, Stage::Echo, cmd("AT"))
        } else {
            goto(s, Stage::ProbePause, InitStep::Pause { ms: 100 })
        },
        Stage::ProbePause => if s.tries < PROBE_TRIES {
            (ScriptModel { stage: Stage::Probe, tries: (s.tries + 1) as u8, ..s }, cmd("AT"))
        } else {
            goto(s, Stage::Echo, cmd("AT"))
        },
        Stage::Echo => if ok {
            goto(s, Stage::EchoOff, cmd("ATE0"))
        } else {
            finish(s, Err(Error::Timeout("AT echo")))
        },
        Stage::EchoOff => if ok {
            goto(s, Stage::Verbose, cmd("AT+CMEE=2"))
        } else {
            finish(s, Err(Error::Cmd("ATE0")))
        },
        Stage::Verbose => if ok {
            goto(s, Stage::RadioOff, InitStep::Command { cmd: "AT+CFUN=0", timeout_ms: 10_000 })
        } else {
            finish(s, Err(Error::Cmd("CMEE")))
        },
        Stage::RadioOff => goto(
            s,
            Stage::RadioReset,
            InitStep::Command { cmd: "AT+CFUN=1,1", timeout_ms: 10_000 },
        ),
        Stage::RadioReset => goto(s, Stage::Settle, InitStep::Pause { ms: 5_000 }),
        Stage::Settle => (ScriptModel { stage: Stage::Reprobe, tries: 1, ..s }, cmd("AT")),
        Stage::Reprobe => if ok {
            goto(s, Stage::EchoOffAgain, cmd("ATE0"))
        } else {
            goto(s, Stage::ReprobePause, InitStep::Pause { ms: 200 })
        },
        Stage::ReprobePause => if s.tries < PROBE_TRIES {
            (ScriptModel { stage: Stage::Reprobe, tries: (s.tries + 1) as u8, ..s }, cmd("AT"))
        } else {
            goto(s, Stage::EchoOffAgain, cmd("ATE0"))
        },
        Stage::EchoOffAgain => if ok {
            goto(s, Stage::VerboseAgain, cmd("AT+CMEE=2"))
        } else {
            finish(s, Err(Error::Cmd("ATE0 post-CFUN")))
        },
        Stage::VerboseAgain => if s.pin {
            goto(s, Stage::Pin, InitStep::EnterPin)
        } else {
            goto(s, Stage::Sim, InitStep::AwaitSim)
        },
        Stage::Pin => if ok {
            goto(s, Stage::Sim, InitStep::AwaitSim)
        } else {
            finish(s, Err(Error::SimLocked))
        },
        Stage::Sim => if ok {
            goto(s, Stage::RegMode, cmd("AT+CREG=2"))
        } else {
            finish(s, Err(Error::SimLocked))
        },
        Stage::RegMode => goto(s, Stage::Registration, InitStep::AwaitRegistration),
        Stage::Registration => match outcome {
            Ok(()) => goto(s, Stage::Pdp, InitStep::DefinePdp),
            Err(e) => finish(s, Err(e)),
        },
        Stage::Pdp => goto(
            s,
            Stage::Attach,
            InitStep::Command { cmd: "AT+CGATT=1", timeout_ms: 15_000 },
        ),
        Stage::Attach => goto(s, Stage::Mux, cmd("AT+CMUX=0,0,5,127,10,3,30,10,2")),
        Stage::Mux => if ok {
            finish(s, Ok(()))
        } else {
            finish(s, Err(Error::Cmd("CMUX")))
        },
        Stage::Over => (s, InitStep::Finished(s.result)),
    }
}

/// Distance to the end of the script: every move that does not finish it
/// brings it strictly closer.
pub open spec fn remaining(s: ScriptModel) -> int {
    let loop_left = if s.tries <= PROBE_TRIES { 2 * (PROBE_TRIES - s.tries) } else { 0 };
    match s.stage {
        Stage::Start => 60,
        Stage::Probe => 40 + loop_left + 1,
        Stage::ProbePause => 40 + loop_left,
        Stage::Echo => 39,
        Stage::EchoOff => 38,
        Stage::Verbose => 37,
        Stage::RadioOff => 36,
        Stage::RadioReset => 35,
        Stage::Settle => 34,
        Stage::Reprobe => 20 + loop_left + 1,
        Stage::ReprobePause => 20 + loop_left,
        Stage::EchoOffAgain => 19,
        Stage::VerboseAgain => 18,
        Stage::Pin => 17,
        Stage::Sim => 16,
        Stage::RegMode => 15,
        Stage::Registration => 14,
        Stage::Pdp => 13,
        Stage::Attach => 12,
        Stage::Mux => 11,
        Stage::Over => 0,
    }
}

/// The facts the script keeps between moves.
pub open spec fn script_wf(s: ScriptModel) -> bool {
    (s.stage is Probe || s.stage is ProbePause || s.stage is Reprobe || s.stage is ReprobePause)
        ==> 1 <= s.tries <= PROBE_TRIES
}

pub struct InitScript {
    stage: Stage,
    tries: u8,
    pin: bool,
    result: Result<(), Error>,
}

impl View for InitScript {
    type V = ScriptModel;

    closed spec fn view(&self) -> ScriptModel {
        ScriptModel { stage: self.stage, tries: self.tries, pin: self.pin, result: self.result }
    }
}

impl InitScript {
    pub open spec fn wf(&self) -> bool {
        script_wf(self@)
    }

    /// A script at its start; `pin_configured` says whether a SIM PIN is to
    /// be entered.
    pub fn new(pin_configured: bool) -> (s: Self)
        ensures
            s@.stage == Stage::Start,
            s@.pin == pin_configured,
            s@.tries == 0,
            s@.result is Ok,
            s.wf(),
    {
        Self { stage: Stage::Start, tries: 0, pin: pin_configured, result: Ok(()) }
    }

    /// The next step, given the outcome of the step performed last (any
    /// value at the start).
    pub fn next(&mut self, outcome: Result<(), Error>) -> (step: InitStep)
        requires
            old(self).wf(),
        ensures
            final(self).wf(),
            (final(self)@, step) == script_next(old(self)@, outcome),
            !(step is Finished) ==> remaining(final(self)@) < remaining(old(self)@),
            step is Finished <==> final(self)@.stage == Stage::Over,
    {
        let ok = outcome.is_ok();
        match self.stage {
            Stage::Start => {
                self.stage = Stage::Probe;
                self.tries = 1;
                InitStep::Command { cmd: "AT", timeout_ms: COMMAND_TIMEOUT_MS }
            },
            Stage::Probe => {
                if ok {
                    self.stage = Stage::Echo;
                    InitStep::Command { cmd: "AT", timeout_ms: COMMAND_TIMEOUT_MS }
                } else {
                    self.stage = Stage::ProbePause;
                    InitStep::Pause { ms: 100 }
                }
            },
            Stage::ProbePause => {
                if self.tries < PROBE_TRIES {
                    self.stage = Stage::Probe;
                    self.tries = self.tries + 1;
                } else {
                    self.stage = Stage::Echo;
                }
                InitStep::Command { cmd: "AT", timeout_ms: COMMAND_TIMEOUT_MS }
            },
            Stage::Echo => {
                if ok {
                    self.stage = Stage::EchoOff;
                    InitStep::Command { cmd: "ATE0", timeout_ms: COMMAND_TIMEOUT_MS }
                } else {
                    self.finish(Err(Error::Timeout("AT echo")))
                }
            },
            Stage::EchoOff => {
                if ok {
                    self.stage = Stage::Verbose;
                    InitStep::Command { cmd: "AT+CMEE=2", timeout_ms: COMMAND_TIMEOUT_MS }
                } else {
                    self.finish(Err(Error::Cmd("ATE0")))
                }
            },
            Stage::Verbose => {
                if ok {
                    self.stage = Stage::RadioOff;
                    InitStep::Command { cmd: "AT+CFUN=0", timeout_ms: 10_000 }
                } else {
                    self.finish(Err(Error::Cmd("CMEE")))
                }
            },
            Stage::RadioOff => {
                self.stage = Stage::RadioReset;
                InitStep::Command { cmd: "AT+CFUN=1,1", timeout_ms: 10_000 }
            },
            Stage::RadioReset => {
                self.stage = Stage::Settle;
                InitStep::Pause { ms: 5_000 }
            },
            Stage::Settle => {
                self.stage = Stage::Reprobe;
                self.tries = 1;
                InitStep::Command { cmd: "AT", timeout_ms: COMMAND_TIMEOUT_MS }
            },
            Stage::Reprobe => {
                if ok {
                    self.stage = Stage::EchoOffAgain;
                    InitStep::Command { cmd: "ATE0", timeout_ms: COMMAND_TIMEOUT_MS }
                } else {
                    self.stage = Stage::ReprobePause;
                    InitStep::Pause { ms: 200 }
                }
            },
            Stage::ReprobePause => {
                if self.tries < PROBE_TRIES {
                    self.stage = Stage::Reprobe;
                    self.tries = self.tries + 1;
                    InitStep::Command { cmd: "AT", timeout_ms: COMMAND_TIMEOUT_MS }
                } else {
                    self.stage = Stage::EchoOffAgain;
                    InitStep::Command { cmd: "ATE0", timeout_ms: COMMAND_TIMEOUT_MS }
                }
            },
            Stage::EchoOffAgain => {
                if ok {
                    self.stage = Stage::VerboseAgain;
                    InitStep::Command { cmd: "AT+CMEE=2", timeout_ms: COMMAND_TIMEOUT_MS }
                } else {
                    self.finish(Err(Error::Cmd("ATE0 post-CFUN")))
                }
            },
            Stage::VerboseAgain => {
                if self.pin {
                    self.stage = Stage::Pin;
                    InitStep::EnterPin
                } else {
                    self.stage = Stage::Sim;
                    InitStep::AwaitSim
                }
            },
            Stage::Pin => {
                if ok {
                    self.stage = Stage::Sim;
                    InitStep::AwaitSim
                } else {
                    self.finish(Err(Error::SimLocked))
                }
            },
            Stage::Sim => {
                if ok {
                    self.stage = Stage::RegMode;
                    InitStep::Command { cmd: "AT+CREG=2", timeout_ms: COMMAND_TIMEOUT_MS }
                } else {
                    self.finish(Err(Error::SimLocked))
                }
            },
            Stage::RegMode => {
                self.stage = Stage::Registration;
                InitStep::AwaitRegistration
            },
            Stage::Registration => match outcome {
                Ok(()) => {
                    self.stage = Stage::Pdp;
                    InitStep::DefinePdp
                },
                Err(e) => self.finish(Err(e)),
            },
            Stage::Pdp => {
                self.stage = Stage::Attach;
                InitStep::Command { cmd: "AT+CGATT=1", timeout_ms: 15_000 }
            },
            Stage::Attach => {
                self.stage = Stage::Mux;
                InitStep::Command { cmd: "AT+CMUX=0,0,5,127,10,3,30,10,2", timeout_ms: COMMAND_TIMEOUT_MS }
            },
            Stage::Mux => {
                if ok {
                    self.finish(Ok(()))
                } else {
                    self.finish(Err(Error::Cmd("CMUX")))
                }
            },
            Stage::Over => InitStep::Finished(self.result),
        }
    }

    fn finish(&mut self, r: Result<(), Error>) -> (step: InitStep)
        ensures
            final(self)@ == (ScriptModel { stage: Stage::Over, result: r, ..old(self)@ }),
            step == InitStep::Finished(r),
    {
        self.stage = Stage::Over;
        self.result = r;
        InitStep::Finished(r)
    }
}

/// After the radio reset, a failed `AT` probe never ends the script: it is
/// followed by a 200 ms pause and then, while fewer than five probes were
/// made, by another `AT`; after the fifth failure the script goes on with
/// `ATE0`.
pub proof fn lemma_failed_reprobe_retries(s: ScriptModel, e: Error, after_pause: Result<(), Error>)
    requires
        (s.stage is Reprobe),
        1 <= s.tries <= 5,
    ensures
        ({
            let (s1, step1) = script_next(s, Err(e));
            let (s2, step2) = script_next(s1, after_pause);
            &&& step1 == InitStep::Pause { ms: 200 }
            &&& s.tries < 5 ==> step2 == (InitStep::Command { cmd: "AT", timeout_ms: 2000 })
                && (s2.stage is Reprobe) && s2.tries == s.tries + 1
            &&& s.tries == 5 ==> step2 == (InitStep::Command { cmd: "ATE0", timeout_ms: 2000 })
            &&& !(step1 is Finished)
            &&& !(step2 is Finished)
        }),
{
}

/// The same holds of the probes before the radio reset: a failed `AT`
/// probe is followed by a 100 ms pause and another `AT`, and after the
/// fifth failure by the final `AT` check.
pub proof fn lemma_failed_probe_retries(s: ScriptModel, e: Error, after_pause: Result<(), Error>)
    requires
        (s.stage is Probe),
        1 <= s.tries <= 5,
    ensures
        ({
            let (s1, step1) = script_next(s, Err(e));
            let (s2, step2) = script_next(s1, after_pause);
            &&& step1 == InitStep::Pause { ms: 100 }
            &&& step2 == (InitStep::Command { cmd: "AT", timeout_ms: 2000 })
            &&& s.tries < 5 ==> (s2.stage is Probe) && s2.tries == s.tries + 1
            &&& s.tries == 5 ==> (s2.stage is Echo)
        }),
{
}

} // verus!
