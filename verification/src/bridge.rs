//! The state that the app's entry points share: the log, the running server,
//! and what was set up once for the whole process.

use crate::log_ring::LogRing;
use crate::log_ring::RingView;
use crate::stats::{shown_rates, RunningStats};
use crate::text;
use crate::text::{c_text, trim};
use vstd::prelude::*;

verus! {

/// What a bridge holds, as mathematics.
#[verifier::ext_equal]
pub struct BridgeView<S> {
    pub log: RingView,
    pub capture_started: bool,
    pub hook_installed: bool,
    pub active: Option<S>,
    pub max_players: u32,
}

impl<S> BridgeView<S> {
    /// The bridge after one more log line.
    pub open spec fn logged(self, line: Seq<char>) -> BridgeView<S> {
        BridgeView { log: self.log.pushed(line), ..self }
    }

    /// The bridge once output is being captured.
    pub open spec fn capturing(self) -> BridgeView<S> {
        BridgeView { capture_started: true, ..self }
    }

    /// The bridge once panics are being reported.
    pub open spec fn hooked(self) -> BridgeView<S> {
        BridgeView { hook_installed: true, ..self }
    }

    /// The bridge with another running server, or none.
    pub open spec fn with_server(self, active: Option<S>) -> BridgeView<S> {
        BridgeView { active, ..self }
    }
}

impl<S> BridgeView<S> {
    /// A line that is logged counts as one more, whatever it says, is the one
    /// line that a reader who had seen the whole log reads next, and changes
    /// nothing but the log.
    pub proof fn law_logged_line_is_read_next(self, line: Seq<char>)
        ensures
            self.logged(line).log.dropped + self.logged(line).log.lines.len() == self.log.dropped
                + self.log.lines.len() + 1,
            self.logged(line).log.lines.last() == line,
            self.logged(line).log.since(self.log.dropped + self.log.lines.len()) == line,
            self.logged(line) == (BridgeView { log: self.logged(line).log, ..self }),
    {
        self.log.law_held_cursor_gets_next_line(line);
        self.log.law_total_counts_every_push(line);
        self.log.law_push_appends(line);
    }

    /// A logged line that fits the log joins the lines before it, all of which
    /// stay; one that makes a full log too long costs the oldest quarter.
    pub proof fn law_logged_line_joins_the_log(self, line: Seq<char>)
        ensures
            self.log.lines.len() < crate::log_ring::MAX_LOG_LINES ==> self.logged(
                line,
            ).log.lines.drop_last() == self.log.lines,
            self.log.lines.len() >= crate::log_ring::MAX_LOG_LINES ==> self.logged(
                line,
            ).log.lines.drop_last() == self.log.lines.skip(
                crate::log_ring::MAX_LOG_LINES as int / 4,
            ),
    {
        self.log.law_push_appends(line);
    }

    /// Setting the process up and changing the server touch nothing else.
    pub proof fn law_changes_stay_apart(self, active: Option<S>)
        ensures
            self.capturing() == (BridgeView { capture_started: true, ..self }),
            self.hooked() == (BridgeView { hook_installed: true, ..self }),
            self.with_server(active) == (BridgeView { active, ..self }),
    {
    }
}

/// The state that the app's entry points share. `S` is a handle to a server.
pub struct Bridge<S> {
    log: LogRing,
    capture_started: bool,
    hook_installed: bool,
    /// The running server, if any, so that queries can be answered while the
    /// call that started it is still blocked.
    active: Option<S>,
    /// The configured number of players, kept from startup: the configuration
    /// moves into the server and is not reachable afterwards.
    max_players: u32,
}

impl<S> View for Bridge<S> {
    type V = BridgeView<S>;

    closed spec fn view(&self) -> BridgeView<S> {
        BridgeView {
            log: self.log@,
            capture_started: self.capture_started,
            hook_installed: self.hook_installed,
            active: self.active,
            max_players: self.max_players,
        }
    }
}

impl<S> Bridge<S> {
    /// The log is well-formed and its count fits the integers it is kept in.
    pub open spec fn wf(&self) -> bool {
        &&& self@.log.wf()
        &&& self@.log.total() <= u64::MAX
    }

    /// Nothing logged, nothing set up, no server.
    pub fn new() -> (bridge: Bridge<S>)
        ensures
            bridge.wf(),
            bridge@ == (BridgeView::<S> {
                log: RingView::empty(),
                capture_started: false,
                hook_installed: false,
                active: None,
                max_players: 0,
            }),
            bridge@.log.dropped == 0,
            bridge@.log.lines.len() == 0,
    {
        Bridge {
            log: LogRing::new(),
            capture_started: false,
            hook_installed: false,
            active: None,
            max_players: 0,
        }
    }

    /// The running server, if any.
    pub fn active_server(&self) -> (server: Option<&S>)
        ensures
            server == (match self@.active {
                Some(handle) => Some(&handle),
                None => None,
            }),
    {
        match &self.active {
            Some(handle) => Some(handle),
            None => None,
        }
    }

    /// The configured number of players.
    pub fn max_players(&self) -> (max: u32)
        ensures
            max == self@.max_players,
    {
        self.max_players
    }

    /// The figures of the running server, with the number of players that was
    /// configured at startup. `tps` and `mspt` are the rates over `samples`
    /// tick times; where there are none, the rates are zero.
    pub fn running_stats(
        &self,
        samples: Option<i64>,
        tps: String,
        mspt: String,
        online: usize,
    ) -> (stats: RunningStats)
        ensures
            stats.max == self@.max_players,
            stats.online == online,
            samples is None ==> stats.tps@ == "0.0"@ && stats.mspt@ == "0.00"@,
            samples is Some ==> stats.tps == tps && stats.mspt == mspt,
    {
        let (tps, mspt) = shown_rates(samples, tps, mspt);
        RunningStats { tps, mspt, online, max: self.max_players }
    }

    /// Append a line to the log directly, which works even when output is not
    /// captured yet or the process is about to die.
    pub fn buffer_log_line(&mut self, line: String)
        requires
            old(self).wf(),
            old(self)@.log.total() < u64::MAX,
        ensures
            final(self).wf(),
            final(self)@ == old(self)@.logged(line@),
            final(self)@ == (BridgeView { log: final(self)@.log, ..old(self)@ }),
            final(self)@.log.total() == old(self)@.log.total() + 1,
            final(self)@.log.lines.last() == line@,
            final(self)@.log.since(old(self)@.log.total()) == line@,
    {
        proof {
            self@.law_logged_line_is_read_next(line@);
            self@.log.law_total_counts_every_push(line@);
        }
        self.log.push(line);
    }

    /// Marks output as captured. Tells whether the caller has to redirect it,
    /// which is so once per process.
    pub fn start_log_capture(&mut self) -> (first: bool)
        ensures
            first == !old(self)@.capture_started,
            final(self)@ == old(self)@.capturing(),
            final(self)@ == (BridgeView { capture_started: true, ..old(self)@ }),
    {
        let first = !self.capture_started;
        self.capture_started = true;
        first
    }

    /// Takes the next line of captured output, or `None` where reading failed.
    /// Lines are trimmed, and blank ones are skipped. Tells whether to read on.
    pub fn capture_line(&mut self, line: Option<&str>) -> (read_on: bool)
        requires
            old(self).wf(),
            line matches Some(raw) && text::trimmed(raw@).len() > 0 ==> old(self)@.log.total()
                < u64::MAX,
        ensures
            final(self).wf(),
            read_on == (line is Some),
            final(self)@ == (match line {
                Some(raw) if text::trimmed(raw@).len() > 0 => old(self)@.logged(
                    text::trimmed(raw@),
                ),
                _ => old(self)@,
            }),
            match line {
                Some(raw) => if text::trimmed(raw@).len() > 0 {
                    &&& final(self)@.log.total() == old(self)@.log.total() + 1
                    &&& final(self)@.log.since(old(self)@.log.total()) == text::trimmed(raw@)
                } else {
                    final(self)@ == old(self)@
                },
                None => final(self)@ == old(self)@,
            },
    {
        match line {
            Some(raw) => {
                let trimmed = trim(raw);
                if !trimmed.is_empty() {
                    self.buffer_log_line(trimmed.to_owned());
                }
                true
            },
            None => false,
        }
    }

    /// Marks panics as reported. Tells whether the caller has to install the
    /// hook, which is so once per process.
    pub fn install_panic_hook(&mut self) -> (first: bool)
        ensures
            first == !old(self)@.hook_installed,
            final(self)@ == old(self)@.hooked(),
            final(self)@ == (BridgeView { hook_installed: true, ..old(self)@ }),
    {
        let first = !self.hook_installed;
        self.hook_installed = true;
        first
    }
}

/// Total number of log lines buffered so far.
pub fn pumpkin_log_count<S>(bridge: &Bridge<S>) -> (count: u64)
    requires
        bridge.wf(),
    ensures
        count == bridge@.log.total(),
{
    bridge.log.total()
}

/// A reader gets exactly the lines from its cursor on, joined by newlines,
/// where none of them holds a NUL; where one does, it gets nothing.
pub proof fn law_lines_without_nul_reach_the_reader(
    log: RingView,
    from: nat,
    wanted: Seq<Seq<char>>,
)
    requires
        from <= log.dropped ==> wanted == log.lines,
        log.dropped < from <= log.dropped + log.lines.len() ==> wanted == log.lines.skip(
            from - log.dropped,
        ),
        from > log.dropped + log.lines.len() ==> wanted.len() == 0,
    ensures
        (forall|i: int| 0 <= i < wanted.len() ==> !(#[trigger] wanted[i]).contains('\0'))
            ==> text::nul_free(log.since(from)) == text::joined(wanted, '\n'),
        (exists|i: int| 0 <= i < wanted.len() && (#[trigger] wanted[i]).contains('\0'))
            ==> text::nul_free(log.since(from)).len() == 0,
{
    let whole = text::joined(wanted, '\n');
    log.law_cursor_reads_the_lines_from_it_on(from);
    assert(wanted.len() == 0 ==> wanted =~= Seq::empty());
    assert(log.since(from) =~= whole);
    text::law_text_without_nul_is_handed_out_whole(whole);
    if exists|i: int| 0 <= i < wanted.len() && (#[trigger] wanted[i]).contains('\0') {
        let i = choose|i: int| 0 <= i < wanted.len() && (#[trigger] wanted[i]).contains('\0');
        text::lemma_joined_keeps_nul(wanted, '\n', i);
    } else {
        assert forall|i: int| 0 <= i < wanted.len() implies text::lacks_nul(
            #[trigger] wanted[i],
        ) by {
            assert(!wanted[i].contains('\0'));
        }
        text::lemma_joined_lacks_nul(wanted, '\n');
    }
}

/// Log lines from `from_index` on, joined by `\n`, as the text of a
/// NUL-terminated string.
pub fn pumpkin_logs_since<S>(bridge: &Bridge<S>, from_index: u64) -> (text: String)
    requires
        bridge.wf(),
    ensures
        text@ == text::nul_free(bridge@.log.since(from_index as nat)),
        from_index <= bridge@.log.dropped && (forall|i: int|
            0 <= i < bridge@.log.lines.len() ==> !(#[trigger] bridge@.log.lines[i]).contains('\0'))
            ==> text@ == text::joined(bridge@.log.lines, '\n'),
        bridge@.log.dropped <= from_index <= bridge@.log.total() && (forall|i: int|
            from_index - bridge@.log.dropped <= i < bridge@.log.lines.len() ==> !(
            #[trigger] bridge@.log.lines[i]).contains('\0')) ==> text@ == text::joined(
            bridge@.log.lines.skip(from_index - bridge@.log.dropped),
            '\n',
        ),
        from_index >= bridge@.log.total() ==> text@.len() == 0,
{
    proof {
        let log = bridge@.log;
        let from = from_index as nat;
        log.law_cursor_reads_the_lines_from_it_on(from);
        if from <= log.dropped {
            law_lines_without_nul_reach_the_reader(log, from, log.lines);
            assert(log.lines.skip(0) =~= log.lines);
        } else if from <= log.total() {
            let wanted = log.lines.skip(from - log.dropped);
            assert forall|i: int| 0 <= i < wanted.len() implies #[trigger] wanted[i]
                == log.lines[i + from - log.dropped] by {}
            law_lines_without_nul_reach_the_reader(log, from, wanted);
        }
    }
    c_text(bridge.log.since(from_index))
}

/// What to do next about a panic.
#[derive(Clone, Copy, Debug, PartialEq, Eq, Structural)]
pub enum PanicStep {
    /// Write the message and a backtrace to a file with an absolute path: the
    /// panic may come before the data directory is entered.
    WriteFallback,
    /// Capture a backtrace, as the environment allows.
    CaptureBacktrace,
    /// Capture a backtrace whatever the environment says.
    ForceBacktrace,
    /// Put the report together.
    BuildReport,
    /// Save the report.
    SaveReport,
    /// Nothing is left to do.
    Finished,
}

/// What to do first about a panic.
pub fn first_panic_step() -> (step: PanicStep)
    ensures
        step is WriteFallback,
{
    PanicStep::WriteFallback
}

/// The log line about a panic.
pub open spec fn panic_line(info: Seq<char>) -> Seq<char> {
    "PANIC: "@ + info
}

/// What comes after a step of reporting a panic.
pub open spec fn next_panic_step(step: PanicStep, captured: bool) -> PanicStep {
    match step {
        PanicStep::WriteFallback => PanicStep::CaptureBacktrace,
        PanicStep::CaptureBacktrace => if captured {
            PanicStep::BuildReport
        } else {
            PanicStep::ForceBacktrace
        },
        PanicStep::ForceBacktrace => PanicStep::BuildReport,
        PanicStep::BuildReport => PanicStep::SaveReport,
        PanicStep::SaveReport => PanicStep::Finished,
        PanicStep::Finished => PanicStep::Finished,
    }
}

impl<S> Bridge<S> {
    /// What to do about a panic once `step` is done. `captured` tells whether
    /// the backtrace that was captured last has frames. Between the report and
    /// its saving the panic is logged, so that a live view of the log shows it
    /// before the process dies.
    pub fn panic_next(&mut self, step: PanicStep, captured: bool, info: &str) -> (next: PanicStep)
        requires
            old(self).wf(),
            step is BuildReport ==> old(self)@.log.total() < u64::MAX,
        ensures
            final(self).wf(),
            next == next_panic_step(step, captured),
            final(self)@ == (if step is BuildReport {
                old(self)@.logged(panic_line(info@))
            } else {
                old(self)@
            }),
            step is BuildReport ==> {
                &&& final(self)@.log.total() == old(self)@.log.total() + 1
                &&& final(self)@.log.since(old(self)@.log.total()) == "PANIC: "@ + info@
            },
            step !is BuildReport ==> final(self)@ == old(self)@,
    {
        match step {
            PanicStep::WriteFallback => PanicStep::CaptureBacktrace,
            PanicStep::CaptureBacktrace => if captured {
                PanicStep::BuildReport
            } else {
                PanicStep::ForceBacktrace
            },
            PanicStep::ForceBacktrace => PanicStep::BuildReport,
            PanicStep::BuildReport => {
                let mut line = "PANIC: ".to_owned();
                line.append(info);
                self.buffer_log_line(line);
                PanicStep::SaveReport
            },
            PanicStep::SaveReport => PanicStep::Finished,
            PanicStep::Finished => PanicStep::Finished,
        }
    }
}

/// What to do next to start a server.
#[derive(Debug)]
pub enum StartStep {
    /// Reset what a previous run left behind.
    ResetState,
    /// Redirect standard output and standard error into the log.
    CaptureOutput,
    /// Install the panic hook.
    HookPanics,
    /// Switch to the data directory.
    EnterDirectory,
    /// Build the runtime that the rest runs in.
    BuildRuntime,
    /// Load the configuration and the game data, and set up logging.
    LoadConfig,
    /// Bind the address and let go of it, so that a taken port is reported
    /// before any of the server's tasks are spawned.
    ProbeAddress { address: String },
    /// Create the server.
    CreateServer,
    /// Initialise the plugins.
    InitPlugins,
    /// Run the server until it stops.
    Serve,
    /// The run is over.
    Finished,
}

/// What to do first to start a server: a previous run in this process may have
/// left a request to stop behind, which would end the new run at once.
pub fn first_step() -> (step: StartStep)
    ensures
        step is ResetState,
{
    StartStep::ResetState
}

/// What became of a step.
pub enum StartOutcome<S> {
    /// It was done.
    Done,
    /// The configuration was loaded.
    Loaded { java_enabled: bool, java_address: String, max_players: u32 },
    /// The server was created.
    Created { server: S },
    /// It failed, in these words.
    Failed { error: String },
}

/// Whether `outcome` can come of `step`.
pub open spec fn outcome_fits<S>(step: StartStep, outcome: StartOutcome<S>) -> bool {
    match step {
        StartStep::LoadConfig => outcome is Loaded,
        StartStep::ProbeAddress { .. } => outcome is Done || outcome is Failed,
        StartStep::CreateServer => outcome is Created || outcome is Failed,
        StartStep::Finished => false,
        _ => outcome is Done,
    }
}

impl StartStep {
    /// Whether `outcome` can come of this step.
    pub fn accepts<S>(&self, outcome: &StartOutcome<S>) -> (fits: bool)
        ensures
            fits == outcome_fits(*self, *outcome),
    {
        match (self, outcome) {
            (StartStep::LoadConfig, StartOutcome::Loaded { .. }) => true,
            (StartStep::ProbeAddress { .. }, StartOutcome::Failed { .. }) => true,
            (StartStep::CreateServer, StartOutcome::Created { .. }) => true,
            (StartStep::CreateServer, StartOutcome::Failed { .. }) => true,
            (StartStep::LoadConfig, _) => false,
            (StartStep::CreateServer, _) => false,
            (StartStep::Finished, _) => false,
            (_, StartOutcome::Done) => true,
            _ => false,
        }
    }
}

/// The log line about an address that could not be bound.
pub open spec fn bind_failure(address: Seq<char>, error: Seq<char>) -> Seq<char> {
    "ERROR Cannot start server: failed to bind "@ + address + ": "@ + error
        + ". Is another server instance already running?"@
}

/// The log line about a server that could not be created.
pub open spec fn create_failure(error: Seq<char>) -> Seq<char> {
    "ERROR Cannot start server: "@ + error
}

impl<S> BridgeView<S> {
    /// The bridge and the next step once panics are to be reported, which has
    /// to be set up only once.
    pub open spec fn start_hooked(self) -> (BridgeView<S>, StartStep) {
        if self.hook_installed {
            (self, StartStep::EnterDirectory)
        } else {
            (self.hooked(), StartStep::HookPanics)
        }
    }

    /// The bridge and the next step after a step of starting a server.
    pub open spec fn started(
        self,
        step: StartStep,
        outcome: StartOutcome<S>,
    ) -> (BridgeView<S>, StartStep) {
        match (step, outcome) {
            (StartStep::ResetState, _) => if self.capture_started {
                self.start_hooked()
            } else {
                (self.capturing(), StartStep::CaptureOutput)
            },
            (StartStep::CaptureOutput, _) => self.start_hooked(),
            (StartStep::HookPanics, _) => (self, StartStep::EnterDirectory),
            (StartStep::EnterDirectory, _) => (self, StartStep::BuildRuntime),
            (StartStep::BuildRuntime, _) => (self, StartStep::LoadConfig),
            (
                StartStep::LoadConfig,
                StartOutcome::Loaded { java_enabled, java_address, max_players },
            ) => (
                BridgeView { max_players, ..self },
                if java_enabled {
                    StartStep::ProbeAddress { address: java_address }
                } else {
                    StartStep::CreateServer
                },
            ),
            (StartStep::ProbeAddress { address }, StartOutcome::Failed { error }) => (
                self.logged(bind_failure(address@, error@)).with_server(None),
                StartStep::Finished,
            ),
            (StartStep::ProbeAddress { .. }, _) => (self, StartStep::CreateServer),
            (StartStep::CreateServer, StartOutcome::Created { server }) => (
                self.with_server(Some(server)),
                StartStep::InitPlugins,
            ),
            (StartStep::CreateServer, StartOutcome::Failed { error }) => (
                self.logged(create_failure(error@)).with_server(None),
                StartStep::Finished,
            ),
            (StartStep::InitPlugins, _) => (self, StartStep::Serve),
            _ => (self.with_server(None), StartStep::Finished),
        }
    }
}

impl<S> Bridge<S> {
    /// The next step once panics are to be reported.
    fn hook_next(&mut self) -> (next: StartStep)
        requires
            old(self).wf(),
        ensures
            final(self).wf(),
            (final(self)@, next) == old(self)@.start_hooked(),
    {
        if self.install_panic_hook() {
            StartStep::HookPanics
        } else {
            StartStep::EnterDirectory
        }
    }

    /// What to do to start a server once `step` is done, with `outcome`. A run
    /// begins with `first_step`, and a failure to bind or to create the server
    /// is logged and ends it.
    pub fn start_next(&mut self, step: StartStep, outcome: StartOutcome<S>) -> (next: StartStep)
        requires
            old(self).wf(),
            outcome_fits(step, outcome),
            outcome is Failed ==> old(self)@.log.total() < u64::MAX,
        ensures
            final(self).wf(),
            (final(self)@, next) == old(self)@.started(step, outcome),
    {
        match step {
            StartStep::ResetState => if self.start_log_capture() {
                StartStep::CaptureOutput
            } else {
                self.hook_next()
            },
            StartStep::CaptureOutput => self.hook_next(),
            StartStep::HookPanics => StartStep::EnterDirectory,
            StartStep::EnterDirectory => StartStep::BuildRuntime,
            StartStep::BuildRuntime => StartStep::LoadConfig,
            StartStep::LoadConfig => match outcome {
                StartOutcome::Loaded { java_enabled, java_address, max_players } => {
                    self.max_players = max_players;
                    if java_enabled {
                        StartStep::ProbeAddress { address: java_address }
                    } else {
                        StartStep::CreateServer
                    }
                },
                _ => StartStep::Finished,
            },
            StartStep::ProbeAddress { address } => match outcome {
                StartOutcome::Failed { error } => {
                    let mut line = "ERROR Cannot start server: failed to bind ".to_owned();
                    line.append(address.as_str());
                    line.append(": ");
                    line.append(error.as_str());
                    line.append(". Is another server instance already running?");
                    self.buffer_log_line(line);
                    self.active = None;
                    StartStep::Finished
                },
                _ => StartStep::CreateServer,
            },
            StartStep::CreateServer => match outcome {
                StartOutcome::Created { server } => {
                    self.active = Some(server);
                    StartStep::InitPlugins
                },
                StartOutcome::Failed { error } => {
                    let mut line = "ERROR Cannot start server: ".to_owned();
                    line.append(error.as_str());
                    self.buffer_log_line(line);
                    self.active = None;
                    StartStep::Finished
                },
                _ => StartStep::Finished,
            },
            StartStep::InitPlugins => StartStep::Serve,
            StartStep::Serve => {
                self.active = None;
                StartStep::Finished
            },
            StartStep::Finished => StartStep::Finished,
        }
    }
}

/// Only probing and creating can fail; only creating creates, only loading
/// loads, and those two are never merely done. A finished run has no outcome.
pub proof fn law_outcomes_fit_their_steps<S>(step: StartStep, outcome: StartOutcome<S>)
    ensures
        outcome is Failed ==> (outcome_fits(step, outcome) <==> step is ProbeAddress
            || step is CreateServer),
        outcome is Created ==> (outcome_fits(step, outcome) <==> step is CreateServer),
        outcome is Loaded ==> (outcome_fits(step, outcome) <==> step is LoadConfig),
        outcome is Done ==> (outcome_fits(step, outcome) <==> step !is LoadConfig
            && step !is CreateServer && step !is Finished),
{
}

/// How many steps a run can still take, this one included.
pub open spec fn steps_left(step: StartStep) -> nat {
    match step {
        StartStep::ResetState => 10,
        StartStep::CaptureOutput => 9,
        StartStep::HookPanics => 8,
        StartStep::EnterDirectory => 7,
        StartStep::BuildRuntime => 6,
        StartStep::LoadConfig => 5,
        StartStep::ProbeAddress { .. } => 4,
        StartStep::CreateServer => 3,
        StartStep::InitPlugins => 2,
        StartStep::Serve => 1,
        StartStep::Finished => 0,
    }
}

/// Whether a server is known at `step` of a run that began without one.
pub open spec fn server_known_at(step: StartStep) -> bool {
    step is InitPlugins || step is Serve
}

impl<S> BridgeView<S> {
    /// The bridge and the step that a run is at after `outcomes`.
    pub open spec fn run(
        self,
        step: StartStep,
        outcomes: Seq<StartOutcome<S>>,
    ) -> (BridgeView<S>, StartStep)
        decreases outcomes.len(),
    {
        if outcomes.len() == 0 {
            (self, step)
        } else {
            let (after, next) = self.started(step, outcomes.first());
            after.run(next, outcomes.drop_first())
        }
    }

    /// Whether `outcomes` can come of a run that is at `step`.
    pub open spec fn run_fits(self, step: StartStep, outcomes: Seq<StartOutcome<S>>) -> bool
        decreases outcomes.len(),
    {
        outcomes.len() > 0 ==> {
            let (after, next) = self.started(step, outcomes.first());
            outcome_fits(step, outcomes.first()) && after.run_fits(next, outcomes.drop_first())
        }
    }

    /// A server is known from the moment it is created until the run is over,
    /// and at no other step; each step of a run keeps it so.
    pub proof fn law_server_is_known_while_it_runs(self, step: StartStep, outcome: StartOutcome<S>)
        requires
            outcome_fits(step, outcome),
            self.active is Some <==> server_known_at(step),
        ensures
            self.started(step, outcome).0.active is Some <==> server_known_at(
                self.started(step, outcome).1,
            ),
            outcome matches StartOutcome::Created { server } ==> self.started(
                step,
                outcome,
            ).0.active == Some(server),
    {
    }

    /// A run that is over leaves no server behind, however it came to be over.
    pub proof fn law_finished_run_leaves_no_server(self, step: StartStep, outcome: StartOutcome<S>)
        requires
            outcome_fits(step, outcome),
            self.started(step, outcome).1 is Finished,
        ensures
            self.started(step, outcome).0.active is None,
    {
    }

    /// A failure ends the run at once, without creating a server, and its one
    /// log line is what a reader that had seen the whole log reads next.
    pub proof fn law_failure_ends_the_run_and_is_logged(self, step: StartStep, error: String)
        requires
            outcome_fits(step, StartOutcome::<S>::Failed { error }),
        ensures
            self.started(step, StartOutcome::Failed { error }).1 is Finished,
            self.started(step, StartOutcome::Failed { error }).0.active is None,
            self.started(step, StartOutcome::Failed { error }).0.log.since(self.log.total())
                == (match step {
                StartStep::ProbeAddress { address } => bind_failure(address@, error@),
                _ => create_failure(error@),
            }),
            self.started(step, StartOutcome::Failed { error }).0.log.since(
                self.log.dropped + self.log.lines.len(),
            ) == (match step {
                StartStep::ProbeAddress { address } => "ERROR Cannot start server: failed to bind "@
                    + address@ + ": "@ + error@ + ". Is another server instance already running?"@,
                _ => "ERROR Cannot start server: "@ + error@,
            }),
    {
        match step {
            StartStep::ProbeAddress { address } => {
                self.law_logged_line_is_read_next(bind_failure(address@, error@));
                self.log.law_held_cursor_gets_next_line(bind_failure(address@, error@));
            },
            _ => {
                self.law_logged_line_is_read_next(create_failure(error@));
                self.log.law_held_cursor_gets_next_line(create_failure(error@));
            },
        }
    }

    /// What leads to each step. Output is captured and panics are hooked only
    /// where that was not done; the address that is probed is the configured
    /// one; a server is created only where its address was free or is not used.
    pub proof fn law_what_leads_to_each_step(self, step: StartStep, outcome: StartOutcome<S>)
        requires
            outcome_fits(step, outcome),
        ensures
            ({
                let next = self.started(step, outcome).1;
                let captured = step is CaptureOutput || step is ResetState && self.capture_started;
                &&& next !is ResetState
                &&& next is CaptureOutput <==> step is ResetState && !self.capture_started
                &&& next is HookPanics <==> captured && !self.hook_installed
                &&& next is EnterDirectory <==> step is HookPanics || captured
                    && self.hook_installed
                &&& next is BuildRuntime <==> step is EnterDirectory
                &&& next is LoadConfig <==> step is BuildRuntime
                &&& next is ProbeAddress <==> (outcome matches StartOutcome::Loaded {
                    java_enabled,
                    ..
                } && java_enabled)
                &&& next matches StartStep::ProbeAddress { address } ==> (
                outcome matches StartOutcome::Loaded { java_address, .. } && address
                    == java_address)
                &&& next is CreateServer <==> step is ProbeAddress && outcome is Done || (
                outcome matches StartOutcome::Loaded { java_enabled, .. } && !java_enabled)
                &&& next is InitPlugins <==> outcome is Created
                &&& next is Serve <==> step is InitPlugins
                &&& next is Finished <==> step is Serve || outcome is Failed
            }),
    {
    }

    /// What each step changes: loading the configuration sets the number of
    /// players, creating the server makes it known, the end of the run forgets
    /// it, a failure adds one log line, and nothing else changes either.
    pub proof fn law_steps_change_only_what_they_are_for(
        self,
        step: StartStep,
        outcome: StartOutcome<S>,
    )
        requires
            outcome_fits(step, outcome),
        ensures
            ({
                let (after, next) = self.started(step, outcome);
                &&& after.max_players == (match outcome {
                    StartOutcome::Loaded { max_players, .. } => max_players,
                    _ => self.max_players,
                })
                &&& after.active == (match outcome {
                    StartOutcome::Created { server } => Some(server),
                    StartOutcome::Failed { .. } => None,
                    _ => if step is Serve {
                        None
                    } else {
                        self.active
                    },
                })
                &&& outcome !is Failed ==> after.log == self.log
                &&& outcome is Failed ==> after.log.dropped + after.log.lines.len()
                    == self.log.dropped + self.log.lines.len() + 1
                &&& after.capture_started == (self.capture_started || step is ResetState)
                &&& after.hook_installed == (self.hook_installed || next is HookPanics)
            }),
    {
        if let StartOutcome::Failed { error } = outcome {
            self.law_logged_line_is_read_next(create_failure(error@));
            if let StartStep::ProbeAddress { address } = step {
                self.law_logged_line_is_read_next(bind_failure(address@, error@));
            }
        }
    }

    /// Output is redirected and the panic hook installed at most once: a step
    /// asks for either only where it was not done, and what is done stays done.
    pub proof fn law_process_is_set_up_once(self, step: StartStep, outcome: StartOutcome<S>)
        requires
            outcome_fits(step, outcome),
        ensures
            ({
                let (after, next) = self.started(step, outcome);
                &&& next is CaptureOutput ==> !self.capture_started && after.capture_started
                &&& next is HookPanics ==> !self.hook_installed && after.hook_installed
                &&& self.capture_started ==> after.capture_started
                &&& self.hook_installed ==> after.hook_installed
            }),
    {
    }

    /// A server can be started again after a previous run: the process is set
    /// up, so the new run goes from the reset straight to the data directory.
    pub proof fn law_next_run_starts_afresh(self)
        requires
            self.capture_started,
            self.hook_installed,
        ensures
            self.started(StartStep::ResetState, StartOutcome::Done) == (
                self,
                StartStep::EnterDirectory,
            ),
    {
    }

    /// The state that a previous run left behind is reset before anything else
    /// is done, and only then: a run is at the reset just when no step of it is
    /// done yet.
    pub proof fn law_run_resets_first(self, outcomes: Seq<StartOutcome<S>>)
        ensures
            self.run(StartStep::ResetState, outcomes).1 is ResetState <==> outcomes.len() == 0,
    {
        if outcomes.len() > 0 {
            self.law_reset_never_follows(StartStep::ResetState, outcomes);
        }
    }

    /// No step is followed by the reset, soon or late.
    pub proof fn law_reset_never_follows(self, step: StartStep, outcomes: Seq<StartOutcome<S>>)
        requires
            outcomes.len() > 0,
        ensures
            self.started(step, outcomes.first()).1 !is ResetState,
            self.run(step, outcomes).1 !is ResetState,
        decreases outcomes.len(),
    {
        let (after, next) = self.started(step, outcomes.first());
        let rest = outcomes.drop_first();
        if rest.len() > 0 {
            after.law_reset_never_follows(next, rest);
        } else {
            assert(after.run(next, rest) == (after, next));
        }
    }

    /// The outcomes of a run in which everything goes well, up to the point at
    /// which the server runs. What is still to be set up for the process comes
    /// between the reset and the data directory.
    pub open spec fn good_outcomes(
        self,
        java_enabled: bool,
        java_address: String,
        max_players: u32,
        server: S,
    ) -> Seq<StartOutcome<S>> {
        let done = seq![StartOutcome::<S>::Done];
        let none = Seq::<StartOutcome<S>>::empty();
        done + (if self.capture_started {
            none
        } else {
            done
        }) + (if self.hook_installed {
            none
        } else {
            done
        }) + done + done + seq![StartOutcome::Loaded { java_enabled, java_address, max_players }]
            + (if java_enabled {
            done
        } else {
            none
        }) + seq![StartOutcome::Created { server }] + done
    }

    /// However earlier runs in the process ended, a run in which everything
    /// goes well comes to run its server, as a first one does: it leaves the
    /// log alone, makes the server known, and keeps the number of players.
    pub proof fn law_good_run_serves(
        self,
        java_enabled: bool,
        java_address: String,
        max_players: u32,
        server: S,
    )
        ensures
            self.run_fits(
                StartStep::ResetState,
                self.good_outcomes(java_enabled, java_address, max_players, server),
            ),
            self.run(
                StartStep::ResetState,
                self.good_outcomes(java_enabled, java_address, max_players, server),
            ) == (
                BridgeView {
                    log: self.log,
                    capture_started: true,
                    hook_installed: true,
                    active: Some(server),
                    max_players,
                },
                StartStep::Serve,
            ),
    {
        let done = seq![StartOutcome::<S>::Done];
        let ready = BridgeView { capture_started: true, hook_installed: true, ..self };
        let loaded = BridgeView { max_players, ..ready };
        let known = loaded.with_server(Some(server));
        let serve = Seq::<StartOutcome<S>>::empty();
        let plugins = done;
        let create = seq![StartOutcome::Created { server }] + plugins;
        let probe = if java_enabled {
            done + create
        } else {
            create
        };
        let load = seq![StartOutcome::Loaded { java_enabled, java_address, max_players }] + probe;
        let enter = done + (done + load);
        let hook = if self.hook_installed {
            enter
        } else {
            done + enter
        };
        let capture = if self.capture_started {
            hook
        } else {
            done + hook
        };
        let all = done + capture;
        assert(self.good_outcomes(java_enabled, java_address, max_players, server) =~= all);
        known.lemma_run_one(StartStep::InitPlugins, StartOutcome::Done, serve);
        assert(done + serve =~= plugins);
        loaded.lemma_run_one(StartStep::CreateServer, StartOutcome::Created { server }, plugins);
        loaded.lemma_run_one(
            StartStep::ProbeAddress { address: java_address },
            StartOutcome::Done,
            create,
        );
        ready.lemma_run_one(
            StartStep::LoadConfig,
            StartOutcome::Loaded { java_enabled, java_address, max_players },
            probe,
        );
        ready.lemma_run_one(StartStep::BuildRuntime, StartOutcome::Done, load);
        ready.lemma_run_one(StartStep::EnterDirectory, StartOutcome::Done, done + load);
        ready.lemma_run_one(StartStep::HookPanics, StartOutcome::Done, enter);
        self.capturing().lemma_run_one(StartStep::CaptureOutput, StartOutcome::Done, hook);
        self.lemma_run_one(StartStep::ResetState, StartOutcome::Done, capture);
        assert(self.capture_started ==> self.capturing() == self);
        assert(self.hook_installed ==> self.capturing() == ready);
        assert(self.capturing().hooked() == ready);
    }

    /// Taking a run one step further.
    proof fn lemma_run_one(
        self,
        step: StartStep,
        outcome: StartOutcome<S>,
        rest: Seq<StartOutcome<S>>,
    )
        ensures
            self.run(step, seq![outcome] + rest) == self.started(step, outcome).0.run(
                self.started(step, outcome).1,
                rest,
            ),
            self.run_fits(step, seq![outcome] + rest) == (outcome_fits(step, outcome)
                && self.started(step, outcome).0.run_fits(self.started(step, outcome).1, rest)),
    {
        let outcomes = seq![outcome] + rest;
        assert(outcomes.first() == outcome);
        assert(outcomes.drop_first() =~= rest);
    }

    /// A run takes at most ten steps. It logs nothing but the failure that ends
    /// it, and where it is over and began without a server it leaves none.
    pub proof fn law_run_ends(self, step: StartStep, outcomes: Seq<StartOutcome<S>>)
        requires
            self.run_fits(step, outcomes),
        ensures
            outcomes.len() + steps_left(self.run(step, outcomes).1) <= steps_left(step),
            self.run(step, outcomes).1 is Finished || self.run(step, outcomes).0.log == self.log,
            self.run(step, outcomes).0.log.total() <= self.log.total() + 1,
            (self.active is Some <==> server_known_at(step)) ==> (self.run(
                step,
                outcomes,
            ).0.active is Some <==> server_known_at(self.run(step, outcomes).1)),
        decreases outcomes.len(),
    {
        if outcomes.len() > 0 {
            let (after, next) = self.started(step, outcomes.first());
            after.law_run_ends(next, outcomes.drop_first());
        }
    }
}

/// How many steps a report of a panic can still take, this one included.
pub open spec fn panic_steps_left(step: PanicStep) -> nat {
    match step {
        PanicStep::WriteFallback => 5,
        PanicStep::CaptureBacktrace => 4,
        PanicStep::ForceBacktrace => 3,
        PanicStep::BuildReport => 2,
        PanicStep::SaveReport => 1,
        PanicStep::Finished => 0,
    }
}

/// The step that a report of a panic is at after `done` steps.
pub open spec fn panic_step_after(captured: bool, done: nat) -> PanicStep
    decreases done,
{
    if done == 0 {
        PanicStep::WriteFallback
    } else {
        next_panic_step(panic_step_after(captured, (done - 1) as nat), captured)
    }
}

/// Each step of reporting a panic brings the report closer to its end. Nothing
/// leads back to the fallback file, and a report is saved only right after the
/// step that logs the panic.
pub proof fn law_panic_is_logged_before_its_report_is_saved(step: PanicStep, captured: bool)
    ensures
        step !is Finished ==> panic_steps_left(next_panic_step(step, captured)) < panic_steps_left(
            step,
        ),
        next_panic_step(step, captured) !is WriteFallback,
        next_panic_step(step, captured) is SaveReport <==> step is BuildReport,
{
}

/// What each step of reporting a panic is followed by. Only after a capture
/// does it matter whether the backtrace has frames.
pub proof fn law_panic_steps_follow_in_order(captured: bool)
    ensures
        panic_step_after(captured, 1) is CaptureBacktrace,
        captured ==> panic_step_after(captured, 2) is BuildReport,
        captured ==> panic_step_after(captured, 3) is SaveReport,
        captured ==> panic_step_after(captured, 4) is Finished,
        !captured ==> panic_step_after(captured, 2) is ForceBacktrace,
        !captured ==> panic_step_after(captured, 3) is BuildReport,
        !captured ==> panic_step_after(captured, 4) is SaveReport,
        !captured ==> panic_step_after(captured, 5) is Finished,
        forall|step: PanicStep, other: bool|
            step !is CaptureBacktrace ==> #[trigger] next_panic_step(step, captured)
                == #[trigger] next_panic_step(step, other),
{
    reveal_with_fuel(panic_step_after, 6);
}

/// A panic is one more log line, which reads `PANIC: ` and what the panic said.
pub proof fn law_panic_is_read_next<S>(bridge: BridgeView<S>, info: Seq<char>)
    ensures
        bridge.logged(panic_line(info)).log.since(bridge.log.dropped + bridge.log.lines.len())
            == "PANIC: "@ + info,
{
    bridge.law_logged_line_is_read_next(panic_line(info));
}

/// The fallback file is written before anything else is done about a panic,
/// and only then.
pub proof fn law_fallback_is_written_first(captured: bool, done: nat)
    ensures
        panic_step_after(captured, done) is WriteFallback <==> done == 0,
{
}

} // verus!
