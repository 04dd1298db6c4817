//! The station connection manager: what to ask of the radio controller and
//! the network interface, in which order, and what each answer leads to.
//!
//! The manager touches no hardware. [`WifiHandler::start_connection`] and
//! [`WifiHandler::advance`] name the next [`Command`]; the caller carries it
//! out on its driver and reports the answer as an [`Event`].

use crate::credentials::{checked, ConnectionCredentials};
use crate::error::{wrap_outcome, wrapped, CredentialsError, WifiHandlerError};
use crate::poll::{fresh_poller, BoundedPoller, PollPolicy, PollStep, PollerModel};
use vstd::prelude::*;

verus! {

/// How far the station has come, by the last step its driver confirmed.
#[derive(Clone, Copy, Debug, PartialEq, Eq)]
pub enum ConnectionState {
    /// No configuration has been accepted yet.
    Unconfigured,
    /// The controller holds a configuration.
    Configured,
    /// The controller has accepted a start request.
    Started,
    /// The station is associated with its network.
    Associated,
    /// The network interface is up.
    InterfaceUp,
}

/// One request to the driver, or a pause.
#[derive(Clone, Copy, Debug, PartialEq, Eq)]
pub enum Command {
    /// Ask the controller to begin operating.
    Start,
    /// Ask the controller whether it reports itself started.
    QueryStarted,
    /// Ask the controller to associate with the configured network.
    Connect,
    /// Ask the controller whether the station is associated.
    QueryConnected,
    /// Let the network interface advance its state, then ask whether it is up.
    PollInterface,
    /// Block for the given number of milliseconds.
    Sleep(u32),
}

/// The driver's answer to a [`Command`].
#[derive(Debug, PartialEq, Eq)]
pub enum Event<E> {
    /// Answer to [`Command::Start`].
    StartDone(Result<(), E>),
    /// Answer to [`Command::QueryStarted`].
    StartedFlag(Result<bool, E>),
    /// Answer to [`Command::Connect`].
    ConnectDone(Result<(), E>),
    /// Answer to [`Command::QueryConnected`].
    ConnectedFlag(Result<bool, E>),
    /// Answer to [`Command::PollInterface`]: whether the interface is up.
    InterfaceUp(bool),
    /// Answer to [`Command::Sleep`]: the pause is over.
    Slept,
}

/// How bring-up goes on after an [`Event`].
#[derive(Debug, PartialEq, Eq)]
pub enum Step<E> {
    /// Carry out the command and report its answer.
    Perform(Command),
    /// Bring-up has ended with this result.
    Finished(Result<(), WifiHandlerError<E>>),
}

/// The answer that bring-up is waiting for.
pub enum Phase {
    /// No bring-up is under way.
    Idle,
    /// The controller was asked to start.
    Starting,
    /// The controller was asked whether it is started.
    CheckingStarted,
    /// The controller was asked to associate.
    Connecting,
    /// The controller was asked whether the station is associated, after the
    /// given number of failed probes.
    Associating(nat),
    /// A pause between two association probes, after the given number of
    /// failed probes.
    AssociationPause(nat),
    /// The interface was polled, after the given number of failed probes.
    AwaitingInterface(nat),
    /// A pause between two interface probes, after the given number of failed
    /// probes.
    InterfacePause(nat),
}

/// What a started-flag answer means for bring-up.
pub open spec fn started_outcome<E>(flag: Result<bool, E>) -> Result<(), WifiHandlerError<E>> {
    match flag {
        Ok(true) => Ok(()),
        Ok(false) => Err(WifiHandlerError::NotStarted),
        Err(e) => Err(WifiHandlerError::WifiError(e)),
    }
}

/// What one association probe comes to: only a plain "connected" succeeds;
/// "not yet" and a driver failure both count as a failed probe.
pub open spec fn association_outcome<E>(flag: Result<bool, E>) -> Result<(), WifiHandlerError<E>> {
    match flag {
        Ok(true) => Ok(()),
        _ => Err(WifiHandlerError::CantConnect),
    }
}

/// What one interface probe comes to.
pub open spec fn interface_outcome<E>(up: bool) -> Result<(), WifiHandlerError<E>> {
    if up {
        Ok(())
    } else {
        Err(WifiHandlerError::NoIface)
    }
}

/// Mathematical content of a [`WifiHandler`].
pub struct HandlerModel {
    /// Attempt ceiling of each polling round.
    pub max_attempts: nat,
    /// Pause between two probes, in milliseconds.
    pub delay_ms: nat,
    /// The last step the driver confirmed.
    pub state: ConnectionState,
    /// The answer that bring-up is waiting for.
    pub phase: Phase,
}

impl HandlerModel {
    /// Every polling round under way is short of its ceiling.
    pub open spec fn well_formed(self) -> bool {
        &&& 1 <= self.max_attempts <= u32::MAX
        &&& self.delay_ms <= u32::MAX
        &&& match self.phase {
            Phase::Associating(failures) => failures < self.max_attempts,
            Phase::AssociationPause(failures) => failures < self.max_attempts,
            Phase::AwaitingInterface(failures) => failures < self.max_attempts,
            Phase::InterfacePause(failures) => failures < self.max_attempts,
            _ => true,
        }
    }

    /// The poller of a round in which `failures` probes have failed.
    pub open spec fn poller(self, failures: nat) -> PollerModel {
        PollerModel { max_attempts: self.max_attempts, delay_ms: self.delay_ms, failures }
    }

    /// The command whose answer is awaited, if any.
    pub open spec fn pending(self) -> Option<Command> {
        match self.phase {
            Phase::Idle => None,
            Phase::Starting => Some(Command::Start),
            Phase::CheckingStarted => Some(Command::QueryStarted),
            Phase::Connecting => Some(Command::Connect),
            Phase::Associating(_) => Some(Command::QueryConnected),
            Phase::AssociationPause(_) => Some(Command::Sleep(self.delay_ms as u32)),
            Phase::AwaitingInterface(_) => Some(Command::PollInterface),
            Phase::InterfacePause(_) => Some(Command::Sleep(self.delay_ms as u32)),
        }
    }

    /// The handler once `state` is confirmed.
    pub open spec fn reached(self, state: ConnectionState) -> HandlerModel {
        HandlerModel { state, ..self }
    }

    /// The handler at the beginning of bring-up.
    pub open spec fn begun(self) -> HandlerModel {
        HandlerModel { phase: Phase::Starting, ..self }
    }

    /// Bring-up goes on in `phase` with `command`.
    pub open spec fn proceed<E>(self, phase: Phase, command: Command) -> (HandlerModel, Step<E>) {
        (HandlerModel { phase, ..self }, Step::Perform(command))
    }

    /// Bring-up ends with `result`.
    pub open spec fn finish<E>(self, result: Result<(), WifiHandlerError<E>>) -> (
        HandlerModel,
        Step<E>,
    ) {
        (HandlerModel { phase: Phase::Idle, ..self }, Step::Finished(result))
    }

    /// The handler after the controller answered a configuration request.
    pub open spec fn configured<E>(self, outcome: Result<(), E>) -> HandlerModel {
        if outcome is Ok {
            self.reached(ConnectionState::Configured)
        } else {
            self
        }
    }

    /// The handler after the controller answered a start request.
    pub open spec fn started<E>(self, outcome: Result<(), E>) -> HandlerModel {
        if outcome is Ok {
            self.reached(ConnectionState::Started)
        } else {
            self
        }
    }

    /// The handler and the next step after `event`; `None` when `event` does
    /// not answer the pending command.
    ///
    /// Bring-up asks, in this order: start; the started flag; connect; the
    /// association flag until it is set or the attempts are used up; the
    /// interface until it is up or the attempts are used up. The first
    /// failure ends it.
    pub open spec fn advanced<E>(self, event: Event<E>) -> Option<(HandlerModel, Step<E>)> {
        match (self.phase, event) {
            (Phase::Starting, Event::StartDone(outcome)) => Some(
                match wrapped(outcome) {
                    Ok(_) => self.started(outcome).proceed(
                        Phase::CheckingStarted,
                        Command::QueryStarted,
                    ),
                    Err(e) => self.finish(Err(e)),
                },
            ),
            (Phase::CheckingStarted, Event::StartedFlag(flag)) => Some(
                match started_outcome(flag) {
                    Ok(_) => self.proceed(Phase::Connecting, Command::Connect),
                    Err(e) => self.finish(Err(e)),
                },
            ),
            (Phase::Connecting, Event::ConnectDone(outcome)) => Some(
                match wrapped(outcome) {
                    Ok(_) => self.proceed(Phase::Associating(0), Command::QueryConnected),
                    Err(e) => self.finish(Err(e)),
                },
            ),
            (Phase::Associating(failures), Event::ConnectedFlag(flag)) => Some(
                match self.poller(failures).observed(association_outcome(flag)) {
                    (_, PollStep::Ready(_)) => self.reached(ConnectionState::Associated).proceed(
                        Phase::AwaitingInterface(0),
                        Command::PollInterface,
                    ),
                    (next, PollStep::Retry(pause)) => self.proceed(
                        Phase::AssociationPause(next.failures),
                        Command::Sleep(pause),
                    ),
                    (_, PollStep::Exhausted(e)) => self.finish(Err(e)),
                },
            ),
            (Phase::AssociationPause(failures), Event::Slept) => Some(
                self.proceed(Phase::Associating(failures), Command::QueryConnected),
            ),
            (Phase::AwaitingInterface(failures), Event::InterfaceUp(up)) => Some(
                match self.poller(failures).observed(interface_outcome::<E>(up)) {
                    (_, PollStep::Ready(_)) => self.reached(ConnectionState::InterfaceUp).finish(
                        Ok(()),
                    ),
                    (next, PollStep::Retry(pause)) => self.proceed(
                        Phase::InterfacePause(next.failures),
                        Command::Sleep(pause),
                    ),
                    (_, PollStep::Exhausted(e)) => self.finish(Err(e)),
                },
            ),
            (Phase::InterfacePause(failures), Event::Slept) => Some(
                self.proceed(Phase::AwaitingInterface(failures), Command::PollInterface),
            ),
            _ => None,
        }
    }
}

/// Where bring-up stands, with the poller of the round under way.
#[derive(Clone, Copy, Debug)]
enum Stage {
    Idle,
    Starting,
    CheckingStarted,
    Connecting,
    Associating(BoundedPoller),
    AssociationPause(BoundedPoller),
    AwaitingInterface(BoundedPoller),
    InterfacePause(BoundedPoller),
}

impl Stage {
    spec fn phase(self) -> Phase {
        match self {
            Stage::Idle => Phase::Idle,
            Stage::Starting => Phase::Starting,
            Stage::CheckingStarted => Phase::CheckingStarted,
            Stage::Connecting => Phase::Connecting,
            Stage::Associating(poller) => Phase::Associating(poller@.failures),
            Stage::AssociationPause(poller) => Phase::AssociationPause(poller@.failures),
            Stage::AwaitingInterface(poller) => Phase::AwaitingInterface(poller@.failures),
            Stage::InterfacePause(poller) => Phase::InterfacePause(poller@.failures),
        }
    }

    spec fn polls_under(self, policy: PollPolicy) -> bool {
        match self {
            Stage::Associating(poller) => poller@.restarted() == fresh_poller(policy),
            Stage::AssociationPause(poller) => poller@.restarted() == fresh_poller(policy),
            Stage::AwaitingInterface(poller) => poller@.restarted() == fresh_poller(policy),
            Stage::InterfacePause(poller) => poller@.restarted() == fresh_poller(policy),
            _ => true,
        }
    }
}

/// The connection manager of one wireless station.
///
/// It keeps the polling policy, the last state the driver confirmed and the
/// place that a bring-up under way has reached.
#[derive(Debug)]
pub struct WifiHandler {
    policy: PollPolicy,
    state: ConnectionState,
    stage: Stage,
}

impl View for WifiHandler {
    type V = HandlerModel;

    closed spec fn view(&self) -> HandlerModel {
        HandlerModel {
            max_attempts: self.policy.max_attempts() as nat,
            delay_ms: self.policy.delay_ms() as nat,
            state: self.state,
            phase: self.stage.phase(),
        }
    }
}

impl WifiHandler {
    #[verifier::type_invariant]
    spec fn consistent(self) -> bool {
        self.stage.polls_under(self.policy) && self@.well_formed()
    }

    /// A manager for a station that has not been configured yet.
    pub fn new(policy: PollPolicy) -> (r: WifiHandler)
        ensures
            r@ == (HandlerModel {
                max_attempts: policy.max_attempts() as nat,
                delay_ms: policy.delay_ms() as nat,
                state: ConnectionState::Unconfigured,
                phase: Phase::Idle,
            }),
            r@.well_formed(),
    {
        let _ = policy.max_attempts();
        WifiHandler { policy, state: ConnectionState::Unconfigured, stage: Stage::Idle }
    }

    /// The policy of both polling rounds.
    pub fn policy(&self) -> (p: PollPolicy)
        ensures
            p.max_attempts() == self@.max_attempts,
            p.delay_ms() == self@.delay_ms,
    {
        self.policy
    }

    /// The last step the driver confirmed.
    pub fn state(&self) -> (s: ConnectionState)
        ensures
            s == self@.state,
    {
        self.state
    }

    /// The command whose answer the manager is waiting for, if any.
    pub fn pending(&self) -> (c: Option<Command>)
        ensures
            c == self@.pending(),
            self@.well_formed(),
    {
        proof {
            use_type_invariant(self);
        }
        match self.stage {
            Stage::Idle => None,
            Stage::Starting => Some(Command::Start),
            Stage::CheckingStarted => Some(Command::QueryStarted),
            Stage::Connecting => Some(Command::Connect),
            Stage::Associating(_) => Some(Command::QueryConnected),
            Stage::AssociationPause(_) => Some(Command::Sleep(self.policy.delay_ms())),
            Stage::AwaitingInterface(_) => Some(Command::PollInterface),
            Stage::InterfacePause(_) => Some(Command::Sleep(self.policy.delay_ms())),
        }
    }

    /// Checks a network identifier and a secret against the driver's bounds
    /// and returns the credentials to configure the controller with.
    ///
    /// A text that is too long is refused here, so that nothing reaches the
    /// driver. The manager itself does not change: the configuration counts
    /// once [`WifiHandler::set_config`] has taken the controller's answer.
    pub fn set_user_pass(&mut self, ssid: &str, password: &str) -> (r: Result<
        ConnectionCredentials,
        CredentialsError,
    >)
        ensures
            final(self)@ == old(self)@,
            checked(ssid, password, r),
    {
        ConnectionCredentials::new(ssid, password)
    }

    /// Takes the controller's answer to a configuration request and hands it
    /// on unchanged. An accepted configuration makes the station
    /// [`ConnectionState::Configured`].
    pub fn set_config<E>(&mut self, outcome: Result<(), E>) -> (r: Result<(), E>)
        ensures
            r == outcome,
            final(self)@ == old(self)@.configured(outcome),
    {
        proof {
            use_type_invariant(&*self);
        }
        if outcome.is_ok() {
            self.state = ConnectionState::Configured;
        }
        outcome
    }

    /// Takes the controller's answer to a start request, with a failure
    /// wrapped as [`WifiHandlerError::WifiError`]. An accepted request makes
    /// the station [`ConnectionState::Started`], whatever it was before.
    pub fn start<E>(&mut self, outcome: Result<(), E>) -> (r: Result<(), WifiHandlerError<E>>)
        ensures
            r == wrapped(outcome),
            final(self)@ == old(self)@.started(outcome),
    {
        proof {
            use_type_invariant(&*self);
        }
        if outcome.is_ok() {
            self.state = ConnectionState::Started;
        }
        wrap_outcome(outcome)
    }

    /// Takes the controller's answer to an association request, with a
    /// failure wrapped as [`WifiHandlerError::WifiError`].
    pub fn connect<E>(&mut self, outcome: Result<(), E>) -> (r: Result<(), WifiHandlerError<E>>)
        ensures
            r == wrapped(outcome),
            final(self)@ == old(self)@,
    {
        wrap_outcome(outcome)
    }

    /// Takes the controller's answer to an association query, with a failure
    /// wrapped as [`WifiHandlerError::WifiError`].
    pub fn is_connected<E>(&mut self, outcome: Result<bool, E>) -> (r: Result<
        bool,
        WifiHandlerError<E>,
    >)
        ensures
            r == wrapped(outcome),
            final(self)@ == old(self)@,
    {
        wrap_outcome(outcome)
    }

    /// Checks the controller's started flag: a controller that accepted the
    /// start request and yet is not started fails with
    /// [`WifiHandlerError::NotStarted`].
    pub fn require_started<E>(flag: Result<bool, E>) -> (r: Result<(), WifiHandlerError<E>>)
        ensures
            r == started_outcome(flag),
    {
        match wrap_outcome(flag) {
            Ok(true) => Ok(()),
            Ok(false) => Err(WifiHandlerError::NotStarted),
            Err(e) => Err(e),
        }
    }

    /// Turns the answer to an association query into the outcome of one
    /// probe.
    pub fn association_probe<E>(flag: Result<bool, E>) -> (r: Result<(), WifiHandlerError<E>>)
        ensures
            r == association_outcome(flag),
    {
        match flag {
            Ok(true) => Ok(()),
            _ => Err(WifiHandlerError::CantConnect),
        }
    }

    /// Turns the interface's up flag into the outcome of one probe.
    pub fn interface_probe<E>(up: bool) -> (r: Result<(), WifiHandlerError<E>>)
        ensures
            r == interface_outcome::<E>(up),
    {
        if up {
            Ok(())
        } else {
            Err(WifiHandlerError::NoIface)
        }
    }

    /// Begins bring-up and names its first command. A bring-up that was under
    /// way is given up.
    pub fn start_connection(&mut self) -> (c: Command)
        ensures
            final(self)@ == old(self)@.begun(),
            final(self)@.well_formed(),
            c == Command::Start,
    {
        proof {
            use_type_invariant(&*self);
        }
        self.stage = Stage::Starting;
        Command::Start
    }

    /// Takes the driver's answer to the pending command and says how bring-up
    /// goes on.
    ///
    /// Returns `None`, and changes nothing, when `event` does not answer the
    /// pending command or no bring-up is under way.
    pub fn advance<E>(&mut self, event: Event<E>) -> (r: Option<Step<E>>)
        ensures
            old(self)@.well_formed(),
            final(self)@.well_formed(),
            match old(self)@.advanced(event) {
                Some((next, step)) => final(self)@ == next && r == Some(step),
                None => final(self)@ == old(self)@ && r is None,
            },
    {
        proof {
            use_type_invariant(&*self);
        }
        let _ = self.policy.max_attempts();
        match self.stage {
            Stage::Idle => None,
            Stage::Starting => match event {
                Event::StartDone(outcome) => match self.start(outcome) {
                    Ok(_) => {
                        self.stage = Stage::CheckingStarted;
                        Some(Step::Perform(Command::QueryStarted))
                    },
                    Err(e) => {
                        self.stage = Stage::Idle;
                        Some(Step::Finished(Err(e)))
                    },
                },
                _ => None,
            },
            Stage::CheckingStarted => match event {
                Event::StartedFlag(flag) => match Self::require_started(flag) {
                    Ok(_) => {
                        self.stage = Stage::Connecting;
                        Some(Step::Perform(Command::Connect))
                    },
                    Err(e) => {
                        self.stage = Stage::Idle;
                        Some(Step::Finished(Err(e)))
                    },
                },
                _ => None,
            },
            Stage::Connecting => match event {
                Event::ConnectDone(outcome) => match self.connect(outcome) {
                    Ok(_) => {
                        self.stage = Stage::Associating(BoundedPoller::new(self.policy));
                        Some(Step::Perform(Command::QueryConnected))
                    },
                    Err(e) => {
                        self.stage = Stage::Idle;
                        Some(Step::Finished(Err(e)))
                    },
                },
                _ => None,
            },
            Stage::Associating(poller) => match event {
                Event::ConnectedFlag(flag) => {
                    let mut poller = poller;
                    match poller.observe(Self::association_probe(flag)) {
                        PollStep::Ready(_) => {
                            self.state = ConnectionState::Associated;
                            self.stage = Stage::AwaitingInterface(BoundedPoller::new(self.policy));
                            Some(Step::Perform(Command::PollInterface))
                        },
                        PollStep::Retry(pause) => {
                            self.stage = Stage::AssociationPause(poller);
                            Some(Step::Perform(Command::Sleep(pause)))
                        },
                        PollStep::Exhausted(e) => {
                            self.stage = Stage::Idle;
                            Some(Step::Finished(Err(e)))
                        },
                    }
                },
                _ => None,
            },
            Stage::AssociationPause(poller) => match event {
                Event::Slept => {
                    self.stage = Stage::Associating(poller);
                    Some(Step::Perform(Command::QueryConnected))
                },
                _ => None,
            },
            Stage::AwaitingInterface(poller) => match event {
                Event::InterfaceUp(up) => {
                    let mut poller = poller;
                    match poller.observe(Self::interface_probe(up)) {
                        PollStep::Ready(_) => {
                            self.state = ConnectionState::InterfaceUp;
                            self.stage = Stage::Idle;
                            Some(Step::Finished(Ok(())))
                        },
                        PollStep::Retry(pause) => {
                            self.stage = Stage::InterfacePause(poller);
                            Some(Step::Perform(Command::Sleep(pause)))
                        },
                        PollStep::Exhausted(e) => {
                            self.stage = Stage::Idle;
                            Some(Step::Finished(Err(e)))
                        },
                    }
                },
                _ => None,
            },
            Stage::InterfacePause(poller) => match event {
                Event::Slept => {
                    self.stage = Stage::AwaitingInterface(poller);
                    Some(Step::Perform(Command::PollInterface))
                },
                _ => None,
            },
        }
    }
}

} // verus!
