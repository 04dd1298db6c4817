//! Bring-up as a whole: what the manager comes to when its commands are
//! carried out faithfully, for every way the hardware may answer.
//!
//! A [`Script`] fixes the hardware's answers. [`drive`] plays the caller's
//! loop against it: it answers the pending command from the script, hands the
//! answer to the manager and goes on until the manager has finished. The
//! theorems of this module say what comes out and how many calls it took.

use crate::error::WifiHandlerError;
use crate::handler::{ConnectionState, Event, HandlerModel, Phase, Step};
use vstd::prelude::*;

verus! {

/// The answers of the hardware, call by call.
pub struct Script<E> {
    /// Answer to the start request.
    pub start: Result<(), E>,
    /// Answer to the started query.
    pub started: Result<bool, E>,
    /// Answer to the association request.
    pub connect: Result<(), E>,
    /// Answers to the association queries, in the order they are made.
    pub connected: Seq<Result<bool, E>>,
    /// Whether the interface is up, for each time it is polled.
    pub interface_up: Seq<bool>,
}

/// How often each command was carried out.
pub struct Tally {
    /// Start requests.
    pub starts: nat,
    /// Started queries.
    pub started_queries: nat,
    /// Association requests.
    pub connects: nat,
    /// Association queries.
    pub connected_queries: nat,
    /// Interface polls.
    pub interface_polls: nat,
    /// Pauses.
    pub sleeps: nat,
}

impl Tally {
    /// Nothing has been carried out yet.
    pub open spec fn zero() -> Tally {
        Tally {
            starts: 0,
            started_queries: 0,
            connects: 0,
            connected_queries: 0,
            interface_polls: 0,
            sleeps: 0,
        }
    }

    /// All commands carried out, pauses included.
    pub open spec fn total(self) -> nat {
        self.starts + self.started_queries + self.connects + self.connected_queries
            + self.interface_polls + self.sleeps
    }
}

/// What a bring-up came to.
pub struct Outcome<E> {
    /// The result handed to the caller.
    pub result: Result<(), WifiHandlerError<E>>,
    /// The commands it took.
    pub tally: Tally,
    /// The manager afterwards.
    pub end: HandlerModel,
}

/// The hardware's answer to the command that `m` is waiting on, and the tally
/// once that command is carried out. `None` when nothing is pending or the
/// script holds no further answer.
pub open spec fn answer<E>(m: HandlerModel, script: Script<E>, tally: Tally) -> Option<
    (Event<E>, Tally),
> {
    match m.phase {
        Phase::Idle => None,
        Phase::Starting => Some(
            (Event::StartDone(script.start), Tally { starts: tally.starts + 1, ..tally }),
        ),
        Phase::CheckingStarted => Some(
            (
                Event::StartedFlag(script.started),
                Tally { started_queries: tally.started_queries + 1, ..tally },
            ),
        ),
        Phase::Connecting => Some(
            (Event::ConnectDone(script.connect), Tally { connects: tally.connects + 1, ..tally }),
        ),
        Phase::Associating(_) => if tally.connected_queries < script.connected.len() {
            Some(
                (
                    Event::ConnectedFlag(script.connected[tally.connected_queries as int]),
                    Tally { connected_queries: tally.connected_queries + 1, ..tally },
                ),
            )
        } else {
            None
        },
        Phase::AwaitingInterface(_) => if tally.interface_polls < script.interface_up.len() {
            Some(
                (
                    Event::InterfaceUp(script.interface_up[tally.interface_polls as int]),
                    Tally { interface_polls: tally.interface_polls + 1, ..tally },
                ),
            )
        } else {
            None
        },
        Phase::AssociationPause(_) => Some((Event::Slept, Tally { sleeps: tally.sleeps + 1, ..tally })),
        Phase::InterfacePause(_) => Some((Event::Slept, Tally { sleeps: tally.sleeps + 1, ..tally })),
    }
}

/// The largest number of commands that a manager in the state of `m` can
/// still ask for before it has finished.
pub open spec fn budget(m: HandlerModel) -> nat {
    let max = m.max_attempts as int;
    (match m.phase {
        Phase::Idle => 0,
        Phase::Starting => 4 * max + 1,
        Phase::CheckingStarted => 4 * max,
        Phase::Connecting => 4 * max - 1,
        Phase::Associating(failures) => 4 * max - 2 * failures - 2,
        Phase::AssociationPause(failures) => 4 * max - 2 * failures - 1,
        Phase::AwaitingInterface(failures) => 2 * max - 2 * failures - 1,
        Phase::InterfacePause(failures) => 2 * max - 2 * failures,
    }) as nat
}

/// The bring-up that the manager `m` goes through from where it stands, when
/// each command is answered from `script`; `tally` counts the commands
/// carried out before. `None` when the script runs out of answers first.
pub open spec fn drive<E>(m: HandlerModel, script: Script<E>, tally: Tally) -> Option<Outcome<E>>
    decreases budget(m),
    when m.well_formed()
    via drive_decreases::<E>
{
    match answer(m, script, tally) {
        None => None,
        Some((event, counted)) => match m.advanced(event) {
            None => None,
            Some((end, Step::Finished(result))) => Some(Outcome { result, tally: counted, end }),
            Some((next, Step::Perform(_))) => drive(next, script, counted),
        },
    }
}

#[via_fn]
proof fn drive_decreases<E>(m: HandlerModel, script: Script<E>, tally: Tally) {
    lemma_step_spends_budget::<E>(m, answer(m, script, tally)->Some_0.0);
}

/// Each step keeps the manager well formed, asks for the command that the
/// next state is waiting on, and leaves less to do than before.
pub proof fn lemma_step_spends_budget<E>(m: HandlerModel, event: Event<E>)
    requires
        m.well_formed(),
    ensures
        m.advanced(event) matches Some((next, step)) ==> {
            &&& next.well_formed()
            &&& budget(next) < budget(m)
            &&& match step {
                Step::Perform(command) => next.pending() == Some(command),
                Step::Finished(_) => next.phase == Phase::Idle,
            }
        },
{
}

/// Whether none of the association queries from `from` up to `to` finds the
/// station associated.
pub open spec fn unassociated<E>(script: Script<E>, from: int, to: int) -> bool {
    forall|i: int| from <= i < to ==> (#[trigger] script.connected[i]) != Ok::<bool, E>(true)
}

/// Whether none of the interface polls from `from` up to `to` finds the
/// interface up.
pub open spec fn interface_down<E>(script: Script<E>, from: int, to: int) -> bool {
    forall|i: int| from <= i < to ==> !(#[trigger] script.interface_up[i])
}

/// Whether the `attempt`-th association query, counted from one, is the first
/// that finds the station associated.
pub open spec fn associates_at<E>(script: Script<E>, attempt: int) -> bool {
    &&& 1 <= attempt <= script.connected.len()
    &&& unassociated(script, 0, attempt - 1)
    &&& script.connected[attempt - 1] == Ok::<bool, E>(true)
}

/// Whether the `attempt`-th interface poll, counted from one, is the first
/// that finds the interface up.
pub open spec fn comes_up_at<E>(script: Script<E>, attempt: int) -> bool {
    &&& 1 <= attempt <= script.interface_up.len()
    &&& interface_down(script, 0, attempt - 1)
    &&& script.interface_up[attempt - 1]
}

/// Whether the controller starts, reports itself started and accepts the
/// association request.
pub open spec fn reaches_association<E>(script: Script<E>) -> bool {
    &&& script.start is Ok
    &&& script.started == Ok::<bool, E>(true)
    &&& script.connect is Ok
}

/// The manager `m` with `state` confirmed and no bring-up under way.
pub open spec fn at_rest(m: HandlerModel, state: ConnectionState) -> HandlerModel {
    HandlerModel { state, phase: Phase::Idle, ..m }
}

/// `n` failed association probes in a row, none of them the last allowed,
/// cost `n` queries and `n` pauses and leave the round `n` failures further.
proof fn lemma_association_retries<E>(m: HandlerModel, script: Script<E>, tally: Tally, n: nat)
    requires
        m.well_formed(),
        m.phase is Associating,
        m.phase->Associating_0 + n < m.max_attempts,
        tally.connected_queries + n <= script.connected.len(),
        unassociated(script, tally.connected_queries as int, (tally.connected_queries + n) as int),
    ensures
        drive(m, script, tally) == drive(
            HandlerModel { phase: Phase::Associating(m.phase->Associating_0 + n), ..m },
            script,
            Tally {
                connected_queries: tally.connected_queries + n,
                sleeps: tally.sleeps + n,
                ..tally
            },
        ),
    decreases n,
{
    if n > 0 {
        let failures = m.phase->Associating_0;
        let flag = script.connected[tally.connected_queries as int];
        assert(flag != Ok::<bool, E>(true));
        let paused = HandlerModel { phase: Phase::AssociationPause(failures + 1), ..m };
        let queried = Tally { connected_queries: tally.connected_queries + 1, ..tally };
        assert(drive(m, script, tally) == drive(paused, script, queried));
        let resumed = HandlerModel { phase: Phase::Associating(failures + 1), ..m };
        let slept = Tally { sleeps: queried.sleeps + 1, ..queried };
        assert(drive(paused, script, queried) == drive(resumed, script, slept));
        lemma_association_retries(resumed, script, slept, (n - 1) as nat);
    }
}

/// `n` failed interface probes in a row, none of them the last allowed, cost
/// `n` polls and `n` pauses and leave the round `n` failures further.
proof fn lemma_interface_retries<E>(m: HandlerModel, script: Script<E>, tally: Tally, n: nat)
    requires
        m.well_formed(),
        m.phase is AwaitingInterface,
        m.phase->AwaitingInterface_0 + n < m.max_attempts,
        tally.interface_polls + n <= script.interface_up.len(),
        interface_down(script, tally.interface_polls as int, (tally.interface_polls + n) as int),
    ensures
        drive(m, script, tally) == drive(
            HandlerModel { phase: Phase::AwaitingInterface(m.phase->AwaitingInterface_0 + n), ..m },
            script,
            Tally { interface_polls: tally.interface_polls + n, sleeps: tally.sleeps + n, ..tally },
        ),
    decreases n,
{
    if n > 0 {
        let failures = m.phase->AwaitingInterface_0;
        assert(!script.interface_up[tally.interface_polls as int]);
        let paused = HandlerModel { phase: Phase::InterfacePause(failures + 1), ..m };
        let polled = Tally { interface_polls: tally.interface_polls + 1, ..tally };
        assert(drive(m, script, tally) == drive(paused, script, polled));
        let resumed = HandlerModel { phase: Phase::AwaitingInterface(failures + 1), ..m };
        let slept = Tally { sleeps: polled.sleeps + 1, ..polled };
        assert(drive(paused, script, polled) == drive(resumed, script, slept));
        lemma_interface_retries(resumed, script, slept, (n - 1) as nat);
    }
}

/// A controller that starts, reports itself started and accepts the
/// association request takes bring-up to its first association query after
/// three commands.
proof fn lemma_reaches_first_query<E>(m: HandlerModel, script: Script<E>)
    requires
        m.well_formed(),
        reaches_association(script),
    ensures
        drive(m.begun(), script, Tally::zero()) == drive(
            HandlerModel { state: ConnectionState::Started, phase: Phase::Associating(0), ..m },
            script,
            Tally { starts: 1, started_queries: 1, connects: 1, ..Tally::zero() },
        ),
{
    let started = HandlerModel { state: ConnectionState::Started, ..m };
    let checking = HandlerModel { phase: Phase::CheckingStarted, ..started };
    let one = Tally { starts: 1, ..Tally::zero() };
    assert(drive(m.begun(), script, Tally::zero()) == drive(checking, script, one));
    let connecting = HandlerModel { phase: Phase::Connecting, ..started };
    let two = Tally { started_queries: 1, ..one };
    assert(drive(checking, script, one) == drive(connecting, script, two));
    let querying = HandlerModel { phase: Phase::Associating(0), ..started };
    let three = Tally { connects: 1, ..two };
    assert(drive(connecting, script, two) == drive(querying, script, three));
}

/// A station that associates on its `attempt`-th query takes bring-up to its
/// first interface poll.
proof fn lemma_reaches_first_poll<E>(m: HandlerModel, script: Script<E>, attempt: int)
    requires
        m.well_formed(),
        reaches_association(script),
        associates_at(script, attempt),
        attempt <= m.max_attempts,
    ensures
        drive(m.begun(), script, Tally::zero()) == drive(
            HandlerModel {
                state: ConnectionState::Associated,
                phase: Phase::AwaitingInterface(0),
                ..m
            },
            script,
            Tally {
                starts: 1,
                started_queries: 1,
                connects: 1,
                connected_queries: attempt as nat,
                interface_polls: 0,
                sleeps: (attempt - 1) as nat,
            },
        ),
{
    let querying = HandlerModel {
        state: ConnectionState::Started,
        phase: Phase::Associating(0),
        ..m
    };
    let three = Tally { starts: 1, started_queries: 1, connects: 1, ..Tally::zero() };
    lemma_reaches_first_query(m, script);
    lemma_association_retries(querying, script, three, (attempt - 1) as nat);
    let last = HandlerModel { phase: Phase::Associating((attempt - 1) as nat), ..querying };
    let before = Tally {
        connected_queries: (attempt - 1) as nat,
        sleeps: (attempt - 1) as nat,
        ..three
    };
    let polling = HandlerModel {
        state: ConnectionState::Associated,
        phase: Phase::AwaitingInterface(0),
        ..m
    };
    let after = Tally { connected_queries: attempt as nat, ..before };
    assert(drive(last, script, before) == drive(polling, script, after));
}

/// A driver failure ends bring-up at once: when the controller refuses to
/// start, cannot tell whether it is started, or refuses to associate,
/// bring-up returns that failure, wrapped, and asks for nothing further.
pub proof fn lemma_driver_failure_ends_bring_up<E>(m: HandlerModel, script: Script<E>)
    requires
        m.well_formed(),
    ensures
        script.start matches Err(e) ==> drive(m.begun(), script, Tally::zero()) == Some(
            Outcome {
                result: Err(WifiHandlerError::WifiError(e)),
                tally: Tally { starts: 1, ..Tally::zero() },
                end: at_rest(m, m.state),
            },
        ),
        script.start is Ok ==> (script.started matches Err(e) ==> drive(
            m.begun(),
            script,
            Tally::zero(),
        ) == Some(
            Outcome {
                result: Err(WifiHandlerError::WifiError(e)),
                tally: Tally { starts: 1, started_queries: 1, ..Tally::zero() },
                end: at_rest(m, ConnectionState::Started),
            },
        )),
        script.start is Ok && script.started == Ok::<bool, E>(true) ==> (script.connect matches Err(
            e,
        ) ==> drive(m.begun(), script, Tally::zero()) == Some(
            Outcome {
                result: Err(WifiHandlerError::WifiError(e)),
                tally: Tally { starts: 1, started_queries: 1, connects: 1, ..Tally::zero() },
                end: at_rest(m, ConnectionState::Started),
            },
        )),
{
    if script.start is Ok {
        let started = HandlerModel { state: ConnectionState::Started, ..m };
        let checking = HandlerModel { phase: Phase::CheckingStarted, ..started };
        let one = Tally { starts: 1, ..Tally::zero() };
        assert(drive(m.begun(), script, Tally::zero()) == drive(checking, script, one));
        if script.started == Ok::<bool, E>(true) {
            let connecting = HandlerModel { phase: Phase::Connecting, ..started };
            let two = Tally { started_queries: 1, ..one };
            assert(drive(checking, script, one) == drive(connecting, script, two));
        }
    }
}

/// A controller that accepts the start request and then reports itself not
/// started makes bring-up fail with `NotStarted` after those two calls: no
/// association is ever requested.
pub proof fn lemma_not_started_stops_before_connect<E>(m: HandlerModel, script: Script<E>)
    requires
        m.well_formed(),
        script.start is Ok,
        script.started == Ok::<bool, E>(false),
    ensures
        drive(m.begun(), script, Tally::zero()) == Some(
            Outcome::<E> {
                result: Err(WifiHandlerError::NotStarted),
                tally: Tally { starts: 1, started_queries: 1, ..Tally::zero() },
                end: at_rest(m, ConnectionState::Started),
            },
        ),
{
    let checking = HandlerModel {
        state: ConnectionState::Started,
        phase: Phase::CheckingStarted,
        ..m
    };
    let one = Tally { starts: 1, ..Tally::zero() };
    assert(drive(m.begun(), script, Tally::zero()) == drive(checking, script, one));
}

/// A station that no query within the attempt ceiling finds associated makes
/// bring-up fail with `CantConnect`, after as many queries as the ceiling
/// allows, with a pause between two of them and none after the last. The
/// interface is never polled.
pub proof fn lemma_association_exhausted<E>(m: HandlerModel, script: Script<E>)
    requires
        m.well_formed(),
        reaches_association(script),
        m.max_attempts <= script.connected.len(),
        unassociated(script, 0, m.max_attempts as int),
    ensures
        drive(m.begun(), script, Tally::zero()) == Some(
            Outcome::<E> {
                result: Err(WifiHandlerError::CantConnect),
                tally: Tally {
                    starts: 1,
                    started_queries: 1,
                    connects: 1,
                    connected_queries: m.max_attempts,
                    interface_polls: 0,
                    sleeps: (m.max_attempts - 1) as nat,
                },
                end: at_rest(m, ConnectionState::Started),
            },
        ),
{
    let querying = HandlerModel {
        state: ConnectionState::Started,
        phase: Phase::Associating(0),
        ..m
    };
    let three = Tally { starts: 1, started_queries: 1, connects: 1, ..Tally::zero() };
    let retries = (m.max_attempts - 1) as nat;
    lemma_reaches_first_query(m, script);
    lemma_association_retries(querying, script, three, retries);
    assert(script.connected[retries as int] != Ok::<bool, E>(true));
}

/// A station that associates within the ceiling, on an interface that no poll
/// within the ceiling finds up, makes bring-up fail with `NoIface`, after as
/// many polls as the ceiling allows.
pub proof fn lemma_interface_exhausted<E>(m: HandlerModel, script: Script<E>, attempt: int)
    requires
        m.well_formed(),
        reaches_association(script),
        associates_at(script, attempt),
        attempt <= m.max_attempts,
        m.max_attempts <= script.interface_up.len(),
        interface_down(script, 0, m.max_attempts as int),
    ensures
        drive(m.begun(), script, Tally::zero()) == Some(
            Outcome::<E> {
                result: Err(WifiHandlerError::NoIface),
                tally: Tally {
                    starts: 1,
                    started_queries: 1,
                    connects: 1,
                    connected_queries: attempt as nat,
                    interface_polls: m.max_attempts,
                    sleeps: (attempt - 1 + m.max_attempts - 1) as nat,
                },
                end: at_rest(m, ConnectionState::Associated),
            },
        ),
{
    let polling = HandlerModel {
        state: ConnectionState::Associated,
        phase: Phase::AwaitingInterface(0),
        ..m
    };
    let associated = Tally {
        starts: 1,
        started_queries: 1,
        connects: 1,
        connected_queries: attempt as nat,
        interface_polls: 0,
        sleeps: (attempt - 1) as nat,
    };
    let retries = (m.max_attempts - 1) as nat;
    lemma_reaches_first_poll(m, script, attempt);
    lemma_interface_retries(polling, script, associated, retries);
    assert(!script.interface_up[retries as int]);
}

/// Bring-up succeeds with the first association and the first up interface:
/// when the station associates on its `association`-th query and the
/// interface is up on its `interface`-th poll, both within the ceiling,
/// bring-up returns success after exactly that many queries and polls, with
/// one pause less than each, and leaves the interface up.
pub proof fn lemma_bring_up_succeeds<E>(
    m: HandlerModel,
    script: Script<E>,
    association: int,
    interface: int,
)
    requires
        m.well_formed(),
        reaches_association(script),
        associates_at(script, association),
        association <= m.max_attempts,
        comes_up_at(script, interface),
        interface <= m.max_attempts,
    ensures
        drive(m.begun(), script, Tally::zero()) == Some(
            Outcome::<E> {
                result: Ok(()),
                tally: Tally {
                    starts: 1,
                    started_queries: 1,
                    connects: 1,
                    connected_queries: association as nat,
                    interface_polls: interface as nat,
                    sleeps: (association - 1 + interface - 1) as nat,
                },
                end: at_rest(m, ConnectionState::InterfaceUp),
            },
        ),
{
    let polling = HandlerModel {
        state: ConnectionState::Associated,
        phase: Phase::AwaitingInterface(0),
        ..m
    };
    let associated = Tally {
        starts: 1,
        started_queries: 1,
        connects: 1,
        connected_queries: association as nat,
        interface_polls: 0,
        sleeps: (association - 1) as nat,
    };
    lemma_reaches_first_poll(m, script, association);
    lemma_interface_retries(polling, script, associated, (interface - 1) as nat);
}

/// Whether some association query among the first `limit` finds the station
/// associated.
pub open spec fn associates_within<E>(script: Script<E>, limit: nat) -> bool {
    exists|attempt: int| attempt <= limit && #[trigger] associates_at(script, attempt)
}

/// Whether some interface poll among the first `limit` finds the interface
/// up.
pub open spec fn comes_up_within<E>(script: Script<E>, limit: nat) -> bool {
    exists|attempt: int| attempt <= limit && #[trigger] comes_up_at(script, attempt)
}

/// What bring-up with `limit` attempts to each round comes to on the
/// hardware that `script` describes: the first of these that applies.
///
/// - The failure of the start request, of the started query or of the
///   association request, wrapped.
/// - `NotStarted`, when the controller reports itself not started.
/// - `CantConnect`, when none of the first `limit` association queries finds
///   the station associated.
/// - `NoIface`, when none of the first `limit` interface polls finds the
///   interface up.
/// - Success.
pub open spec fn verdict<E>(limit: nat, script: Script<E>) -> Result<(), WifiHandlerError<E>> {
    match script.start {
        Err(e) => Err(WifiHandlerError::WifiError(e)),
        Ok(_) => match script.started {
            Err(e) => Err(WifiHandlerError::WifiError(e)),
            Ok(false) => Err(WifiHandlerError::NotStarted),
            Ok(true) => match script.connect {
                Err(e) => Err(WifiHandlerError::WifiError(e)),
                Ok(_) => if !associates_within(script, limit) {
                    Err(WifiHandlerError::CantConnect)
                } else if !comes_up_within(script, limit) {
                    Err(WifiHandlerError::NoIface)
                } else {
                    Ok(())
                },
            },
        },
    }
}

/// Among the first `n` association queries either none finds the station
/// associated or one of them is the first to do so.
proof fn lemma_first_association<E>(script: Script<E>, n: int)
    requires
        0 <= n <= script.connected.len(),
    ensures
        unassociated(script, 0, n) || associates_within(script, n as nat),
    decreases n,
{
    if n > 0 {
        lemma_first_association(script, n - 1);
        if unassociated(script, 0, n - 1) {
            if script.connected[n - 1] == Ok::<bool, E>(true) {
                assert(associates_at(script, n));
            }
        } else {
            let earlier = choose|a: int| a <= n - 1 && #[trigger] associates_at(script, a);
            assert(associates_at(script, earlier));
        }
    }
}

/// Among the first `n` interface polls either none finds the interface up or
/// one of them is the first to do so.
proof fn lemma_first_up<E>(script: Script<E>, n: int)
    requires
        0 <= n <= script.interface_up.len(),
    ensures
        interface_down(script, 0, n) || comes_up_within(script, n as nat),
    decreases n,
{
    if n > 0 {
        lemma_first_up(script, n - 1);
        if interface_down(script, 0, n - 1) {
            if script.interface_up[n - 1] {
                assert(comes_up_at(script, n));
            }
        } else {
            let earlier = choose|a: int| a <= n - 1 && #[trigger] comes_up_at(script, a);
            assert(comes_up_at(script, earlier));
        }
    }
}

/// Bring-up always ends, and with the verdict on the hardware's answers:
/// whatever the hardware answers, as long as it answers as often as it may be
/// asked, bring-up from its beginning ends with [`verdict`] and leaves no
/// command pending.
pub proof fn lemma_bring_up_ends_with_verdict<E>(m: HandlerModel, script: Script<E>)
    requires
        m.well_formed(),
        m.max_attempts <= script.connected.len(),
        m.max_attempts <= script.interface_up.len(),
    ensures
        drive(m.begun(), script, Tally::zero()) matches Some(outcome) && outcome.result == verdict(
            m.max_attempts,
            script,
        ) && outcome.end.pending() is None,
{
    lemma_driver_failure_ends_bring_up(m, script);
    if script.start is Ok && script.started == Ok::<bool, E>(false) {
        lemma_not_started_stops_before_connect(m, script);
    } else if reaches_association(script) {
        lemma_first_association(script, m.max_attempts as int);
        if associates_within(script, m.max_attempts) {
            let a = choose|a: int| a <= m.max_attempts && #[trigger] associates_at(script, a);
            lemma_first_up(script, m.max_attempts as int);
            if comes_up_within(script, m.max_attempts) {
                let b = choose|b: int| b <= m.max_attempts && #[trigger] comes_up_at(script, b);
                lemma_bring_up_succeeds(m, script, a, b);
            } else {
                lemma_interface_exhausted(m, script, a);
            }
        } else {
            lemma_association_exhausted(m, script);
        }
    }
}

/// No bring-up goes on forever: one that ends has taken at most as many
/// commands as the budget of where it began, which is four per allowed
/// attempt and one for a bring-up from its beginning.
pub proof fn lemma_bring_up_is_bounded<E>(m: HandlerModel, script: Script<E>, tally: Tally)
    requires
        m.well_formed(),
    ensures
        drive(m, script, tally) matches Some(outcome) ==> outcome.tally.total() <= tally.total()
            + budget(m),
        budget(m.begun()) == 4 * m.max_attempts + 1,
    decreases budget(m),
{
    match answer(m, script, tally) {
        None => {},
        Some((event, counted)) => {
            lemma_step_spends_budget(m, event);
            match m.advanced(event) {
                Some((next, Step::Perform(_))) => {
                    lemma_bring_up_is_bounded(next, script, counted);
                },
                _ => {},
            }
        },
    }
}

} // verus!
