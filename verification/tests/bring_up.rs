use wifi_handler::credentials::ConnectionCredentials;
use wifi_handler::error::WifiHandlerError;
use wifi_handler::handler::{Command, ConnectionState, Event, Step, WifiHandler};
use wifi_handler::poll::PollPolicy;

/// A driver that answers from a script and counts what it is asked.
struct Driver {
    start: Result<(), u8>,
    started: Result<bool, u8>,
    connect: Result<(), u8>,
    connected: Vec<Result<bool, u8>>,
    interface_up: Vec<bool>,
    trace: Vec<Command>,
}

impl Driver {
    fn healthy(connected: Vec<Result<bool, u8>>, interface_up: Vec<bool>) -> Driver {
        Driver {
            start: Ok(()),
            started: Ok(true),
            connect: Ok(()),
            connected,
            interface_up,
            trace: Vec::new(),
        }
    }

    fn count(&self, command: Command) -> usize {
        self.trace.iter().filter(|c| **c == command).count()
    }

    fn sleeps(&self) -> Vec<u32> {
        let mut out = Vec::new();
        for c in &self.trace {
            if let Command::Sleep(ms) = c {
                out.push(*ms);
            }
        }
        out
    }

    fn perform(&mut self, command: Command) -> Event<u8> {
        let asked_connected = self.count(Command::QueryConnected);
        let asked_interface = self.count(Command::PollInterface);
        self.trace.push(command);
        match command {
            Command::Start => Event::StartDone(self.start),
            Command::QueryStarted => Event::StartedFlag(self.started),
            Command::Connect => Event::ConnectDone(self.connect),
            Command::QueryConnected => Event::ConnectedFlag(self.connected[asked_connected]),
            Command::PollInterface => Event::InterfaceUp(self.interface_up[asked_interface]),
            Command::Sleep(_) => Event::Slept,
        }
    }
}

fn handler(max_attempts: u32, delay_ms: u32) -> WifiHandler {
    WifiHandler::new(PollPolicy::new(max_attempts, delay_ms).expect("at least one attempt"))
}

fn establish(handler: &mut WifiHandler, driver: &mut Driver) -> Result<(), WifiHandlerError<u8>> {
    let mut command = handler.start_connection();
    loop {
        assert_eq!(handler.pending(), Some(command));
        let event = driver.perform(command);
        match handler.advance(event) {
            Some(Step::Perform(next)) => command = next,
            Some(Step::Finished(result)) => {
                assert_eq!(handler.pending(), None);
                return result;
            }
            None => panic!("the answer to {:?} was not taken", command),
        }
    }
}

#[test]
fn new_handler_is_unconfigured_and_idle() {
    let h = handler(5, 100);
    assert_eq!(h.state(), ConnectionState::Unconfigured);
    assert_eq!(h.pending(), None);
    assert_eq!(h.policy().max_attempts(), 5);
    assert_eq!(h.policy().delay_ms(), 100);
}

#[test]
fn set_config_records_an_accepted_configuration() {
    let mut h = handler(5, 100);
    assert_eq!(h.set_config(Err::<(), u8>(3)), Err(3));
    assert_eq!(h.state(), ConnectionState::Unconfigured);
    assert_eq!(h.set_config(Ok::<(), u8>(())), Ok(()));
    assert_eq!(h.state(), ConnectionState::Configured);
}

#[test]
fn start_wraps_the_driver_error() {
    let mut h = handler(5, 100);
    assert_eq!(h.start(Err::<(), u8>(9)), Err(WifiHandlerError::WifiError(9)));
    assert_eq!(h.state(), ConnectionState::Unconfigured);
    assert_eq!(h.start(Ok::<(), u8>(())), Ok(()));
    assert_eq!(h.state(), ConnectionState::Started);
}

#[test]
fn connect_wraps_the_driver_error() {
    let mut h = handler(5, 100);
    assert_eq!(h.connect(Err::<(), u8>(4)), Err(WifiHandlerError::WifiError(4)));
    assert_eq!(h.connect(Ok::<(), u8>(())), Ok(()));
    assert_eq!(h.state(), ConnectionState::Unconfigured);
}

#[test]
fn is_connected_wraps_the_driver_error() {
    let mut h = handler(5, 100);
    assert_eq!(h.is_connected(Ok::<bool, u8>(true)), Ok(true));
    assert_eq!(h.is_connected(Ok::<bool, u8>(false)), Ok(false));
    assert_eq!(h.is_connected(Err::<bool, u8>(6)), Err(WifiHandlerError::WifiError(6)));
    assert_eq!(h.state(), ConnectionState::Unconfigured);
}

#[test]
fn require_started_tells_the_three_answers_apart() {
    assert_eq!(WifiHandler::require_started(Ok::<bool, u8>(true)), Ok(()));
    assert_eq!(
        WifiHandler::require_started(Ok::<bool, u8>(false)),
        Err(WifiHandlerError::NotStarted)
    );
    assert_eq!(
        WifiHandler::require_started(Err::<bool, u8>(2)),
        Err(WifiHandlerError::WifiError(2))
    );
}

#[test]
fn association_probe_counts_a_driver_error_as_not_connected() {
    assert_eq!(WifiHandler::association_probe(Ok::<bool, u8>(true)), Ok(()));
    assert_eq!(
        WifiHandler::association_probe(Ok::<bool, u8>(false)),
        Err(WifiHandlerError::CantConnect)
    );
    assert_eq!(
        WifiHandler::association_probe(Err::<bool, u8>(7)),
        Err(WifiHandlerError::CantConnect)
    );
}

#[test]
fn interface_probe_fails_while_down() {
    assert_eq!(WifiHandler::interface_probe::<u8>(true), Ok(()));
    assert_eq!(WifiHandler::interface_probe::<u8>(false), Err(WifiHandlerError::NoIface));
}

#[test]
fn advance_without_bring_up_takes_nothing() {
    let mut h = handler(5, 100);
    assert_eq!(h.advance(Event::<u8>::Slept), None);
    assert_eq!(h.advance(Event::<u8>::StartDone(Ok(()))), None);
    assert_eq!(h.state(), ConnectionState::Unconfigured);
    assert_eq!(h.pending(), None);
}

#[test]
fn advance_ignores_an_answer_to_another_command() {
    let mut h = handler(5, 100);
    assert_eq!(h.start_connection(), Command::Start);
    assert_eq!(h.advance(Event::<u8>::ConnectDone(Ok(()))), None);
    assert_eq!(h.advance(Event::<u8>::StartedFlag(Ok(true))), None);
    assert_eq!(h.advance(Event::<u8>::InterfaceUp(true)), None);
    assert_eq!(h.pending(), Some(Command::Start));
    assert_eq!(h.state(), ConnectionState::Unconfigured);
    assert_eq!(
        h.advance(Event::<u8>::StartDone(Ok(()))),
        Some(Step::Perform(Command::QueryStarted))
    );
    assert_eq!(h.advance(Event::<u8>::ConnectedFlag(Ok(true))), None);
    assert_eq!(h.pending(), Some(Command::QueryStarted));
}

#[test]
fn start_connection_restarts_a_bring_up_under_way() {
    let mut h = handler(5, 100);
    h.start_connection();
    h.advance(Event::<u8>::StartDone(Ok(())));
    h.advance(Event::<u8>::StartedFlag(Ok(true)));
    assert_eq!(h.pending(), Some(Command::Connect));
    assert_eq!(h.start_connection(), Command::Start);
    assert_eq!(h.pending(), Some(Command::Start));
    assert_eq!(h.state(), ConnectionState::Started);
}

#[test]
fn start_failure_ends_bring_up() {
    let mut h = handler(5, 100);
    let mut d = Driver::healthy(vec![], vec![]);
    d.start = Err(11);
    assert_eq!(establish(&mut h, &mut d), Err(WifiHandlerError::WifiError(11)));
    assert_eq!(d.trace, vec![Command::Start]);
    assert_eq!(h.state(), ConnectionState::Unconfigured);
}

#[test]
fn started_query_failure_ends_bring_up() {
    let mut h = handler(5, 100);
    let mut d = Driver::healthy(vec![], vec![]);
    d.started = Err(12);
    assert_eq!(establish(&mut h, &mut d), Err(WifiHandlerError::WifiError(12)));
    assert_eq!(d.trace, vec![Command::Start, Command::QueryStarted]);
    assert_eq!(h.state(), ConnectionState::Started);
}

#[test]
fn not_started_without_ever_connecting() {
    let mut h = handler(5, 100);
    let mut d = Driver::healthy(vec![Ok(true)], vec![true]);
    d.started = Ok(false);
    assert_eq!(establish(&mut h, &mut d), Err(WifiHandlerError::NotStarted));
    assert_eq!(d.trace, vec![Command::Start, Command::QueryStarted]);
    assert_eq!(d.count(Command::Connect), 0);
    assert_eq!(h.state(), ConnectionState::Started);
}

#[test]
fn connect_failure_ends_bring_up() {
    let mut h = handler(5, 100);
    let mut d = Driver::healthy(vec![Ok(true)], vec![true]);
    d.connect = Err(13);
    assert_eq!(establish(&mut h, &mut d), Err(WifiHandlerError::WifiError(13)));
    assert_eq!(d.trace, vec![Command::Start, Command::QueryStarted, Command::Connect]);
    assert_eq!(d.count(Command::QueryConnected), 0);
}

#[test]
fn cant_connect_after_the_ceiling() {
    let mut h = handler(4, 100);
    let mut d = Driver::healthy(vec![Ok(false); 4], vec![true]);
    assert_eq!(establish(&mut h, &mut d), Err(WifiHandlerError::CantConnect));
    assert_eq!(d.count(Command::QueryConnected), 4);
    assert_eq!(d.sleeps(), vec![100, 100, 100]);
    assert_eq!(d.count(Command::PollInterface), 0);
    assert_eq!(h.state(), ConnectionState::Started);
    assert_eq!(
        d.trace,
        vec![
            Command::Start,
            Command::QueryStarted,
            Command::Connect,
            Command::QueryConnected,
            Command::Sleep(100),
            Command::QueryConnected,
            Command::Sleep(100),
            Command::QueryConnected,
            Command::Sleep(100),
            Command::QueryConnected,
        ]
    );
}

#[test]
fn driver_error_while_associating_counts_as_cant_connect() {
    let mut h = handler(3, 50);
    let mut d = Driver::healthy(vec![Ok(false), Err(1), Err(2)], vec![true]);
    assert_eq!(establish(&mut h, &mut d), Err(WifiHandlerError::CantConnect));
    assert_eq!(d.count(Command::QueryConnected), 3);
    assert_eq!(d.sleeps(), vec![50, 50]);
}

#[test]
fn driver_error_while_associating_is_retried() {
    let mut h = handler(3, 50);
    let mut d = Driver::healthy(vec![Err(1), Ok(true)], vec![true]);
    assert_eq!(establish(&mut h, &mut d), Ok(()));
    assert_eq!(d.count(Command::QueryConnected), 2);
    assert_eq!(h.state(), ConnectionState::InterfaceUp);
}

#[test]
fn connected_on_third_of_five_attempts() {
    let mut h = handler(5, 100);
    let mut d = Driver::healthy(vec![Ok(false), Ok(false), Ok(true)], vec![true]);
    assert_eq!(establish(&mut h, &mut d), Ok(()));
    assert_eq!(d.count(Command::QueryConnected), 3);
    assert_eq!(d.count(Command::PollInterface), 1);
    assert_eq!(d.sleeps(), vec![100, 100]);
}

#[test]
fn connected_on_the_last_allowed_attempt() {
    let mut h = handler(3, 100);
    let mut d = Driver::healthy(vec![Ok(false), Ok(false), Ok(true)], vec![true]);
    assert_eq!(establish(&mut h, &mut d), Ok(()));
    assert_eq!(d.count(Command::QueryConnected), 3);
}

#[test]
fn no_iface_after_the_ceiling() {
    let mut h = handler(3, 100);
    let mut d = Driver::healthy(vec![Ok(false), Ok(true)], vec![false; 3]);
    assert_eq!(establish(&mut h, &mut d), Err(WifiHandlerError::NoIface));
    assert_eq!(d.count(Command::QueryConnected), 2);
    assert_eq!(d.count(Command::PollInterface), 3);
    assert_eq!(d.sleeps(), vec![100, 100, 100]);
    assert_eq!(h.state(), ConnectionState::Associated);
}

#[test]
fn one_attempt_means_no_pause() {
    let mut h = handler(1, 100);
    let mut d = Driver::healthy(vec![Ok(false)], vec![true]);
    assert_eq!(establish(&mut h, &mut d), Err(WifiHandlerError::CantConnect));
    assert_eq!(d.count(Command::QueryConnected), 1);
    assert_eq!(d.sleeps(), Vec::<u32>::new());

    let mut h = handler(1, 100);
    let mut d = Driver::healthy(vec![Ok(true)], vec![false]);
    assert_eq!(establish(&mut h, &mut d), Err(WifiHandlerError::NoIface));
    assert_eq!(d.count(Command::PollInterface), 1);
    assert_eq!(d.sleeps(), Vec::<u32>::new());

    let mut h = handler(1, 100);
    let mut d = Driver::healthy(vec![Ok(true)], vec![true]);
    assert_eq!(establish(&mut h, &mut d), Ok(()));
    assert_eq!(d.trace.len(), 5);
}

#[test]
fn each_round_has_the_whole_ceiling() {
    // Two failed association probes must not shorten the interface round.
    let mut h = handler(3, 10);
    let mut d = Driver::healthy(vec![Ok(false), Ok(false), Ok(true)], vec![false, false, true]);
    assert_eq!(establish(&mut h, &mut d), Ok(()));
    assert_eq!(d.count(Command::QueryConnected), 3);
    assert_eq!(d.count(Command::PollInterface), 3);
    assert_eq!(d.sleeps(), vec![10, 10, 10, 10]);
}

#[test]
fn worst_case_takes_four_commands_per_attempt_and_one() {
    let max = 6u32;
    let mut h = handler(max, 1);
    let mut connected = vec![Ok(false); 5];
    connected.push(Ok(true));
    let mut d = Driver::healthy(connected, vec![false; 6]);
    assert_eq!(establish(&mut h, &mut d), Err(WifiHandlerError::NoIface));
    assert_eq!(d.trace.len(), (4 * max + 1) as usize);
}

#[test]
fn end_to_end_home_net() {
    let mut h = handler(1_000_000, 100);
    let credentials = h.set_user_pass("home-net", "s3cr3t!!").ok().expect("within bounds");
    let (ssid, password) = credentials.into_parts();
    assert_eq!(ssid.as_str(), "home-net");
    assert_eq!(password.as_str(), "s3cr3t!!");
    assert_eq!(h.set_config(Ok::<(), u8>(())), Ok(()));
    assert_eq!(h.state(), ConnectionState::Configured);

    let mut d = Driver::healthy(vec![Ok(false), Ok(false), Ok(true)], vec![false, true]);
    assert_eq!(establish(&mut h, &mut d), Ok(()));
    assert_eq!(d.count(Command::Start), 1);
    assert_eq!(d.count(Command::QueryStarted), 1);
    assert_eq!(d.count(Command::Connect), 1);
    assert_eq!(d.count(Command::QueryConnected), 3);
    assert_eq!(d.count(Command::PollInterface), 2);
    assert_eq!(d.sleeps(), vec![100, 100, 100]);
    assert_eq!(h.state(), ConnectionState::InterfaceUp);
    assert_eq!(
        d.trace,
        vec![
            Command::Start,
            Command::QueryStarted,
            Command::Connect,
            Command::QueryConnected,
            Command::Sleep(100),
            Command::QueryConnected,
            Command::Sleep(100),
            Command::QueryConnected,
            Command::PollInterface,
            Command::Sleep(100),
            Command::PollInterface,
        ]
    );
}

#[test]
fn bring_up_can_be_repeated_after_a_failure() {
    let mut h = handler(2, 5);
    let mut d = Driver::healthy(vec![Ok(false), Ok(false)], vec![true]);
    assert_eq!(establish(&mut h, &mut d), Err(WifiHandlerError::CantConnect));
    let mut d = Driver::healthy(vec![Ok(false), Ok(true)], vec![false, true]);
    assert_eq!(establish(&mut h, &mut d), Ok(()));
    assert_eq!(d.count(Command::QueryConnected), 2);
    assert_eq!(d.count(Command::PollInterface), 2);
    assert_eq!(h.state(), ConnectionState::InterfaceUp);
}

#[test]
fn credentials_are_independent_of_the_handler() {
    let direct = ConnectionCredentials::new("home-net", "s3cr3t!!").ok().expect("within bounds");
    let (ssid, password) = direct.into_parts();
    assert_eq!(ssid.len(), 8);
    assert_eq!(password.len(), 8);
}
