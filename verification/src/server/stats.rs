//! What the server tells of itself.

use vstd::prelude::*;

use std::collections::VecDeque;

verus! {

/// Most log lines that are kept.
pub const MAX_LOGS: usize = 50;

/// Counters of what the server has done, and what it says of itself.
#[derive(Debug, Clone)]
pub struct ServerStats {
    pub captured: u64,
    pub encoded: u64,
    pub sent: u64,
    pub dropped: u64,
    pub keyframes: u64,
    pub fragments: u64,
    pub errors: u64,
    pub connected_client: Option<String>,
    pub resolution: String,
    pub status: String,
    pub stylus_buttons: [bool; 2],
    pub logs: VecDeque<String>,
}

/// What a [`ServerStats`] says.
pub struct StatsView {
    pub captured: u64,
    pub encoded: u64,
    pub sent: u64,
    pub dropped: u64,
    pub keyframes: u64,
    pub fragments: u64,
    pub errors: u64,
    pub connected_client: Option<Seq<char>>,
    pub resolution: Seq<char>,
    pub status: Seq<char>,
    pub stylus_buttons: Seq<bool>,
    pub logs: Seq<Seq<char>>,
}

/// The lines of a log.
pub open spec fn lines(logs: Seq<String>) -> Seq<Seq<char>> {
    logs.map_values(|line: String| line@)
}

impl View for ServerStats {
    type V = StatsView;

    open spec fn view(&self) -> StatsView {
        StatsView {
            captured: self.captured,
            encoded: self.encoded,
            sent: self.sent,
            dropped: self.dropped,
            keyframes: self.keyframes,
            fragments: self.fragments,
            errors: self.errors,
            connected_client: match self.connected_client {
                Some(client) => Some(client@),
                None => None,
            },
            resolution: self.resolution@,
            status: self.status@,
            stylus_buttons: self.stylus_buttons@,
            logs: lines(self.logs@),
        }
    }
}

impl StatsView {
    /// Nothing counted and nothing said.
    pub open spec fn empty() -> StatsView {
        StatsView {
            captured: 0,
            encoded: 0,
            sent: 0,
            dropped: 0,
            keyframes: 0,
            fragments: 0,
            errors: 0,
            connected_client: None,
            resolution: Seq::empty(),
            status: Seq::empty(),
            stylus_buttons: seq![false, false],
            logs: Seq::empty(),
        }
    }

    /// With a line more in the log; beyond the limit, the oldest line goes.
    pub open spec fn logged(self, time: Seq<char>, msg: Seq<char>) -> StatsView {
        StatsView { logs: appended(self.logs, log_line(time, msg)), ..self }
    }
}

/// A line of the log: the time in brackets, then what is logged.
pub open spec fn log_line(time: Seq<char>, msg: Seq<char>) -> Seq<char> {
    "["@ + time + "] "@ + msg
}

/// A log with a line more; beyond the limit, the oldest line goes.
pub open spec fn appended(logs: Seq<Seq<char>>, line: Seq<char>) -> Seq<Seq<char>> {
    if logs.len() >= MAX_LOGS {
        logs.push(line).drop_first()
    } else {
        logs.push(line)
    }
}

/// Whether a text is a time of day: hours, minutes and seconds, two digits
/// each, with colons between them. The last second of a minute may be the
/// sixtieth.
pub open spec fn is_time_of_day(text: Seq<char>) -> bool {
    &&& text.len() == 8
    &&& '0' <= text[0] <= '2' && '0' <= text[1] <= '9'
    &&& text[2] == ':'
    &&& '0' <= text[3] <= '5' && '0' <= text[4] <= '9'
    &&& text[5] == ':'
    &&& '0' <= text[6] <= '6' && '0' <= text[7] <= '9'
}

/// `chrono::Local::now`, written with `chrono::DateTime::format`: the current
/// local time in hours, minutes and seconds, of two digits each. Which time it
/// is depends on the machine, so nothing more is promised.
#[verifier::external_body]
fn local_time(format: &str) -> (text: String)
    requires
        format@ == "%H:%M:%S"@,
    ensures
        is_time_of_day(text@),
{
    chrono::Local::now().format(format).to_string()
}

impl Default for ServerStats {
    fn default() -> (stats: Self)
        ensures
            stats@ == StatsView::empty(),
    {
        let stats = ServerStats {
            captured: 0,
            encoded: 0,
            sent: 0,
            dropped: 0,
            keyframes: 0,
            fragments: 0,
            errors: 0,
            connected_client: None,
            resolution: String::new(),
            status: String::new(),
            stylus_buttons: [false, false],
            logs: VecDeque::new(),
        };
        assert(stats@.stylus_buttons =~= seq![false, false]);
        assert(stats@.logs =~= Seq::<Seq<char>>::empty());
        assert(stats@.resolution =~= Seq::<char>::empty());
        assert(stats@.status =~= Seq::<char>::empty());
        stats
    }
}

impl ServerStats {
    /// Adds a line to the log, with the current time in front of it.
    pub fn log(&mut self, msg: String)
        ensures
            exists|time: Seq<char>| #[trigger]
                is_time_of_day(time) && final(self)@ == old(self)@.logged(time, msg@),
    {
        let time: String = local_time("%H:%M:%S");
        assert(is_time_of_day(time@));
        self.log_at(&time, msg);
    }

    /// Adds a line to the log, with the given time in front of it.
    pub fn log_at(&mut self, time: &str, msg: String)
        ensures
            final(self)@ == old(self)@.logged(time@, msg@),
    {
        let mut line: String = "[".to_string();
        line.append(time);
        line.append("] ");
        line.append(&msg);
        assert(line@ =~= log_line(time@, msg@));
        let ghost before = self.logs@;
        self.logs.push_back(line);
        assert(lines(self.logs@) =~= lines(before).push(line@));
        if self.logs.len() > MAX_LOGS {
            let ghost full = self.logs@;
            let _ = self.logs.pop_front();
            assert(lines(self.logs@) =~= lines(full).drop_first());
        }
    }

    /// Starts anew: forgets everything but the log, and says that the server
    /// is starting.
    pub fn restart(&mut self)
        ensures
            exists|time: Seq<char>| #[trigger]
                is_time_of_day(time) && final(self)@ == (StatsView {
                    status: "Starting..."@,
                    logs: old(self)@.logs,
                    ..StatsView::empty()
                }).logged(time, "Starting server thread..."@),
    {
        let time: String = local_time("%H:%M:%S");
        assert(is_time_of_day(time@));
        self.restart_at(&time);
    }

    /// Starts anew at the given time.
    pub fn restart_at(&mut self, time: &str)
        ensures
            final(self)@ == (StatsView {
                status: "Starting..."@,
                logs: old(self)@.logs,
                ..StatsView::empty()
            }).logged(time@, "Starting server thread..."@),
    {
        let ghost kept = self@.logs;
        self.captured = 0;
        self.encoded = 0;
        self.sent = 0;
        self.dropped = 0;
        self.keyframes = 0;
        self.fragments = 0;
        self.errors = 0;
        self.connected_client = None;
        self.resolution = String::new();
        self.status = "Starting...".to_string();
        self.stylus_buttons = [false, false];
        assert(self@.stylus_buttons =~= seq![false, false]);
        assert(self@.resolution =~= Seq::<char>::empty());
        self.log_at(time, "Starting server thread...".to_string());
    }

    /// Says that the server has failed, and why.
    pub fn failed(&mut self, cause: &str)
        ensures
            exists|time: Seq<char>| #[trigger]
                is_time_of_day(time) && final(self)@ == (StatsView {
                    status: error_status(cause@),
                    ..old(self)@
                }).logged(time, error_status(cause@)),
    {
        let text: String = describe_error(cause);
        self.status = describe_error(cause);
        self.log(text);
    }

    /// Says that the server has stopped.
    pub fn stopped(&mut self)
        ensures
            exists|time: Seq<char>| #[trigger]
                is_time_of_day(time) && final(self)@ == (StatsView {
                    status: "Stopped"@,
                    connected_client: None,
                    ..old(self)@
                }).logged(time, "Server stopped."@),
    {
        self.status = "Stopped".to_string();
        self.connected_client = None;
        self.log("Server stopped.".to_string());
    }
}

/// What is said of a server that has failed.
pub open spec fn error_status(cause: Seq<char>) -> Seq<char> {
    "Error: "@ + cause
}

/// What is said of a server that has failed.
pub fn describe_error(cause: &str) -> (text: String)
    ensures
        text@ == error_status(cause@),
{
    let mut text: String = "Error: ".to_string();
    text.append(cause);
    text
}

/// The log never holds more lines than its limit, and the newest line is
/// always in it.
pub proof fn log_is_bounded(logs: Seq<Seq<char>>, line: Seq<char>)
    requires
        logs.len() <= MAX_LOGS,
    ensures
        appended(logs, line).len() <= MAX_LOGS,
        appended(logs, line).last() == line,
        logs.len() < MAX_LOGS ==> appended(logs, line).len() == logs.len() + 1,
{
}

/// Lines stay in the order in which they were logged, and only the oldest is
/// ever lost.
pub proof fn log_keeps_order(logs: Seq<Seq<char>>, line: Seq<char>)
    ensures
        logs.len() < MAX_LOGS ==> appended(logs, line) == logs.push(line),
        logs.len() == MAX_LOGS ==> appended(logs, line) == logs.drop_first().push(line),
{
    assert(logs.len() == MAX_LOGS ==> appended(logs, line) =~= logs.drop_first().push(line));
}

/// What is logged is written behind the time, which stands in brackets; nothing
/// but the log changes, and the log keeps its newest fifty lines.
pub proof fn log_says_when_and_what(stats: StatsView, time: Seq<char>, msg: Seq<char>)
    requires
        stats.logs.len() <= 50,
    ensures
        ({
            let after = stats.logged(time, msg);
            let line = after.logs.last();
            let n = after.logs.len() as int;
            &&& n == if stats.logs.len() < 50 {
                stats.logs.len() + 1
            } else {
                50
            }
            &&& line.len() == time.len() + msg.len() + 3
            &&& line[0] == '['
            &&& line.subrange(1, 1 + time.len() as int) == time
            &&& line[1 + time.len() as int] == ']' && line[2 + time.len() as int] == ' '
            &&& line.skip(3 + time.len() as int) == msg
            &&& after.logs.drop_last() == stats.logs.skip(stats.logs.len() - (n - 1))
            &&& after == (StatsView { logs: after.logs, ..stats })
        }),
{
    reveal_strlit("[");
    reveal_strlit("] ");
    let after = stats.logged(time, msg);
    let line = log_line(time, msg);
    let n = after.logs.len() as int;
    assert(after.logs.last() == line);
    assert(line.subrange(1, 1 + time.len() as int) =~= time);
    assert(line.skip(3 + time.len() as int) =~= msg);
    assert(after.logs.drop_last() =~= stats.logs.skip(stats.logs.len() - (n - 1)));
}

/// At first nothing is counted, said, pressed or logged; what is said of a server
/// that has failed ends in why.
pub proof fn stats_start_empty(cause: Seq<char>)
    ensures
        ({
            let stats = StatsView::empty();
            &&& stats.captured == 0 && stats.encoded == 0 && stats.sent == 0 && stats.dropped == 0
            &&& stats.keyframes == 0 && stats.fragments == 0 && stats.errors == 0
            &&& stats.connected_client is None
            &&& stats.resolution.len() == 0 && stats.status.len() == 0 && stats.logs.len() == 0
            &&& stats.stylus_buttons == seq![false, false]
        }),
        error_status(cause) == "Error: "@ + cause,
{
}

} // verus!
