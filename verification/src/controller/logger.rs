//! The controller's log: a queue of messages and the lines they become.

use crate::controller::channel::try_recv;
use std::sync::mpsc::Receiver;
use vstd::prelude::*;
use vstd::string::*;

verus! {

/// How grave a message is.
#[derive(Debug, PartialEq, Eq, Structural)]
pub enum LogType {
    Error,
    Log,
    Warn,
    Debug,
}

/// A message for the log.
#[derive(Debug)]
pub struct Logging {
    pub message: String,
    pub log_type: LogType,
}

/// Writes the messages that arrive on its queue, under its name.
pub struct Logger {
    pub receiver: Receiver<Logging>,
    pub name: String,
}

/// The line of a message: `[Rik] - <time> [<name>] <message>`.
pub open spec fn log_line(now: Seq<char>, name: Seq<char>, msg: Seq<char>) -> Seq<char> {
    "[Rik] - "@ + now + " ["@ + name + "] "@ + msg
}

/// Whether `line` is the line of some message, at some time, under `name`.
pub open spec fn is_log_line(line: Seq<char>, name: Seq<char>) -> bool {
    exists|now: Seq<char>, msg: Seq<char>| line == log_line(now, name, msg)
}

/// The time in UTC as `chrono` prints it. Trusted; nothing is claimed of the
/// text, which differs from call to call.
#[verifier::external_body]
fn utc_now() -> (r: String) {
    format!("{}", chrono::Utc::now())
}

impl Logger {
    pub fn new(logger_receiver: Receiver<Logging>, name: String) -> (r: Logger)
        ensures
            r.receiver == logger_receiver,
            r.name == name,
    {
        Logger { receiver: logger_receiver, name }
    }

    /// The line of `msg` at the time `now`.
    pub fn line(&self, now: &str, msg: &str) -> (r: String)
        ensures
            r@ == log_line(now@, self.name@, msg@),
    {
        let mut out = String::from_str("[Rik] - ");
        out.append(now);
        out.append(" [");
        out.append(self.name.as_str());
        out.append("] ");
        out.append(msg);
        out
    }

    /// The line of a message that arrived now. Messages of every gravity are
    /// written alike.
    pub fn write(&self, notification: &Logging) -> (r: String)
        ensures
            exists|now: Seq<char>| r@ == log_line(now, self.name@, notification.message@),
            is_log_line(r@, self.name@),
    {
        let now = utc_now();
        let r = match notification.log_type {
            LogType::Error => self.error(now.as_str(), notification.message.as_str()),
            LogType::Log => self.log(now.as_str(), notification.message.as_str()),
            LogType::Warn => self.warn(now.as_str(), notification.message.as_str()),
            LogType::Debug => self.debug(now.as_str(), notification.message.as_str()),
        };
        assert(r@ == log_line(now@, self.name@, notification.message@));
        r
    }

    /// Takes the messages that are waiting on the queue, `limit` of them at
    /// most, and returns their lines in the order of the messages.
    pub fn run(&self, limit: usize) -> (lines: Vec<String>)
        ensures
            lines@.len() <= limit,
            forall|k: int| 0 <= k < lines@.len() ==> is_log_line((#[trigger] lines@[k])@, self.name@),
    {
        let mut lines: Vec<String> = Vec::new();
        let mut n: usize = 0;
        let mut open = true;
        while open && n < limit
            invariant
                lines@.len() <= n <= limit,
                forall|k: int|
                    0 <= k < lines@.len() ==> is_log_line((#[trigger] lines@[k])@, self.name@),
            decreases limit - n,
        {
            match try_recv(&self.receiver) {
                Some(notification) => {
                    let line = self.write(&notification);
                    lines.push(line);
                },
                None => {
                    open = false;
                },
            }
            n += 1;
        }
        lines
    }

    fn log(&self, now: &str, msg: &str) -> (r: String)
        ensures
            r@ == log_line(now@, self.name@, msg@),
    {
        self.line(now, msg)
    }

    fn error(&self, now: &str, msg: &str) -> (r: String)
        ensures
            r@ == log_line(now@, self.name@, msg@),
    {
        self.line(now, msg)
    }

    fn warn(&self, now: &str, msg: &str) -> (r: String)
        ensures
            r@ == log_line(now@, self.name@, msg@),
    {
        self.line(now, msg)
    }

    fn debug(&self, now: &str, msg: &str) -> (r: String)
        ensures
            r@ == log_line(now@, self.name@, msg@),
    {
        self.line(now, msg)
    }
}

} // verus!
