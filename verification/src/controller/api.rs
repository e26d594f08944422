//! The two halves of the controller and the messages between them. The
//! external half serves HTTP; the internal half talks to the scheduler.

use colored::Colorize;
use crate::controller::channel::{send, try_recv};
use crate::controller::logger::{LogType, Logging};
use crate::proto::{WorkloadRequestKind, WorkloadScheduling};
use crate::text::{decimal, u64_to_string};
use std::sync::mpsc::{Receiver, Sender};
use vstd::prelude::*;
use vstd::string::*;

verus! {

/// What one half asks of the other.
#[derive(Debug, PartialEq, Eq, Structural)]
pub enum CRUD {
    Create,
    Delete,
}

/// What can go wrong in the controller.
#[derive(Debug)]
pub enum RikError {
    /// An input or output failed; the text says how.
    IoError(String),
}

/// A message between the two halves. A message about an instance names
/// the instance and carries the document of its workload.
#[derive(Debug)]
pub struct ApiChannel {
    pub action: CRUD,
    pub workload_id: usize,
    pub instance_id: Option<usize>,
    pub workload_definition: Option<String>,
}

/// `Action: <action>, Workload id: <id>`.
pub open spec fn api_channel_text(action: CRUD, workload_id: usize) -> Seq<char> {
    "Action: "@ + (if action == CRUD::Create {
        "Create"@
    } else {
        "Delete"@
    }) + ", Workload id: "@ + decimal(workload_id as nat)
}

/// Whether `line` is some message between the halves, in words.
pub open spec fn is_api_channel_text(line: Seq<char>) -> bool {
    exists|action: CRUD, id: usize| line == api_channel_text(action, id)
}

impl ApiChannel {
    /// The message in words: `Action: <action>, Workload id: <id>`.
    pub fn describe(&self) -> (r: String)
        ensures
            r@ == api_channel_text(self.action, self.workload_id),
            is_api_channel_text(r@),
    {
        let mut out = String::from_str("Action: ");
        match self.action {
            CRUD::Create => out.append("Create"),
            CRUD::Delete => out.append("Delete"),
        }
        out.append(", Workload id: ");
        out.append(u64_to_string(self.workload_id as u64).as_str());
        assert(out@ == api_channel_text(self.action, self.workload_id));
        out
    }
}

/// The address on which the external half listens.
pub const LISTEN_ADDRESS: &'static str = "127.0.0.1:5000";

/// A text that holds no escape character.
pub open spec fn plain(text: Seq<char>) -> bool {
    forall|i: int| 0 <= i < text.len() ==> #[trigger] text[i] != '\u{1b}'
}

/// Whether `shown` is a plain text made green: the text itself where colours
/// are off, the text between the sequence that turns green on and the one
/// that resets where colours are on.
pub open spec fn is_green(shown: Seq<char>, text: Seq<char>) -> bool {
    shown == text || shown == "\u{1b}[32m"@ + text + "\u{1b}[0m"@
}

/// `Colorize::green` of the `colored` crate, as it prints. Trusted: where
/// colours are off the text is printed as it is; where they are on it is
/// printed after `ESC[32m` and before `ESC[0m`, and a text without an escape
/// character has nothing inside that would be styled again. Whether colours
/// are on depends on `NO_COLOR`, `CLICOLOR`, `CLICOLOR_FORCE` and on whether
/// the output is a terminal, so both are admitted.
#[verifier::external_body]
fn green(text: &str) -> (r: String)
    ensures
        plain(text@) ==> is_green(r@, text@),
{
    format!("{}", text.green())
}

/// Whether `r` is what starting the external half comes to when the
/// internal half took the greeting or not (`greeted`) and the log took the
/// announcement or not (`announced`).
pub open spec fn start_outcome(greeted: bool, announced: bool, r: Result<String, RikError>) -> bool {
    if !greeted {
        r matches Err(RikError::IoError(m)) && m@ == "the internal half is gone"@
    } else if !announced {
        r matches Err(RikError::IoError(m)) && m@ == "the log is gone"@
    } else {
        r matches Ok(address) && address@ == LISTEN_ADDRESS@
    }
}

/// The external half: it serves the HTTP surface.
pub struct ExternalAPI {
    pub logger: Sender<Logging>,
    pub internal_sender: Sender<ApiChannel>,
    pub external_receiver: Receiver<ApiChannel>,
}

impl ExternalAPI {
    pub fn new(
        logger_sender: Sender<Logging>,
        internal_sender: Sender<ApiChannel>,
        external_receiver: Receiver<ApiChannel>,
    ) -> (r: ExternalAPI)
        ensures
            r.logger == logger_sender,
            r.internal_sender == internal_sender,
            r.external_receiver == external_receiver,
    {
        ExternalAPI { logger: logger_sender, internal_sender, external_receiver }
    }

    /// What the external half tells the internal half when it starts: to
    /// delete workload 1.
    pub fn greeting() -> (r: ApiChannel)
        ensures
            r.action == CRUD::Delete,
            r.workload_id == 1,
            r.instance_id is None,
            r.workload_definition is None,
    {
        ApiChannel {
            action: CRUD::Delete,
            workload_id: 1,
            instance_id: None,
            workload_definition: None,
        }
    }

    /// What the external half tells the log when it starts: where the
    /// server runs, in green.
    pub fn announcement() -> (r: Logging)
        ensures
            is_green(r.message@, "Server running on http://"@ + LISTEN_ADDRESS@),
            r.log_type == LogType::Log,
    {
        let mut text = String::from_str("Server running on http://");
        text.append(LISTEN_ADDRESS);
        proof {
            reveal_strlit("Server running on http://");
            reveal_strlit("127.0.0.1:5000");
            assert(plain("Server running on http://"@));
            assert(plain(LISTEN_ADDRESS@));
            assert(plain(text@));
        }
        let message = green(text.as_str());
        Logging { message, log_type: LogType::Log }
    }

    /// What starting the half comes to. `greeted` says whether the internal
    /// half took the greeting, `announced` whether the log then took the
    /// announcement. With both taken the half listens on `LISTEN_ADDRESS`;
    /// otherwise the start fails, and the error names the queue that is gone.
    pub fn started(greeted: bool, announced: bool) -> (r: Result<String, RikError>)
        ensures
            start_outcome(greeted, announced, r),
    {
        if !greeted {
            Err(RikError::IoError(String::from_str("the internal half is gone")))
        } else if !announced {
            Err(RikError::IoError(String::from_str("the log is gone")))
        } else {
            Ok(String::from_str(LISTEN_ADDRESS))
        }
    }

    /// Starts the half: sends the `greeting` to the internal half and, if
    /// that was taken, the `announcement` to the log. Whether the two are
    /// taken is for the queues to say; the result is what `started` makes
    /// of it: the address to listen on, or the error that names the queue
    /// that is gone.
    pub fn run(&self) -> (r: Result<String, RikError>)
        ensures
            exists|greeted: bool, announced: bool| start_outcome(greeted, announced, r),
            r matches Ok(address) ==> address@ == LISTEN_ADDRESS@,
    {
        let greeted = send(&self.internal_sender, Self::greeting());
        let announced = if greeted {
            send(&self.logger, Self::announcement())
        } else {
            false
        };
        Self::started(greeted, announced)
    }

    /// Takes the notifications that are waiting, `limit` of them at most, and
    /// returns each in words, in their order.
    pub fn listen_notification(&self, limit: usize) -> (lines: Vec<String>)
        ensures
            lines@.len() <= limit,
            forall|k: int| 0 <= k < lines@.len() ==> is_api_channel_text((#[trigger] lines@[k])@),
    {
        let mut lines: Vec<String> = Vec::new();
        let mut n: usize = 0;
        let mut open = true;
        while open && n < limit
            invariant
                lines@.len() <= n <= limit,
                forall|k: int|
                    0 <= k < lines@.len() ==> is_api_channel_text((#[trigger] lines@[k])@),
            decreases limit - n,
        {
            match try_recv(&self.external_receiver) {
                Some(notification) => {
                    let line = notification.describe();
                    lines.push(line);
                },
                None => {
                    open = false;
                },
            }
            n += 1;
        }
        lines
    }
}

/// What the internal half writes to the log about a notification.
pub open spec fn notification_text(action: CRUD, workload_id: usize) -> Seq<char> {
    (if action == CRUD::Create {
        "Create Workload: "@
    } else {
        "Delte Workload: "@
    }) + decimal(workload_id as nat)
}

/// The internal half: it talks to the scheduler.
pub struct InternalAPI {
    pub logger: Sender<Logging>,
    pub external_sender: Sender<ApiChannel>,
    pub internal_receiver: Receiver<ApiChannel>,
}

impl InternalAPI {
    pub fn new(
        logger_sender: Sender<Logging>,
        external_sender: Sender<ApiChannel>,
        internal_receiver: Receiver<ApiChannel>,
    ) -> (r: InternalAPI)
        ensures
            r.logger == logger_sender,
            r.external_sender == external_sender,
            r.internal_receiver == internal_receiver,
    {
        InternalAPI { logger: logger_sender, external_sender, internal_receiver }
    }

    /// The queue toward the external half.
    pub fn external_api_mut(&mut self) -> (r: &mut Sender<ApiChannel>)
        ensures
            *r == old(self).external_sender,
            final(self).external_sender == *final(r),
            final(self).logger == old(self).logger,
            final(self).internal_receiver == old(self).internal_receiver,
    {
        &mut self.external_sender
    }

    /// What is logged about a notification: `Create Workload: <id>` or
    /// `Delte Workload: <id>`, as a plain log message.
    pub fn note(notification: &ApiChannel) -> (r: Logging)
        ensures
            r.message@ == notification_text(notification.action, notification.workload_id),
            r.log_type == LogType::Log,
    {
        let mut message = match notification.action {
            CRUD::Create => String::from_str("Create Workload: "),
            CRUD::Delete => String::from_str("Delte Workload: "),
        };
        message.append(u64_to_string(notification.workload_id as u64).as_str());
        Logging { message, log_type: LogType::Log }
    }

    /// What the internal half tells the log when it starts: that the
    /// internal server is not there yet, as an error.
    pub fn announcement() -> (r: Logging)
        ensures
            r.message@ == "Internal server not implemented"@,
            r.log_type == LogType::Error,
    {
        Logging {
            message: String::from_str("Internal server not implemented"),
            log_type: LogType::Error,
        }
    }

    /// Starts the half: sends the `announcement` to the log. Returns whether
    /// the log took it.
    pub fn run(&self) -> (r: bool) {
        send(&self.logger, Self::announcement())
    }

    /// Takes the notifications that are waiting, `limit` of them at most, and
    /// logs each. Returns how many were logged.
    pub fn listen(&self, limit: usize) -> (logged: usize)
        ensures
            logged <= limit,
    {
        let mut n: usize = 0;
        let mut logged: usize = 0;
        let mut open = true;
        while open && n < limit
            invariant
                logged <= n <= limit,
            decreases limit - n,
        {
            match try_recv(&self.internal_receiver) {
                Some(notification) => {
                    if send(&self.logger, Self::note(&notification)) {
                        logged += 1;
                    } else {
                        open = false;
                    }
                },
                None => {
                    open = false;
                },
            }
            n += 1;
        }
        logged
    }
}

/// An id that may be missing, as `{:?}` prints it: `Some(<id>)` or `None`.
pub open spec fn option_text(id: Option<usize>) -> Seq<char> {
    match id {
        Some(n) => "Some("@ + decimal(n as nat) + ")"@,
        None => "None"@,
    }
}

/// What the internal server writes to the log about a message.
pub open spec fn server_text(action: CRUD, workload_id: usize, instance_id: Option<usize>) -> Seq<
    char,
> {
    if action == CRUD::Create {
        "Ctrl to scheduler create instance: "@ + option_text(instance_id) + ", workload_id : "@
            + decimal(workload_id as nat)
    } else {
        "Ctrl to scheduler delete instance: "@ + option_text(instance_id)
    }
}

/// The number that asks the scheduler to create (0) or to destroy (1).
pub open spec fn request_code(action: CRUD) -> i32 {
    if action == CRUD::Create {
        0
    } else {
        1
    }
}

/// Whether `ask` is what the scheduler is asked about some message: a
/// request under a workload's id in decimal, to create or to destroy.
pub open spec fn is_ask(ask: WorkloadScheduling) -> bool {
    exists|action: CRUD, workload_id: usize|
        ask.workload_id@ == decimal(workload_id as nat) && ask.request == request_code(action)
}

/// The internal half once it talks to the scheduler: every message about
/// an instance becomes a request to the scheduler.
pub struct Server {
    pub logger: Sender<Logging>,
    pub external_sender: Sender<ApiChannel>,
    pub internal_receiver: Receiver<ApiChannel>,
}

impl Server {
    pub fn new(
        logger_sender: Sender<Logging>,
        external_sender: Sender<ApiChannel>,
        internal_receiver: Receiver<ApiChannel>,
    ) -> (r: Server)
        ensures
            r.logger == logger_sender,
            r.external_sender == external_sender,
            r.internal_receiver == internal_receiver,
    {
        Server { logger: logger_sender, external_sender, internal_receiver }
    }

    /// What is done about one message: what is logged, and what the
    /// scheduler is asked. The scheduler is asked only about a message that
    /// names an instance and carries a document; it is asked to create the
    /// workload for a creation and to destroy it for a deletion, under the
    /// workload's id in decimal.
    pub fn note(notification: ApiChannel) -> (r: (Logging, Option<WorkloadScheduling>))
        ensures
            r.0.message@ == server_text(
                notification.action,
                notification.workload_id,
                notification.instance_id,
            ),
            r.0.log_type == LogType::Log,
            r.1 is Some <==> notification.instance_id is Some
                && notification.workload_definition is Some,
            r.1 matches Some(w) ==> w.workload_id@ == decimal(notification.workload_id as nat)
                && w.definition == notification.workload_definition->0 && w.request
                == request_code(notification.action) && WorkloadRequestKind::of_code(
                w.request as int,
            ) == (if notification.action == CRUD::Create {
                WorkloadRequestKind::Create
            } else {
                WorkloadRequestKind::Destroy
            }) && is_ask(w),
    {
        let mut message = match notification.action {
            CRUD::Create => String::from_str("Ctrl to scheduler create instance: "),
            CRUD::Delete => String::from_str("Ctrl to scheduler delete instance: "),
        };
        match notification.instance_id {
            Some(n) => {
                message.append("Some(");
                message.append(u64_to_string(n as u64).as_str());
                message.append(")");
            },
            None => {
                message.append("None");
            },
        }
        let request = match notification.action {
            CRUD::Create => {
                message.append(", workload_id : ");
                message.append(u64_to_string(notification.workload_id as u64).as_str());
                WorkloadRequestKind::Create.to_i32()
            },
            CRUD::Delete => WorkloadRequestKind::Destroy.to_i32(),
        };
        let ask = match (notification.instance_id, notification.workload_definition) {
            (Some(_), Some(definition)) => Some(
                WorkloadScheduling {
                    workload_id: u64_to_string(notification.workload_id as u64),
                    definition,
                    request,
                },
            ),
            _ => None,
        };
        proof {
            if ask is Some {
                let w = ask->0;
                assert(w.workload_id@ == decimal(notification.workload_id as nat) && w.request
                    == request_code(notification.action));
            }
        }
        (Logging { message, log_type: LogType::Log }, ask)
    }

    /// Takes the messages that are waiting, `limit` of them at most, logs
    /// each, and returns what the scheduler is to be asked, in the order
    /// of the messages. Which messages are waiting is for the queue to say;
    /// each request returned is what `note` makes of one of them.
    pub fn listen_notification(&self, limit: usize) -> (asks: Vec<WorkloadScheduling>)
        ensures
            asks@.len() <= limit,
            forall|k: int| 0 <= k < asks@.len() ==> is_ask(#[trigger] asks@[k]),
    {
        let mut asks: Vec<WorkloadScheduling> = Vec::new();
        let mut n: usize = 0;
        let mut open = true;
        while open && n < limit
            invariant
                asks@.len() <= n <= limit,
                forall|k: int| 0 <= k < asks@.len() ==> is_ask(#[trigger] asks@[k]),
            decreases limit - n,
        {
            match try_recv(&self.internal_receiver) {
                Some(notification) => {
                    let (logging, ask) = Self::note(notification);
                    let _ = send(&self.logger, logging);
                    match ask {
                        Some(a) => asks.push(a),
                        None => {},
                    }
                },
                None => {
                    open = false;
                },
            }
            n += 1;
        }
        asks
    }
}

} // verus!