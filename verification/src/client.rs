//! The IPC client's settings, errors and retry decisions.
//!
//! The socket work itself (connecting, writing and reading frames, sleeping
//! between attempts) is done by the caller; this module decides what each
//! outcome leads to.
use vstd::prelude::*;
use crate::text::{owned, push_str, decimal, decimal_string};

verus! {

/// Default socket path of the daemon.
pub const DEFAULT_SOCKET_PATH: &'static str = "/run/razermapper.sock";

/// Default timeout for operations, in milliseconds.
pub const DEFAULT_TIMEOUT_MS: u64 = 5000;

/// Default number of reconnection attempts.
pub const DEFAULT_MAX_RETRIES: u32 = 3;

/// Default delay between reconnection attempts, in milliseconds.
pub const DEFAULT_RETRY_DELAY_MS: u64 = 1000;

/// Errors of the IPC client. Errors of the operating system or of the
/// serializer are carried as their messages.
#[derive(Debug)]
pub enum IpcError {
    Connect(String),
    Send(String),
    Receive(String),
    Serialize(String),
    Deserialize(String),
    Timeout,
    Io(String),
    Serialization(String),
    ConnectionTimeout,
    OperationTimeout(u64),
    DaemonNotRunning(String),
    InvalidResponse,
    MessageTooLarge(usize, usize),
    ConnectionClosed,
    Other(String),
}

impl IpcError {
    /// The message of the error, as the client prints it.
    pub open spec fn message_spec(&self) -> Seq<char> {
        match self {
            IpcError::Connect(e) => "failed to connect to daemon: "@ + e@,
            IpcError::Send(e) => "failed to send request: "@ + e@,
            IpcError::Receive(e) => "failed to receive response: "@ + e@,
            IpcError::Serialize(e) => "serialization error: "@ + e@,
            IpcError::Deserialize(e) => "deserialization error: "@ + e@,
            IpcError::Timeout => "request timed out"@,
            IpcError::Io(e) => "IO error: "@ + e@,
            IpcError::Serialization(e) => "Serialization error: "@ + e@,
            IpcError::ConnectionTimeout => "Connection timeout"@,
            IpcError::OperationTimeout(ms) => "Operation timeout after "@ + decimal(*ms as nat) + "ms"@,
            IpcError::DaemonNotRunning(p) => "Daemon not running at "@ + p@,
            IpcError::InvalidResponse => "Invalid response from daemon"@,
            IpcError::MessageTooLarge(n, m) => "Message too large: "@ + decimal(*n as nat)
                + " bytes exceeds maximum of "@ + decimal(*m as nat) + " bytes"@,
            IpcError::ConnectionClosed => "Connection closed unexpectedly"@,
            IpcError::Other(e) => "Other error: "@ + e@,
        }
    }

    /// The message of the error, as the client prints it.
    pub fn message(&self) -> (r: String)
        ensures
            r@ == self.message_spec(),
    {
        match self {
            IpcError::Connect(e) => crate::text::concat2("failed to connect to daemon: ", e.as_str()),
            IpcError::Send(e) => crate::text::concat2("failed to send request: ", e.as_str()),
            IpcError::Receive(e) => crate::text::concat2("failed to receive response: ", e.as_str()),
            IpcError::Serialize(e) => crate::text::concat2("serialization error: ", e.as_str()),
            IpcError::Deserialize(e) => crate::text::concat2("deserialization error: ", e.as_str()),
            IpcError::Timeout => owned("request timed out"),
            IpcError::Io(e) => crate::text::concat2("IO error: ", e.as_str()),
            IpcError::Serialization(e) => crate::text::concat2("Serialization error: ", e.as_str()),
            IpcError::ConnectionTimeout => owned("Connection timeout"),
            IpcError::OperationTimeout(ms) => {
                let mut s = owned("Operation timeout after ");
                let d = decimal_string(*ms);
                push_str(&mut s, d.as_str());
                push_str(&mut s, "ms");
                s
            },
            IpcError::DaemonNotRunning(p) => crate::text::concat2("Daemon not running at ", p.as_str()),
            IpcError::InvalidResponse => owned("Invalid response from daemon"),
            IpcError::MessageTooLarge(n, m) => {
                let mut s = owned("Message too large: ");
                let a = decimal_string(*n as u64);
                push_str(&mut s, a.as_str());
                push_str(&mut s, " bytes exceeds maximum of ");
                let b = decimal_string(*m as u64);
                push_str(&mut s, b.as_str());
                push_str(&mut s, " bytes");
                s
            },
            IpcError::ConnectionClosed => owned("Connection closed unexpectedly"),
            IpcError::Other(e) => crate::text::concat2("Other error: ", e.as_str()),
        }
    }
}

/// Settings of an IPC client: where the daemon listens, how long an operation
/// may take, and how often and how far apart connections are retried.
#[derive(Debug)]
pub struct IpcClient {
    socket_path: String,
    timeout_ms: u64,
    max_retries: u32,
    retry_delay_ms: u64,
}

/// What became of one connection attempt.
#[derive(Debug, PartialEq, Eq, Clone, Copy)]
pub enum ConnectOutcome {
    /// The socket accepted the connection.
    Connected,
    /// The connection was refused or failed.
    Failed,
    /// The attempt took longer than the timeout.
    TimedOut,
}

/// What the client does after a connection attempt.
#[derive(Debug)]
pub enum ConnectStep {
    /// Use the connection.
    Done,
    /// Sleep for the retry delay, then attempt again with the given attempt count.
    Retry { attempts: u32 },
    /// Give up with this error.
    Fail(IpcError),
}

impl IpcClient {
    pub closed spec fn spec_socket_path(&self) -> Seq<char> {
        self.socket_path@
    }

    pub closed spec fn spec_timeout_ms(&self) -> u64 {
        self.timeout_ms
    }

    pub closed spec fn spec_max_retries(&self) -> u32 {
        self.max_retries
    }

    pub closed spec fn spec_retry_delay_ms(&self) -> u64 {
        self.retry_delay_ms
    }

    /// A client for the default socket path with default settings.
    pub fn new() -> (c: Self)
        ensures
            c.spec_socket_path() == DEFAULT_SOCKET_PATH@,
            c.spec_timeout_ms() == DEFAULT_TIMEOUT_MS,
            c.spec_max_retries() == DEFAULT_MAX_RETRIES,
            c.spec_retry_delay_ms() == DEFAULT_RETRY_DELAY_MS,
    {
        Self::with_socket_path(DEFAULT_SOCKET_PATH)
    }

    /// A client for `socket_path` with default settings.
    pub fn with_socket_path(socket_path: &str) -> (c: Self)
        ensures
            c.spec_socket_path() == socket_path@,
            c.spec_timeout_ms() == DEFAULT_TIMEOUT_MS,
            c.spec_max_retries() == DEFAULT_MAX_RETRIES,
            c.spec_retry_delay_ms() == DEFAULT_RETRY_DELAY_MS,
    {
        IpcClient {
            socket_path: owned(socket_path),
            timeout_ms: DEFAULT_TIMEOUT_MS,
            max_retries: DEFAULT_MAX_RETRIES,
            retry_delay_ms: DEFAULT_RETRY_DELAY_MS,
        }
    }

    /// The same client with another operation timeout.
    pub fn with_timeout(self, timeout_ms: u64) -> (c: Self)
        ensures
            c.spec_socket_path() == self.spec_socket_path(),
            c.spec_timeout_ms() == timeout_ms,
            c.spec_max_retries() == self.spec_max_retries(),
            c.spec_retry_delay_ms() == self.spec_retry_delay_ms(),
    {
        IpcClient { timeout_ms, ..self }
    }

    /// The same client with other reconnection parameters.
    pub fn with_retry_params(self, max_retries: u32, retry_delay_ms: u64) -> (c: Self)
        ensures
            c.spec_socket_path() == self.spec_socket_path(),
            c.spec_timeout_ms() == self.spec_timeout_ms(),
            c.spec_max_retries() == max_retries,
            c.spec_retry_delay_ms() == retry_delay_ms,
    {
        IpcClient { max_retries, retry_delay_ms, ..self }
    }

    /// The socket path.
    pub fn socket_path(&self) -> (r: &str)
        ensures
            r@ == self.spec_socket_path(),
    {
        self.socket_path.as_str()
    }

    /// The operation timeout in milliseconds.
    pub fn timeout_ms(&self) -> (r: u64)
        ensures
            r == self.spec_timeout_ms(),
    {
        self.timeout_ms
    }

    /// The number of reconnection attempts.
    pub fn max_retries(&self) -> (r: u32)
        ensures
            r == self.spec_max_retries(),
    {
        self.max_retries
    }

    /// The delay between reconnection attempts in milliseconds.
    pub fn retry_delay_ms(&self) -> (r: u64)
        ensures
            r == self.spec_retry_delay_ms(),
    {
        self.retry_delay_ms
    }

    /// What follows a connection attempt made after `attempts` failed ones: a
    /// refused attempt is retried until `attempts` reaches the retry limit, a
    /// timed-out attempt ends the connection at once.
    pub fn connect_step(&self, attempts: u32, outcome: ConnectOutcome) -> (r: ConnectStep)
        requires
            attempts <= self.spec_max_retries(),
        ensures
            outcome == ConnectOutcome::Connected ==> r is Done,
            outcome == ConnectOutcome::TimedOut ==> r matches ConnectStep::Fail(IpcError::ConnectionTimeout),
            outcome == ConnectOutcome::Failed && attempts >= self.spec_max_retries() ==> (r matches ConnectStep::Fail(
                IpcError::DaemonNotRunning(p),
            ) && p@ == self.spec_socket_path()),
            outcome == ConnectOutcome::Failed && attempts < self.spec_max_retries() ==> r
                == (ConnectStep::Retry { attempts: (attempts + 1) as u32 }),
    {
        match outcome {
            ConnectOutcome::Connected => ConnectStep::Done,
            ConnectOutcome::TimedOut => ConnectStep::Fail(IpcError::ConnectionTimeout),
            ConnectOutcome::Failed => {
                if attempts >= self.max_retries {
                    ConnectStep::Fail(IpcError::DaemonNotRunning(self.socket_path.clone()))
                } else {
                    ConnectStep::Retry { attempts: attempts + 1 }
                }
            },
        }
    }
}

/// The state of a request that is sent again after failures: how many
/// attempts were made, how many are allowed, and the last error seen.
#[derive(Debug)]
pub struct RetryState {
    /// Attempts made so far; at most `max_retries + 1`, which a u64 holds.
    pub attempts: u64,
    pub max_retries: u32,
    pub last_error: Option<IpcError>,
}

impl RetryState {
    /// Before the first attempt.
    pub fn start(max_retries: u32) -> (s: Self)
        ensures
            s.attempts == 0,
            s.max_retries == max_retries,
            s.last_error is None,
    {
        RetryState { attempts: 0, max_retries, last_error: None }
    }

    /// Whether another attempt is allowed: at most `max_retries + 1` attempts are made.
    pub fn may_attempt(&self) -> (r: bool)
        ensures
            r == (self.attempts <= self.max_retries),
    {
        self.attempts <= self.max_retries as u64
    }

    /// Records a failed attempt; returns whether to sleep before the next
    /// attempt (after every failure but the last allowed one).
    pub fn record_failure(&mut self, e: IpcError) -> (sleep: bool)
        requires
            old(self).attempts <= old(self).max_retries,
        ensures
            final(self).attempts == old(self).attempts + 1,
            final(self).max_retries == old(self).max_retries,
            final(self).last_error == Some(e),
            sleep == (old(self).attempts < old(self).max_retries),
    {
        self.last_error = Some(e);
        let sleep = self.attempts < self.max_retries as u64;
        self.attempts = self.attempts + 1;
        sleep
    }

    /// The error that the request ends with: the last one seen, or
    /// `Other("Unknown error")` when none was.
    pub fn into_error(self) -> (e: IpcError)
        ensures
            self.last_error matches Some(l) ==> e == l,
            self.last_error is None ==> (e matches IpcError::Other(m) && m@ == "Unknown error"@),
    {
        match self.last_error {
            Some(e) => e,
            None => IpcError::Other(owned("Unknown error")),
        }
    }
}

} // verus!
