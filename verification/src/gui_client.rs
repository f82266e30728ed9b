//! The GUI's view of the daemon: where it listens, and how each reply of the
//! daemon becomes a result that the GUI can show.
//!
//! The GUI sends one request per action; the reply, or the client error that
//! came instead, is turned into the value the action produces or into a
//! message for the user.
use vstd::prelude::*;
use crate::client::IpcError;
use crate::protocol::{DeviceInfo, MacroEntry, Response};
use crate::text::{owned, concat2};

verus! {

/// The GUI's handle on the daemon.
#[derive(Debug)]
pub struct GuiIpcClient {
    socket_path: String,
}

impl GuiIpcClient {
    /// The socket the client talks to.
    pub closed spec fn spec_socket_path(&self) -> Seq<char> {
        self.socket_path@
    }

    /// A client for the daemon listening at `socket_path`.
    pub fn new(socket_path: String) -> (c: Self)
        ensures
            c.spec_socket_path() == socket_path@,
    {
        GuiIpcClient { socket_path }
    }

    /// The socket the client talks to.
    pub fn socket_path(&self) -> (r: &str)
        ensures
            r@ == self.spec_socket_path(),
    {
        self.socket_path.as_str()
    }
}

/// The text of a failed call: `Failed to <action>: <error>`.
pub open spec fn failure_text(action: Seq<char>, e: IpcError) -> Seq<char> {
    "Failed to "@ + action + ": "@ + e.message_spec()
}

/// `Failed to <action>: <error>`.
fn failure(action: &str, e: &IpcError) -> (r: String)
    ensures
        r@ == failure_text(action@, *e),
{
    let mut s = concat2("Failed to ", action);
    crate::text::push_str(&mut s, ": ");
    let m = e.message();
    crate::text::push_str(&mut s, m.as_str());
    s
}

/// The text of a reply of the wrong kind.
pub open spec fn unexpected_text() -> Seq<char> {
    "Unexpected response"@
}

/// Whether the daemon answered: a refused connection means it is not running.
pub fn connect_reply(running: bool) -> (r: Result<(), String>)
    ensures
        running ==> r is Ok,
        !running ==> (r matches Err(m) && m@ == "Daemon is not running"@),
{
    if running {
        Ok(())
    } else {
        Err(owned("Daemon is not running"))
    }
}

/// The devices that a reply to `GetDevices` lists.
pub fn devices_reply(reply: Result<Response, IpcError>) -> (r: Result<Vec<DeviceInfo>, String>)
    ensures
        match reply {
            Ok(Response::Devices(d)) => r == Ok::<Vec<DeviceInfo>, String>(d),
            Ok(_) => r matches Err(m) && m@ == unexpected_text(),
            Err(e) => r matches Err(m) && m@ == failure_text("get devices"@, e),
        },
{
    match reply {
        Ok(Response::Devices(d)) => Ok(d),
        Ok(_) => Err(owned("Unexpected response")),
        Err(e) => Err(failure("get devices", &e)),
    }
}

/// The macros that a reply to `ListMacros` lists.
pub fn macros_reply(reply: Result<Response, IpcError>) -> (r: Result<Vec<MacroEntry>, String>)
    ensures
        match reply {
            Ok(Response::Macros(m)) => r == Ok::<Vec<MacroEntry>, String>(m),
            Ok(_) => r matches Err(m) && m@ == unexpected_text(),
            Err(e) => r matches Err(m) && m@ == failure_text("list macros"@, e),
        },
{
    match reply {
        Ok(Response::Macros(m)) => Ok(m),
        Ok(_) => Err(owned("Unexpected response")),
        Err(e) => Err(failure("list macros", &e)),
    }
}

/// Whether a reply to `RecordMacro` says that recording started.
pub fn recording_started_reply(reply: Result<Response, IpcError>) -> (r: Result<(), String>)
    ensures
        match reply {
            Ok(Response::RecordingStarted { .. }) => r is Ok,
            Ok(_) => r matches Err(m) && m@ == unexpected_text(),
            Err(e) => r matches Err(m) && m@ == failure_text("start recording"@, e),
        },
{
    match reply {
        Ok(Response::RecordingStarted { .. }) => Ok(()),
        Ok(_) => Err(owned("Unexpected response")),
        Err(e) => Err(failure("start recording", &e)),
    }
}

/// The macro that a reply to `StopRecording` hands back.
pub fn recording_stopped_reply(reply: Result<Response, IpcError>) -> (r: Result<MacroEntry, String>)
    ensures
        match reply {
            Ok(Response::RecordingStopped { macro_entry }) => r == Ok::<MacroEntry, String>(macro_entry),
            Ok(_) => r matches Err(m) && m@ == unexpected_text(),
            Err(e) => r matches Err(m) && m@ == failure_text("stop recording"@, e),
        },
{
    match reply {
        Ok(Response::RecordingStopped { macro_entry }) => Ok(macro_entry),
        Ok(_) => Err(owned("Unexpected response")),
        Err(e) => Err(failure("stop recording", &e)),
    }
}

/// Whether a reply acknowledges the call; `action` names the call in the
/// failure text (`delete macro`, `test macro`, `grab device`, `ungrab device`).
pub fn ack_reply(action: &str, reply: Result<Response, IpcError>) -> (r: Result<(), String>)
    ensures
        match reply {
            Ok(Response::Ack) => r is Ok,
            Ok(_) => r matches Err(m) && m@ == unexpected_text(),
            Err(e) => r matches Err(m) && m@ == failure_text(action@, e),
        },
{
    match reply {
        Ok(Response::Ack) => Ok(()),
        Ok(_) => Err(owned("Unexpected response")),
        Err(e) => Err(failure(action, &e)),
    }
}

/// The name and macro count that a reply to `SaveProfile` reports.
pub fn profile_saved_reply(reply: Result<Response, IpcError>) -> (r: Result<(String, usize), String>)
    ensures
        match reply {
            Ok(Response::ProfileSaved { name, macros_count }) => r == Ok::<(String, usize), String>(
                (name, macros_count),
            ),
            Ok(_) => r matches Err(m) && m@ == unexpected_text(),
            Err(e) => r matches Err(m) && m@ == failure_text("save profile"@, e),
        },
{
    match reply {
        Ok(Response::ProfileSaved { name, macros_count }) => Ok((name, macros_count)),
        Ok(_) => Err(owned("Unexpected response")),
        Err(e) => Err(failure("save profile", &e)),
    }
}

/// The name and macro count that a reply to `LoadProfile` reports.
pub fn profile_loaded_reply(reply: Result<Response, IpcError>) -> (r: Result<(String, usize), String>)
    ensures
        match reply {
            Ok(Response::ProfileLoaded { name, macros_count }) => r == Ok::<(String, usize), String>(
                (name, macros_count),
            ),
            Ok(_) => r matches Err(m) && m@ == unexpected_text(),
            Err(e) => r matches Err(m) && m@ == failure_text("load profile"@, e),
        },
{
    match reply {
        Ok(Response::ProfileLoaded { name, macros_count }) => Ok((name, macros_count)),
        Ok(_) => Err(owned("Unexpected response")),
        Err(e) => Err(failure("load profile", &e)),
    }
}

} // verus!
