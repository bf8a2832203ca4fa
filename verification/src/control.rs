//! The server that the desktop program can host: at most one runs at a time.
use vstd::prelude::*;

verus! {

/// Why a start or stop request is refused.
#[derive(Debug, Clone, Copy, PartialEq, Eq)]
pub enum ControlError {
    AlreadyRunning,
    NotRunning,
}

/// The slot of the hosted server: empty, or the handle that stops it.
pub struct ServerControl<H> {
    running: Option<H>,
}

impl<H> View for ServerControl<H> {
    type V = Option<H>;

    open spec fn view(&self) -> Option<H> {
        self.handle()
    }
}

impl<H> ServerControl<H> {
    /// The handle of the running server, if one runs.
    pub closed spec fn handle(&self) -> Option<H> {
        self.running
    }

    /// No server runs.
    pub fn new() -> (c: Self)
        ensures
            c@ is None,
    {
        ServerControl { running: None }
    }

    /// Whether a server runs.
    pub fn is_running(&self) -> (b: bool)
        ensures
            b == self@ is Some,
    {
        self.running.is_some()
    }

    /// Checked before a server is started: refused while one runs.
    pub fn check_can_start(&self) -> (r: Result<(), ControlError>)
        ensures
            self@ is Some ==> r == Err::<(), _>(ControlError::AlreadyRunning),
            self@ is None ==> r is Ok,
    {
        if self.running.is_some() {
            Err(ControlError::AlreadyRunning)
        } else {
            Ok(())
        }
    }

    /// Records the stop handle of a server that was just started.
    pub fn install(&mut self, handle: H)
        requires
            old(self)@ is None,
        ensures
            final(self)@ == Some(handle),
    {
        self.running = Some(handle);
    }

    /// Takes the stop handle of the running server; refused when none runs.
    pub fn stop(&mut self) -> (r: Result<H, ControlError>)
        ensures
            final(self)@ is None,
            match old(self)@ {
                Some(h) => r == Ok::<H, ControlError>(h),
                None => r == Err::<H, _>(ControlError::NotRunning),
            },
    {
        match self.running.take() {
            Some(h) => Ok(h),
            None => Err(ControlError::NotRunning),
        }
    }
}

/// Whether a server runs after a start request (`true`) or a stop request
/// (`false`) made while `running` says whether one ran: a start is refused
/// while one runs and otherwise installs one; a stop is refused when none
/// runs and otherwise takes it away.
pub open spec fn after_request(running: bool, start: bool) -> bool {
    start
}

/// Whether a server runs after the requests `rs`, starting with none.
pub open spec fn running_after(rs: Seq<bool>) -> bool
    decreases rs.len(),
{
    if rs.len() == 0 {
        false
    } else {
        after_request(running_after(rs.drop_last()), rs.last())
    }
}

/// Each request moves the slot as `after_request` says.
pub proof fn law_request_step<H>(before: Option<H>, start: bool, after: Option<H>)
    requires
        start ==> (before is Some ==> after == before) && (before is None ==> after is Some),
        !start ==> after is None,
    ensures
        (after is Some) == after_request(before is Some, start),
{
}

/// Over any sequence of start and stop requests, a server runs exactly when
/// the last request was a start (a refused start leaves the running one).
pub proof fn law_status_follows_last_request(rs: Seq<bool>)
    ensures
        running_after(rs) == (rs.len() > 0 && rs.last()),
{
}

} // verus!
