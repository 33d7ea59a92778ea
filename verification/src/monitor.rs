//! The decisions taken while a renderer runs: when to give up on it, and
//! when its exit status and output are complete.

use vstd::prelude::*;
use crate::outcome::ParseFailure;

verus! {

/// What polling the renderer process found.
pub enum ChildPoll {
    /// The process has exited, successfully or not.
    Exited(bool),
    /// The process is still running.
    Running,
    /// Polling failed, for the given reason.
    Failed(String),
}

/// What polling the reader of the renderer's standard output found.
pub enum OutputPoll {
    /// The reader finished with these bytes.
    Data(Vec<u8>),
    /// The reader failed, for the given reason.
    ReadFailed(String),
    /// The reader went away without a result.
    Disconnected,
    /// The reader has not finished yet.
    Pending,
}

/// Why the wait must stop before the renderer is done, if it must: a
/// cancellation takes precedence over the deadline.
pub fn interruption(cancelled: bool, past_deadline: bool) -> (stop: Option<ParseFailure>)
    ensures
        cancelled ==> stop matches Some(ParseFailure::Cancelled),
        !cancelled && past_deadline ==> stop matches Some(ParseFailure::TimedOut),
        !cancelled && !past_deadline ==> stop is None,
{
    if cancelled {
        Some(ParseFailure::Cancelled)
    } else if past_deadline {
        Some(ParseFailure::TimedOut)
    } else {
        None
    }
}

/// The next move of a wait on a renderer whose output goes to a file.
pub enum StatusStep {
    /// The renderer exited; the flag says whether it succeeded.
    Exited(bool),
    /// Wait a little and poll again.
    Wait,
    /// Stop the renderer and fail.
    Stop(ParseFailure),
}

/// Decides on one poll of a renderer whose output goes to a file.
pub fn status_step(poll: ChildPoll) -> (step: StatusStep)
    ensures
        match poll {
            ChildPoll::Exited(success) => step matches StatusStep::Exited(s) && s == success,
            ChildPoll::Running => step is Wait,
            ChildPoll::Failed(e) => step matches StatusStep::Stop(ParseFailure::MonitorFailed(m)) && m == e,
        },
{
    match poll {
        ChildPoll::Exited(success) => StatusStep::Exited(success),
        ChildPoll::Running => StatusStep::Wait,
        ChildPoll::Failed(e) => StatusStep::Stop(ParseFailure::MonitorFailed(e)),
    }
}

/// The state of a wait on a renderer whose output is streamed back: the exit
/// status once known, and the output once completely read.
pub struct OutputMonitor {
    pub status: Option<bool>,
    pub output: Option<Vec<u8>>,
    pub max_bytes: u64,
}

impl OutputMonitor {
    /// Output that has been kept never exceeds the limit.
    pub open spec fn wf(&self) -> bool {
        self.output matches Some(data) ==> data@.len() <= self.max_bytes
    }

    /// A wait that knows nothing yet and accepts up to `max_bytes` of output.
    pub fn new(max_bytes: u64) -> (monitor: Self)
        ensures
            monitor.wf(),
            monitor.status is None,
            monitor.output is None,
            monitor.max_bytes == max_bytes,
    {
        OutputMonitor { status: None, output: None, max_bytes }
    }

    /// Takes in a poll of the renderer process, made while its status was
    /// unknown; a failed poll stops the wait.
    pub fn record_status(&mut self, poll: ChildPoll) -> (stop: Option<ParseFailure>)
        requires
            old(self).wf(),
            old(self).status is None,
        ensures
            final(self).wf(),
            final(self).output == old(self).output,
            final(self).max_bytes == old(self).max_bytes,
            match poll {
                ChildPoll::Exited(success) => stop is None && final(self).status == Some(success),
                ChildPoll::Running => stop is None && final(self).status is None,
                ChildPoll::Failed(e) => (stop matches Some(ParseFailure::MonitorFailed(m)) && m == e)
                    && final(self).status is None,
            },
    {
        match poll {
            ChildPoll::Exited(success) => {
                self.status = Some(success);
                None
            },
            ChildPoll::Running => None,
            ChildPoll::Failed(e) => Some(ParseFailure::MonitorFailed(e)),
        }
    }

    /// Takes in a poll of the output reader, made while the output was
    /// unknown; output beyond the limit, a read error or a lost reader stops
    /// the wait.
    pub fn record_output(&mut self, poll: OutputPoll) -> (stop: Option<ParseFailure>)
        requires
            old(self).wf(),
            old(self).output is None,
        ensures
            final(self).wf(),
            final(self).status == old(self).status,
            final(self).max_bytes == old(self).max_bytes,
            match poll {
                OutputPoll::Data(data) => if data@.len() > old(self).max_bytes {
                    (stop matches Some(ParseFailure::OutputTooLarge)) && final(self).output is None
                } else {
                    stop is None && final(self).output == Some(data)
                },
                OutputPoll::ReadFailed(e) => (stop matches Some(ParseFailure::OutputReadFailed(m)) && m == e)
                    && final(self).output is None,
                OutputPoll::Disconnected => (stop matches Some(ParseFailure::OutputReaderLost))
                    && final(self).output is None,
                OutputPoll::Pending => stop is None && final(self).output is None,
            },
    {
        match poll {
            OutputPoll::Data(data) => {
                if data.len() as u64 > self.max_bytes {
                    Some(ParseFailure::OutputTooLarge)
                } else {
                    self.output = Some(data);
                    None
                }
            },
            OutputPoll::ReadFailed(e) => Some(ParseFailure::OutputReadFailed(e)),
            OutputPoll::Disconnected => Some(ParseFailure::OutputReaderLost),
            OutputPoll::Pending => None,
        }
    }

    /// Hands back the exit status and the output once both are known, and
    /// nothing before.
    pub fn take_finished(&mut self) -> (done: Option<(bool, Vec<u8>)>)
        requires
            old(self).wf(),
        ensures
            final(self).wf(),
            final(self).status == old(self).status,
            final(self).max_bytes == old(self).max_bytes,
            match (old(self).status, old(self).output) {
                (Some(success), Some(data)) => (done matches Some((s, d)) && s == success && d == data)
                    && final(self).output is None,
                _ => done is None && final(self).output == old(self).output,
            },
            done matches Some((s, d)) ==> d@.len() <= old(self).max_bytes,
    {
        if self.status.is_some() && self.output.is_some() {
            let data = self.output.take().unwrap();
            Some((self.status.unwrap(), data))
        } else {
            None
        }
    }
}

} // verus!
