use vstd::prelude::*;

use crate::cli_args::tokenize;
use crate::cli_args::tokenize_str;
use crate::metadata_variables::MetadataVariables;
use crate::metadata_variables::spec_augment;

verus! {

/// What a non-blocking liveness check of a supervised process found:
/// the process is still running, it has exited (with any status), or
/// the check itself failed.
#[derive(Clone, Copy, PartialEq, Eq, Structural, Debug)]
pub enum PollEvent {
    StillRunning,
    Exited,
    PollError,
}

/// Supervises one stream: owns the raw command template, the target
/// URL, and at most one live capture process, identified here by the
/// opaque handle the process creation boundary handed back.
pub struct StreamHandler {
    pub raw_streamlink_cli: String,
    pub stream_url: String,
    pub process: Option<u64>,
    pub started_at: Option<u64>,
}

/// What `terminate` does to a handler: the handle (if any) is to be
/// killed, and the handler afterwards holds none.
pub open spec fn spec_terminate(h: StreamHandler) -> (StreamHandler, Option<u64>) {
    (
        StreamHandler {
            raw_streamlink_cli: h.raw_streamlink_cli,
            stream_url: h.stream_url,
            process: None,
            started_at: h.started_at,
        },
        h.process,
    )
}

/// Calling terminate twice performs at most one kill: whatever the
/// handler held, the second call finds no process and kills nothing.
pub proof fn lemma_terminate_twice_one_kill(h: StreamHandler)
    ensures
        spec_terminate(spec_terminate(h).0).1 is None,
        h.process is None ==> spec_terminate(h).1 is None,
{
}

impl StreamHandler {
    pub fn new(raw_streamlink_cli: String, stream_url: String) -> (h: Self)
        ensures
            h.raw_streamlink_cli == raw_streamlink_cli,
            h.stream_url == stream_url,
            h.process is None,
            h.started_at is None,
    {
        Self { raw_streamlink_cli, stream_url, process: None, started_at: None }
    }

    /// The argument vector for (re)starting this stream's capture
    /// process: the command template with this handler's metadata
    /// filled in, split shell-style. It is never empty; its first
    /// element is the executable.
    pub fn start_args(&self) -> (r: Vec<String>)
        ensures
            exists|ts: Seq<char>|
                r@.map_values(|t: String| t@) == tokenize(
                    spec_augment(self.raw_streamlink_cli@, self.stream_url@, ts),
                ),
            r@.len() > 0,
    {
        let augmented = MetadataVariables::augment_cli(
            self.raw_streamlink_cli.as_str(),
            self.stream_url.as_str(),
        );
        let r = tokenize_str(augmented.as_str());
        proof {
            let ts = choose|ts: Seq<char>|
                augmented@ == spec_augment(self.raw_streamlink_cli@, self.stream_url@, ts);
            assert(exists|ts2: Seq<char>|
                r@.map_values(|t: String| t@) == tokenize(
                    spec_augment(self.raw_streamlink_cli@, self.stream_url@, ts2),
                )) by {
                assert(r@.map_values(|t: String| t@) == tokenize(
                    spec_augment(self.raw_streamlink_cli@, self.stream_url@, ts),
                ));
            }
        }
        r
    }

    /// Stores the handle of a process just spawned for this stream,
    /// with its start time, replacing (without terminating) any handle
    /// held before.
    pub fn record_started(&mut self, handle: u64, at: u64)
        ensures
            final(self).raw_streamlink_cli == old(self).raw_streamlink_cli,
            final(self).stream_url == old(self).stream_url,
            final(self).process == Some(handle),
            final(self).started_at == Some(at),
    {
        self.started_at = Some(at);
        self.process = Some(handle);
    }

    /// The restart policy: a process that has exited, or whose
    /// liveness check failed, is restarted at once, unconditionally;
    /// a running process is left alone. On a restart decision the dead
    /// handle is dropped; the caller spawns the replacement and records
    /// it. Nothing else about the handler changes.
    pub fn on_poll(&mut self, event: PollEvent) -> (restart: bool)
        ensures
            restart == !(event is StillRunning),
            !restart ==> *final(self) == *old(self),
            restart ==> *final(self) == spec_terminate(*old(self)).0,
    {
        match event {
            PollEvent::StillRunning => false,
            PollEvent::Exited | PollEvent::PollError => {
                self.process = None;
                true
            },
        }
    }

    /// Gives up this handler's process handle so the caller can kill
    /// the process; afterwards the handler holds none. Idempotent: with
    /// no live handle it is a no-op and nothing is to be killed.
    pub fn terminate(&mut self) -> (kill: Option<u64>)
        ensures
            (*final(self), kill) == spec_terminate(*old(self)),
    {
        let kill = self.process;
        self.process = None;
        kill
    }

    pub fn stream_url(&self) -> (r: &str)
        ensures
            r@ == self.stream_url@,
    {
        self.stream_url.as_str()
    }

    /// The handle of the live process, if one is running.
    pub fn process_handle(&self) -> (r: Option<u64>)
        ensures
            r == self.process,
    {
        self.process
    }
}

} // verus!
