use vstd::prelude::*;

use crate::cli_args::tokenize;
use crate::metadata_variables::spec_augment;
use crate::stream_handler::PollEvent;
use crate::stream_handler::StreamHandler;
use crate::stream_handler::spec_terminate;

verus! {

/// The handles of the live processes among `hs`, in order.
pub open spec fn live_handles(hs: Seq<StreamHandler>) -> Seq<u64>
    decreases hs.len(),
{
    if hs.len() == 0 {
        Seq::empty()
    } else {
        live_handles(hs.drop_last()) + match hs.last().process {
            Some(h) => seq![h],
            None => Seq::empty(),
        }
    }
}

/// Once every handler's process handle is cleared — as `stop` leaves
/// them — no live process remains to be supervised or killed.
pub proof fn lemma_no_live_handles(hs: Seq<StreamHandler>)
    requires
        forall|i: int| 0 <= i < hs.len() ==> hs[i].process is None,
    ensures
        live_handles(hs) =~= Seq::<u64>::empty(),
    decreases hs.len(),
{
    if hs.len() > 0 {
        lemma_no_live_handles(hs.drop_last());
    }
}

/// An idle handler for one target: it carries the shared command
/// template and its own URL, and no process has been started yet.
pub open spec fn is_idle_handler(h: StreamHandler, cli: String, url: String) -> bool {
    &&& h.raw_streamlink_cli == cli
    &&& h.stream_url == url
    &&& h.process is None
    &&& h.started_at is None
}

/// Supervises the full set of streams: owns one handler per target,
/// all sharing one raw command template, and the running flag that is
/// the sole authority for whether supervision continues.
pub struct StreamManager {
    pub streamlink_cli: String,
    pub stream_handlers: Vec<StreamHandler>,
    pub ripping: bool,
}

fn handler_at<'a>(v: &'a mut Vec<StreamHandler>, i: usize) -> (element: &'a mut StreamHandler)
    requires
        i < old(v)@.len(),
    ensures
        *element == old(v)@[i as int],
        final(v)@ == old(v)@.update(i as int, *final(element)),
{
    &mut v[i]
}

impl StreamManager {
    /// One handler per target URL, all idle, flag down.
    pub fn new(stream_urls: Vec<String>, streamlink_cli: String) -> (m: Self)
        ensures
            m.streamlink_cli == streamlink_cli,
            !m.ripping,
            m.stream_handlers@.len() == stream_urls@.len(),
            forall|i: int|
                0 <= i < stream_urls@.len() ==> #[trigger] is_idle_handler(
                    m.stream_handlers@[i],
                    streamlink_cli,
                    stream_urls@[i],
                ),
    {
        let mut handlers: Vec<StreamHandler> = Vec::new();
        let mut i: usize = 0;
        while i < stream_urls.len()
            invariant
                i <= stream_urls@.len(),
                handlers@.len() == i,
                forall|k: int|
                    0 <= k < i ==> #[trigger] is_idle_handler(
                        handlers@[k],
                        streamlink_cli,
                        stream_urls@[k],
                    ),
            decreases stream_urls@.len() - i,
        {
            let url = stream_urls[i].clone();
            let h = StreamHandler::new(streamlink_cli.clone(), url);
            let ghost prev = handlers@;
            let ghost hg = h;
            handlers.push(h);
            proof {
                assert(handlers@ == prev.push(hg));
                assert(forall|k: int| 0 <= k < prev.len() ==> handlers@[k] == prev[k]);
                assert(handlers@[i as int] == hg);
                assert(is_idle_handler(hg, streamlink_cli, stream_urls@[i as int]));
                assert forall|k: int| 0 <= k < i + 1 implies #[trigger] is_idle_handler(
                    handlers@[k],
                    streamlink_cli,
                    stream_urls@[k],
                ) by {
                    if k < i {
                        assert(handlers@[k] == prev[k]);
                        assert(is_idle_handler(prev[k], streamlink_cli, stream_urls@[k]));
                    } else {
                        assert(handlers@[k] == hg);
                    }
                }
            }
            i += 1;
        }
        StreamManager { streamlink_cli, stream_handlers: handlers, ripping: false }
    }

    pub fn handler_count(&self) -> (n: usize)
        ensures
            n == self.stream_handlers@.len(),
    {
        self.stream_handlers.len()
    }

    /// Raises or clears the running flag; nothing else changes.
    pub fn set_ripping(&mut self, value: bool)
        ensures
            final(self).streamlink_cli == old(self).streamlink_cli,
            final(self).stream_handlers == old(self).stream_handlers,
            final(self).ripping == value,
    {
        self.ripping = value;
    }

    /// Whether the supervision loop should continue.
    pub fn ripping(&self) -> (b: bool)
        ensures
            b == self.ripping,
    {
        self.ripping
    }

    /// The argument vector for (re)starting the capture process of the
    /// target at `i`.
    pub fn start_args(&self, i: usize) -> (r: Vec<String>)
        requires
            i < self.stream_handlers@.len(),
        ensures
            exists|ts: Seq<char>|
                r@.map_values(|t: String| t@) == tokenize(
                    spec_augment(
                        self.stream_handlers@[i as int].raw_streamlink_cli@,
                        self.stream_handlers@[i as int].stream_url@,
                        ts,
                    ),
                ),
            r@.len() > 0,
    {
        let h = &self.stream_handlers[i];
        h.start_args()
    }

    /// The handle of the live process of target `i`, if one is running.
    pub fn process_handle(&self, i: usize) -> (r: Option<u64>)
        requires
            i < self.stream_handlers@.len(),
        ensures
            r == self.stream_handlers@[i as int].process,
    {
        let h = &self.stream_handlers[i];
        h.process_handle()
    }

    /// Stores the handle of a process just spawned for target `i`.
    pub fn record_started(&mut self, i: usize, handle: u64, at: u64)
        requires
            i < old(self).stream_handlers@.len(),
        ensures
            final(self).streamlink_cli == old(self).streamlink_cli,
            final(self).ripping == old(self).ripping,
            final(self).stream_handlers@.len() == old(self).stream_handlers@.len(),
            final(self).stream_handlers@[i as int].raw_streamlink_cli == old(self).stream_handlers@[i as int].raw_streamlink_cli,
            final(self).stream_handlers@[i as int].stream_url == old(self).stream_handlers@[
                i as int
            ].stream_url,
            final(self).stream_handlers@[i as int].process == Some(handle),
            final(self).stream_handlers@[i as int].started_at == Some(at),
            forall|k: int|
                0 <= k < old(self).stream_handlers@.len() && k != i ==> final(self).stream_handlers@[k] == old(self).stream_handlers@[k],
    {
        let h = handler_at(&mut self.stream_handlers, i);
        h.record_started(handle, at);
    }

    /// One pass of the supervision loop's decisions. If the running
    /// flag is down, nothing happens and nothing is to be spawned.
    /// Otherwise, for each target whose liveness check found the
    /// process exited or failed, the dead handle is dropped and the
    /// target's index is listed, in increasing order and exactly once;
    /// targets still running are untouched. The flag itself is never
    /// changed by a poll pass.
    pub fn run_cycle(&mut self, events: &Vec<PollEvent>) -> (restarts: Vec<usize>)
        requires
            events@.len() == old(self).stream_handlers@.len(),
        ensures
            final(self).streamlink_cli == old(self).streamlink_cli,
            final(self).ripping == old(self).ripping,
            final(self).stream_handlers@.len() == old(self).stream_handlers@.len(),
            !old(self).ripping ==> *final(self) == *old(self) && restarts@.len() == 0,
            old(self).ripping ==> {
                &&& forall|k: int|
                    0 <= k < events@.len() ==> final(self).stream_handlers@[k] == (
                    if events@[k] is StillRunning {
                        old(self).stream_handlers@[k]
                    } else {
                        spec_terminate(old(self).stream_handlers@[k]).0
                    })
                &&& forall|j: int|
                    0 <= j < restarts@.len() ==> restarts@[j] < events@.len() && !(events@[
                        restarts@[j] as int
                    ] is StillRunning)
                &&& forall|k: int|
                    0 <= k < events@.len() && !(events@[k] is StillRunning)
                        ==> restarts@.contains(k as usize)
                &&& forall|j: int, l: int|
                    0 <= j < l < restarts@.len() ==> restarts@[j] < restarts@[l]
            },
    {
        let mut restarts: Vec<usize> = Vec::new();
        if !self.ripping {
            return restarts;
        }
        let n = self.stream_handlers.len();
        let mut i: usize = 0;
        while i < n
            invariant
                n == old(self).stream_handlers@.len(),
                events@.len() == n,
                i <= n,
                self.streamlink_cli == old(self).streamlink_cli,
                self.ripping == old(self).ripping,
                self.stream_handlers@.len() == n,
                forall|k: int|
                    0 <= k < i ==> self.stream_handlers@[k] == (if events@[k] is StillRunning {
                        old(self).stream_handlers@[k]
                    } else {
                        spec_terminate(old(self).stream_handlers@[k]).0
                    }),
                forall|k: int| i <= k < n ==> self.stream_handlers@[k] == old(self).stream_handlers@[k],
                forall|j: int|
                    0 <= j < restarts@.len() ==> restarts@[j] < i && !(events@[
                        restarts@[j] as int
                    ] is StillRunning),
                forall|k: int|
                    0 <= k < i && !(events@[k] is StillRunning) ==> restarts@.contains(k as usize),
                forall|j: int, l: int|
                    0 <= j < l < restarts@.len() ==> restarts@[j] < restarts@[l],
            decreases n - i,
        {
            let event = events[i];
            let h = handler_at(&mut self.stream_handlers, i);
            let restart = h.on_poll(event);
            let ghost prevr = restarts@;
            if restart {
                restarts.push(i);
            }
            proof {
                assert forall|k: int|
                    0 <= k < i + 1 && !(events@[k] is StillRunning) implies restarts@.contains(
                    k as usize,
                ) by {
                    if k < i {
                        assert(prevr.contains(k as usize));
                        let j = choose|j: int| 0 <= j < prevr.len() && prevr[j] == k as usize;
                        assert(restarts@[j] == k as usize);
                    } else {
                        assert(restarts@[prevr.len() as int] == i);
                    }
                }
            }
            i += 1;
        }
        restarts
    }

    /// Terminates every target: every handler gives up its handle, and
    /// the handles of all the processes that were live are returned,
    /// in order, for the caller to kill. Idempotent; the flag is left
    /// as it is.
    pub fn stop(&mut self) -> (kills: Vec<u64>)
        ensures
            final(self).streamlink_cli == old(self).streamlink_cli,
            final(self).ripping == old(self).ripping,
            final(self).stream_handlers@.len() == old(self).stream_handlers@.len(),
            forall|k: int|
                0 <= k < old(self).stream_handlers@.len() ==> final(self).stream_handlers@[k]
                    == spec_terminate(old(self).stream_handlers@[k]).0,
            kills@ == live_handles(old(self).stream_handlers@),
    {
        let mut kills: Vec<u64> = Vec::new();
        let n = self.stream_handlers.len();
        let mut i: usize = 0;
        proof {
            assert(old(self).stream_handlers@.subrange(0, 0) =~= Seq::<StreamHandler>::empty());
        }
        while i < n
            invariant
                n == old(self).stream_handlers@.len(),
                i <= n,
                self.streamlink_cli == old(self).streamlink_cli,
                self.ripping == old(self).ripping,
                self.stream_handlers@.len() == n,
                forall|k: int|
                    0 <= k < i ==> self.stream_handlers@[k] == spec_terminate(
                        old(self).stream_handlers@[k],
                    ).0,
                forall|k: int| i <= k < n ==> self.stream_handlers@[k] == old(self).stream_handlers@[k],
                kills@ == live_handles(old(self).stream_handlers@.subrange(0, i as int)),
            decreases n - i,
        {
            proof {
                assert(old(self).stream_handlers@.subrange(0, i + 1).drop_last() =~= old(self).stream_handlers@.subrange(0, i as int));
                assert(old(self).stream_handlers@.subrange(0, i + 1).last() == old(self).stream_handlers@[i as int]);
            }
            let h = handler_at(&mut self.stream_handlers, i);
            let kill = h.terminate();
            if let Some(handle) = kill {
                kills.push(handle);
            }
            i += 1;
        }
        proof {
            assert(old(self).stream_handlers@.subrange(0, n as int) =~= old(self).stream_handlers@);
        }
        kills
    }
}

} // verus!
