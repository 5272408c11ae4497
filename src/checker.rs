//! Classification of probe outcomes and the collection of one tick's batch.
use crate::models::{Reachability, Status};
use vstd::prelude::*;

verus! {

/// What a single HTTP probe of a URL gave.
#[derive(Clone, Copy, Debug, PartialEq, Eq, Structural)]
pub enum ProbeOutcome {
    /// A response arrived with this status code.
    Response(u16),
    /// No response: the name did not resolve, the connection failed or
    /// timed out.
    TransportFailure,
}

/// Status codes from 200 up to, not including, 400 mean that the URL is up.
pub open spec fn is_online_code(code: u16) -> bool {
    200 <= code < 400
}

/// The record that a probe of `url` with `outcome`, finished at `time`,
/// yields.
pub open spec fn status_of(url: String, outcome: ProbeOutcome, time: u64) -> Status {
    match outcome {
        ProbeOutcome::Response(code) => Status {
            url,
            status: if is_online_code(code) {
                Reachability::Online
            } else {
                Reachability::Offline
            },
            http_status_code: code,
            last_ping_time: time,
        },
        ProbeOutcome::TransportFailure => Status {
            url,
            status: Reachability::Offline,
            http_status_code: 0,
            last_ping_time: time,
        },
    }
}

/// The batch that probing `urls` in order gives, where the probe of
/// `urls[i]` had `outcomes[i]` and finished at `times[i]`.
pub open spec fn batch_of(urls: Seq<String>, outcomes: Seq<ProbeOutcome>, times: Seq<u64>) -> Seq<
    Status,
>
    decreases outcomes.len(),
{
    if outcomes.len() == 0 {
        Seq::empty()
    } else {
        let k = outcomes.len() - 1;
        batch_of(urls, outcomes.drop_last(), times.drop_last()).push(
            status_of(urls[k], outcomes[k], times[k]),
        )
    }
}

/// Classifies a received HTTP status code.
pub fn determine_status(status_code: u16) -> (r: Reachability)
    ensures
        r == (if is_online_code(status_code) {
            Reachability::Online
        } else {
            Reachability::Offline
        }),
{
    if 200 <= status_code && status_code < 400 {
        Reachability::Online
    } else {
        Reachability::Offline
    }
}

/// The record of one probe: a response keeps its code and is classified by
/// it; a transport failure is recorded as offline with code 0.
pub fn check_result(url: String, outcome: ProbeOutcome, last_ping_time: u64) -> (r: Status)
    ensures
        r == status_of(url, outcome, last_ping_time),
{
    match outcome {
        ProbeOutcome::Response(code) => Status {
            url,
            status: determine_status(code),
            http_status_code: code,
            last_ping_time,
        },
        ProbeOutcome::TransportFailure => Status {
            url,
            status: Reachability::Offline,
            http_status_code: 0,
            last_ping_time,
        },
    }
}

/// The state of one tick: the URLs to probe, in order, and the records of
/// those probed so far.
pub struct TickRun {
    urls: Vec<String>,
    batch: Vec<Status>,
    outcomes: Ghost<Seq<ProbeOutcome>>,
    times: Ghost<Seq<u64>>,
}

/// What a tick holds, as mathematical values.
pub ghost struct TickView {
    pub urls: Seq<String>,
    pub outcomes: Seq<ProbeOutcome>,
    pub times: Seq<u64>,
    pub batch: Seq<Status>,
}

impl View for TickRun {
    type V = TickView;

    closed spec fn view(&self) -> TickView {
        TickView {
            urls: self.urls@,
            outcomes: self.outcomes@,
            times: self.times@,
            batch: self.batch@,
        }
    }
}

impl TickRun {
    /// The records so far are exactly those of the probes made so far, one
    /// per URL in order.
    pub open spec fn wf(&self) -> bool {
        &&& self@.outcomes.len() == self@.times.len()
        &&& self@.outcomes.len() <= self@.urls.len()
        &&& self@.batch == batch_of(self@.urls, self@.outcomes, self@.times)
    }

    pub open spec fn done_spec(&self) -> bool {
        self@.outcomes.len() == self@.urls.len()
    }

    /// A tick over `urls` with nothing probed yet.
    pub fn new(urls: Vec<String>) -> (r: TickRun)
        ensures
            r.wf(),
            r@.urls == urls@,
            r@.outcomes.len() == 0,
            r@.batch.len() == 0,
    {
        TickRun { urls, batch: Vec::new(), outcomes: Ghost(Seq::empty()), times: Ghost(Seq::empty()) }
    }

    /// Whether every URL has been probed.
    pub fn is_done(&self) -> (r: bool)
        requires
            self.wf(),
        ensures
            r == self.done_spec(),
    {
        proof {
            lemma_batch_of_pointwise(self@.urls, self@.outcomes, self@.times);
        }
        self.batch.len() == self.urls.len()
    }

    /// The URL to probe next.
    pub fn current_url(&self) -> (r: &String)
        requires
            self.wf(),
            !self.done_spec(),
        ensures
            *r == self@.urls[self@.outcomes.len() as int],
    {
        proof {
            lemma_batch_of_pointwise(self@.urls, self@.outcomes, self@.times);
        }
        &self.urls[self.batch.len()]
    }

    /// Records the outcome of probing the current URL, finished at
    /// `last_ping_time`, and moves on to the next URL.
    pub fn record(&mut self, outcome: ProbeOutcome, last_ping_time: u64)
        requires
            old(self).wf(),
            !old(self).done_spec(),
        ensures
            final(self).wf(),
            final(self)@.urls == old(self)@.urls,
            final(self)@.outcomes == old(self)@.outcomes.push(outcome),
            final(self)@.times == old(self)@.times.push(last_ping_time),
            final(self)@.batch == old(self)@.batch.push(
                status_of(old(self)@.urls[old(self)@.outcomes.len() as int], outcome, last_ping_time),
            ),
    {
        proof {
            lemma_batch_of_pointwise(self@.urls, self@.outcomes, self@.times);
        }
        let k = self.batch.len();
        let url = self.urls[k].clone();
        let result = check_result(url, outcome, last_ping_time);
        self.batch.push(result);
        self.outcomes = Ghost(self.outcomes@.push(outcome));
        self.times = Ghost(self.times@.push(last_ping_time));
        proof {
            let o = self.outcomes@;
            let t = self.times@;
            assert(o.drop_last() =~= old(self)@.outcomes);
            assert(t.drop_last() =~= old(self)@.times);
        }
    }

    /// The finished batch: one record per URL, in the order of the URLs.
    pub fn into_batch(self) -> (r: Vec<Status>)
        requires
            self.wf(),
        ensures
            r@ == self@.batch,
    {
        self.batch
    }
}

/// One failed probe does not keep the others from being recorded: after a
/// tick over `urls`, the batch holds exactly one record per URL, in order,
/// and the record of each URL depends on its own probe alone. A transport
/// failure is recorded as offline with code 0.
pub proof fn lemma_each_url_recorded(
    urls: Seq<String>,
    outcomes: Seq<ProbeOutcome>,
    times: Seq<u64>,
)
    requires
        outcomes.len() == urls.len(),
        times.len() == urls.len(),
    ensures
        batch_of(urls, outcomes, times).len() == urls.len(),
        forall|i: int|
            0 <= i < urls.len() ==> #[trigger] batch_of(urls, outcomes, times)[i] == status_of(
                urls[i],
                outcomes[i],
                times[i],
            ),
        forall|i: int|
            0 <= i < urls.len() && outcomes[i] is TransportFailure ==> {
                &&& (#[trigger] batch_of(urls, outcomes, times)[i]).url == urls[i]
                &&& batch_of(urls, outcomes, times)[i].status == Reachability::Offline
                &&& batch_of(urls, outcomes, times)[i].http_status_code == 0
            },
{
    lemma_batch_of_pointwise(urls, outcomes, times);
}

proof fn lemma_batch_of_pointwise(urls: Seq<String>, outcomes: Seq<ProbeOutcome>, times: Seq<u64>)
    requires
        outcomes.len() <= urls.len(),
        times.len() == outcomes.len(),
    ensures
        batch_of(urls, outcomes, times).len() == outcomes.len(),
        forall|i: int|
            0 <= i < outcomes.len() ==> #[trigger] batch_of(urls, outcomes, times)[i] == status_of(
                urls[i],
                outcomes[i],
                times[i],
            ),
    decreases outcomes.len(),
{
    if outcomes.len() > 0 {
        lemma_batch_of_pointwise(urls, outcomes.drop_last(), times.drop_last());
    }
}

} // verus!
