//! The immutable snapshot a finished (or paused) simulation exports.

use vstd::prelude::*;

use crate::config::SimConfig;
use crate::link::{describe_kind, LinkEvent, LinkEventSummary};
use crate::model::SimModel;

verus! {

/// A fresh vector holding the same bytes.
pub fn clone_bytes(v: &Vec<u8>) -> (r: Vec<u8>)
    ensures
        r@ == v@,
{
    vstd::slice::slice_to_vec(v.as_slice())
}

/// A fresh vector holding the same byte lists.
pub fn clone_byte_lists(v: &Vec<Vec<u8>>) -> (r: Vec<Vec<u8>>)
    ensures
        r@.map_values(|d: Vec<u8>| d@) == v@.map_values(|d: Vec<u8>| d@),
{
    let mut r: Vec<Vec<u8>> = Vec::new();
    let mut i: usize = 0;
    while i < v.len()
        invariant
            0 <= i <= v@.len(),
            r@.len() == i,
            forall|j: int| 0 <= j < i ==> (#[trigger] r@[j])@ == v@[j]@,
        decreases v@.len() - i,
    {
        r.push(clone_bytes(&v[i]));
        i = i + 1;
    }
    proof {
        assert(r@.map_values(|d: Vec<u8>| d@) =~= v@.map_values(|d: Vec<u8>| d@));
    }
    r
}

/// A fresh vector holding the same named series.
pub fn clone_metric_series(v: &Vec<(String, Vec<(u64, i64)>)>) -> (r: Vec<
    (String, Vec<(u64, i64)>),
>)
    ensures
        r@.map_values(|m: (String, Vec<(u64, i64)>)| (m.0@, m.1@)) == v@.map_values(
            |m: (String, Vec<(u64, i64)>)| (m.0@, m.1@),
        ),
{
    let mut r: Vec<(String, Vec<(u64, i64)>)> = Vec::new();
    let mut i: usize = 0;
    while i < v.len()
        invariant
            0 <= i <= v@.len(),
            r@.len() == i,
            forall|j: int|
                0 <= j < i ==> (#[trigger] r@[j]).0@ == v@[j].0@ && r@[j].1@ == v@[j].1@,
        decreases v@.len() - i,
    {
        let entry = &v[i];
        let name = entry.0.clone();
        let series = vstd::slice::slice_to_vec(entry.1.as_slice());
        r.push((name, series));
        i = i + 1;
    }
    proof {
        assert(r@.map_values(|m: (String, Vec<(u64, i64)>)| (m.0@, m.1@)) =~= v@.map_values(
            |m: (String, Vec<(u64, i64)>)| (m.0@, m.1@),
        ));
    }
    r
}

/// The mathematical value of a report.
pub ghost struct ReportModel {
    pub config: SimConfig,
    pub duration_ms: u64,
    pub delivered: Seq<Seq<u8>>,
    pub sender_packet_count: u32,
    pub window_samples: Seq<u16>,
    pub metrics: Seq<(Seq<char>, Seq<(u64, i64)>)>,
    pub link_events: Seq<LinkEvent>,
}

/// The report a simulator state exports.
pub open spec fn report_of(s: SimModel) -> ReportModel {
    ReportModel {
        config: s.config,
        duration_ms: s.time,
        delivered: s.delivered,
        sender_packet_count: s.sender_packet_count,
        window_samples: s.window_samples,
        metrics: s.metrics,
        link_events: s.link_events,
    }
}

/// A snapshot of everything a grader or visualizer consumes: the
/// configuration, the elapsed virtual duration, what was delivered, how
/// much the sender transmitted, its window-size samples, every named
/// metric series, and the link-event log.
#[derive(Debug, PartialEq)]
pub struct SimulationReport {
    pub config: SimConfig,
    pub duration_ms: u64,
    pub delivered_data: Vec<Vec<u8>>,
    pub sender_packet_count: u32,
    pub sender_window_sizes: Vec<u16>,
    pub metrics: Vec<(String, Vec<(u64, i64)>)>,
    pub link_events: Vec<LinkEvent>,
}

impl View for SimulationReport {
    type V = ReportModel;

    open spec fn view(&self) -> ReportModel {
        ReportModel {
            config: self.config,
            duration_ms: self.duration_ms,
            delivered: self.delivered_data@.map_values(|d: Vec<u8>| d@),
            sender_packet_count: self.sender_packet_count,
            window_samples: self.sender_window_sizes@,
            metrics: self.metrics@.map_values(|m: (String, Vec<(u64, i64)>)| (m.0@, m.1@)),
            link_events: self.link_events@,
        }
    }
}

impl SimulationReport {
    /// The link-event log rendered for humans, in order.
    pub fn link_event_summaries(&self) -> (r: Vec<LinkEventSummary>)
        ensures
            r@.len() == self@.link_events.len(),
            forall|i: int|
                0 <= i < r@.len() ==> (#[trigger] r@[i]).time == self@.link_events[i].time
                    && r@[i].description@ == describe_kind(self@.link_events[i].kind),
    {
        let mut out: Vec<LinkEventSummary> = Vec::new();
        let mut i: usize = 0;
        while i < self.link_events.len()
            invariant
                0 <= i <= self.link_events@.len(),
                out@.len() == i,
                forall|j: int|
                    0 <= j < i ==> (#[trigger] out@[j]).time == self.link_events@[j].time
                        && out@[j].description@ == describe_kind(self.link_events@[j].kind),
            decreases self.link_events@.len() - i,
        {
            let s = self.link_events[i].summary();
            out.push(s);
            i = i + 1;
        }
        out
    }
}

} // verus!
