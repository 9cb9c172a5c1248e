//! The declarative vocabulary of grading scenarios: configuration
//! overrides, pre-scheduled actions, and assertions over a finished
//! simulation's report. Parsing scenario files is a caller's concern;
//! the semantics of each action and assertion is fixed here.

use vstd::prelude::*;

use vstd::utf8::encode_utf8;

use crate::config::SimConfig;
use crate::trace::SimulationReport;

verus! {

/// A scenario: a named description, configuration tweaks, the actions to
/// pre-load, and the assertions to evaluate over the final report.
pub struct TestScenario {
    pub name: String,
    pub description: String,
    pub config: SimConfigOverride,
    pub actions: Vec<TestAction>,
    pub assertions: Vec<TestAssertion>,
}

/// Optional overrides applied on top of a base configuration.
#[derive(Clone, Copy, Debug, PartialEq, Eq, Structural)]
pub struct SimConfigOverride {
    pub loss_ppm: Option<u32>,
    pub corrupt_ppm: Option<u32>,
    pub min_latency: Option<u64>,
    pub max_latency: Option<u64>,
    pub seed: Option<u64>,
}

impl SimConfigOverride {
    /// The configuration after this override.
    pub open spec fn spec_apply(self, config: SimConfig) -> SimConfig {
        SimConfig {
            loss_ppm: if self.loss_ppm is Some {
                self.loss_ppm->0
            } else {
                config.loss_ppm
            },
            corrupt_ppm: if self.corrupt_ppm is Some {
                self.corrupt_ppm->0
            } else {
                config.corrupt_ppm
            },
            min_latency: if self.min_latency is Some {
                self.min_latency->0
            } else {
                config.min_latency
            },
            max_latency: if self.max_latency is Some {
                self.max_latency->0
            } else {
                config.max_latency
            },
            seed: if self.seed is Some {
                self.seed->0
            } else {
                config.seed
            },
        }
    }

    /// Overwrite each field for which this override carries a value.
    pub fn apply_to(&self, config: &mut SimConfig)
        ensures
            *final(config) == self.spec_apply(*old(config)),
    {
        if let Some(v) = self.loss_ppm {
            config.loss_ppm = v;
        }
        if let Some(v) = self.corrupt_ppm {
            config.corrupt_ppm = v;
        }
        if let Some(v) = self.min_latency {
            config.min_latency = v;
        }
        if let Some(v) = self.max_latency {
            config.max_latency = v;
        }
        if let Some(v) = self.seed {
            config.seed = v;
        }
    }
}

impl TestScenario {
    /// The configuration this scenario runs under: its overrides applied
    /// to a base configuration.
    pub fn resolved_config(&self, base: SimConfig) -> (c: SimConfig)
        ensures
            c == self.config.spec_apply(base),
    {
        let mut c = base;
        self.config.apply_to(&mut c);
        c
    }
}

/// One pre-loaded scenario action.
#[derive(Debug)]
pub enum TestAction {
    /// The application hands `data` to the sender at virtual time `time`.
    AppSend { time: u64, data: String },
    /// Deterministically drop the next sender packet with this seq.
    DropNextFromSenderSeq { seq: u32 },
    /// Deterministically drop the next receiver ACK with this ack.
    DropNextFromReceiverAck { ack: u32 },
}

/// One assertion over a finished simulation's report.
#[derive(Debug)]
pub enum TestAssertion {
    /// `data` (as bytes) was delivered to the application layer.
    DataDelivered { data: String },
    /// The sender's packet count lies within `[min, max]`.
    SenderPacketCount { min: u32, max: Option<u32> },
    /// The largest reported window size lies within `[min, max]`.
    SenderWindowMax { min: u16, max: Option<u16> },
    /// The window climbed to at least `from_at_least` and later fell to
    /// at most `to_at_most`.
    SenderWindowDrop { from_at_least: u16, to_at_most: u16 },
    /// The simulation finished within `ms` virtual milliseconds.
    MaxDuration { ms: u64 },
}

/// The largest of the first `n` samples, 0 when there are none.
pub open spec fn window_max(ws: Seq<u16>, n: int) -> u16
    decreases n,
{
    if n <= 0 {
        0
    } else if ws[n - 1] > window_max(ws, n - 1) {
        ws[n - 1]
    } else {
        window_max(ws, n - 1)
    }
}

/// Scanning from position `i`: does the sample sequence first reach
/// `from` (unless `seen_high` already) and strictly later fall to `to`?
pub open spec fn window_drop_from(ws: Seq<u16>, from: u16, to: u16, i: int, seen_high: bool) -> bool
    decreases ws.len() - i,
{
    if i < 0 || i >= ws.len() {
        false
    } else if !seen_high && ws[i] >= from {
        window_drop_from(ws, from, to, i + 1, true)
    } else if seen_high && ws[i] <= to {
        true
    } else {
        window_drop_from(ws, from, to, i + 1, seen_high)
    }
}

/// Bytes equality between a vector and a slice.
fn bytes_match(v: &Vec<u8>, s: &[u8]) -> (r: bool)
    ensures
        r == (v@ == s@),
{
    if v.len() != s.len() {
        return false;
    }
    let mut i: usize = 0;
    while i < v.len()
        invariant
            v@.len() == s@.len(),
            0 <= i <= v@.len(),
            forall|j: int| 0 <= j < i ==> v@[j] == s@[j],
        decreases v@.len() - i,
    {
        if v[i] != s[i] {
            return false;
        }
        i = i + 1;
    }
    proof {
        assert(v@ =~= s@);
    }
    true
}

impl TestAssertion {
    /// Whether the report satisfies this assertion.
    pub open spec fn spec_holds(self, r: crate::trace::ReportModel) -> bool {
        match self {
            TestAssertion::DataDelivered { data } => exists|i: int|
                0 <= i < r.delivered.len() && r.delivered[i] == encode_utf8(data@),
            TestAssertion::SenderPacketCount { min, max } => r.sender_packet_count >= min && (
            max is Some ==> r.sender_packet_count <= max->0),
            TestAssertion::SenderWindowMax { min, max } => {
                let m = window_max(r.window_samples, r.window_samples.len() as int);
                m >= min && (max is Some ==> m <= max->0)
            },
            TestAssertion::SenderWindowDrop { from_at_least, to_at_most } => window_drop_from(
                r.window_samples,
                from_at_least,
                to_at_most,
                0,
                false,
            ),
            TestAssertion::MaxDuration { ms } => r.duration_ms <= ms,
        }
    }

    /// Evaluate this assertion against a report.
    pub fn check(&self, report: &SimulationReport) -> (r: bool)
        ensures
            r == self.spec_holds(report@),
    {
        match self {
            TestAssertion::DataDelivered { data } => {
                let needle: &[u8] = data.as_str().as_bytes();
                let mut i: usize = 0;
                let n = report.delivered_data.len();
                while i < n
                    invariant
                        n == report@.delivered.len(),
                        self is DataDelivered,
                        self->data == *data,
                        needle@ == encode_utf8(data@),
                        0 <= i <= n,
                        forall|j: int| 0 <= j < i ==> (#[trigger] report@.delivered[j]) != needle@,
                    decreases n - i,
                {
                    if bytes_match(&report.delivered_data[i], needle) {
                        proof {
                            assert(report@.delivered[i as int] == encode_utf8(data@));
                        }
                        return true;
                    }
                    i = i + 1;
                }
                false
            },
            TestAssertion::SenderPacketCount { min, max } => {
                if report.sender_packet_count < *min {
                    return false;
                }
                match max {
                    Some(m) => report.sender_packet_count <= *m,
                    None => true,
                }
            },
            TestAssertion::SenderWindowMax { min, max } => {
                let mut m: u16 = 0;
                let mut i: usize = 0;
                let n = report.sender_window_sizes.len();
                while i < n
                    invariant
                        n == report@.window_samples.len(),
                        0 <= i <= n,
                        m == window_max(report@.window_samples, i as int),
                    decreases n - i,
                {
                    if report.sender_window_sizes[i] > m {
                        m = report.sender_window_sizes[i];
                    }
                    i = i + 1;
                }
                if m < *min {
                    return false;
                }
                match max {
                    Some(mx) => m <= *mx,
                    None => true,
                }
            },
            TestAssertion::SenderWindowDrop { from_at_least, to_at_most } => {
                let mut seen_high = false;
                let mut i: usize = 0;
                let n = report.sender_window_sizes.len();
                while i < n
                    invariant
                        n == report@.window_samples.len(),
                        0 <= i <= n,
                        self is SenderWindowDrop,
                        from_at_least == self->from_at_least,
                        to_at_most == self->to_at_most,
                        self.spec_holds(report@) == window_drop_from(
                            report@.window_samples,
                            *from_at_least,
                            *to_at_most,
                            i as int,
                            seen_high,
                        ),
                    decreases n - i,
                {
                    let w = report.sender_window_sizes[i];
                    if !seen_high && w >= *from_at_least {
                        seen_high = true;
                    } else if seen_high && w <= *to_at_most {
                        return true;
                    }
                    i = i + 1;
                }
                false
            },
            TestAssertion::MaxDuration { ms } => report.duration_ms <= *ms,
        }
    }
}

/// The first assertion the report violates, if any: grading stops at the
/// first failure, and a `None` means every assertion holds.
pub fn first_failed_assertion(assertions: &Vec<TestAssertion>, report: &SimulationReport) -> (r:
    Option<usize>)
    ensures
        match r {
            Some(i) => {
                &&& 0 <= i < assertions@.len()
                &&& !assertions@[i as int].spec_holds(report@)
                &&& forall|j: int| 0 <= j < i ==> (#[trigger] assertions@[j]).spec_holds(report@)
            },
            None => forall|j: int|
                0 <= j < assertions@.len() ==> (#[trigger] assertions@[j]).spec_holds(report@),
        },
{
    let mut i: usize = 0;
    while i < assertions.len()
        invariant
            0 <= i <= assertions@.len(),
            forall|j: int| 0 <= j < i ==> (#[trigger] assertions@[j]).spec_holds(report@),
        decreases assertions@.len() - i,
    {
        if !assertions[i].check(report) {
            return Some(i);
        }
        i = i + 1;
    }
    None
}

} // verus!
