use vstd::prelude::*;
use crate::replay::injector::InjectionStrategy;

verus! {

/// Settings from which a pool of output ports is opened.
#[derive(Debug, Clone)]
pub struct BusPortPoolBuilder {
    port_ids: Vec<u8>,
    strategy: Option<InjectionStrategy>,
    dry_run: bool,
    sink_file: Option<String>,
}

/// How one port of a pool is opened.
#[derive(Debug, Clone, PartialEq, Eq)]
pub enum PortOpening {
    /// Append to the sink file itself (the pool has a single port).
    Sink { id: u8, path: String },
    /// Append to a file named after the sink file with `_p<id>` added to its
    /// stem (the pool has several ports).
    SinkPerPort { id: u8, base: String },
    /// Append to a scratch file of the port in the temporary directory.
    DryRun { id: u8 },
    /// Open the port's device.
    Hardware { id: u8 },
}

/// The opening of port `id` of a pool of `n` ports, given the sink file and
/// the dry-run setting: a sink file decides first, then a dry run.
pub open spec fn opening_for(id: u8, n: nat, sink: Option<String>, dry_run: bool) -> PortOpening {
    match sink {
        Some(path) => if n == 1 {
            PortOpening::Sink { id, path }
        } else {
            PortOpening::SinkPerPort { id, base: path }
        },
        None => if dry_run {
            PortOpening::DryRun { id }
        } else {
            PortOpening::Hardware { id }
        },
    }
}

/// The openings agree, sink paths compared by their text.
pub open spec fn same_opening(a: PortOpening, b: PortOpening) -> bool {
    match (a, b) {
        (PortOpening::Sink { id: i, path: p }, PortOpening::Sink { id: j, path: q }) => i == j && p@
            == q@,
        (PortOpening::SinkPerPort { id: i, base: p }, PortOpening::SinkPerPort { id: j, base: q }) => i
            == j && p@ == q@,
        _ => a == b,
    }
}

impl Default for BusPortPoolBuilder {
    fn default() -> (b: Self)
        ensures
            b.ports_spec() == Seq::<u8>::empty(),
            b.strategy_spec() is None,
            !b.dry_run_spec(),
            b.sink_spec() is None,
    {
        BusPortPoolBuilder { port_ids: Vec::new(), strategy: None, dry_run: false, sink_file: None }
    }
}

impl BusPortPoolBuilder {
    pub closed spec fn ports_spec(&self) -> Seq<u8> {
        self.port_ids@
    }

    pub closed spec fn strategy_spec(&self) -> Option<InjectionStrategy> {
        self.strategy
    }

    pub closed spec fn dry_run_spec(&self) -> bool {
        self.dry_run
    }

    pub closed spec fn sink_spec(&self) -> Option<String> {
        self.sink_file
    }

    pub fn ports(self, ids: Vec<u8>) -> (b: Self)
        ensures
            b.ports_spec() == ids@,
            b.strategy_spec() == self.strategy_spec(),
            b.dry_run_spec() == self.dry_run_spec(),
            b.sink_spec() == self.sink_spec(),
    {
        BusPortPoolBuilder { port_ids: ids, ..self }
    }

    pub fn strategy(self, s: InjectionStrategy) -> (b: Self)
        ensures
            b.ports_spec() == self.ports_spec(),
            b.strategy_spec() == Some(s),
            b.dry_run_spec() == self.dry_run_spec(),
            b.sink_spec() == self.sink_spec(),
    {
        BusPortPoolBuilder { strategy: Some(s), ..self }
    }

    pub fn dry_run(self, d: bool) -> (b: Self)
        ensures
            b.ports_spec() == self.ports_spec(),
            b.strategy_spec() == self.strategy_spec(),
            b.dry_run_spec() == d,
            b.sink_spec() == self.sink_spec(),
    {
        BusPortPoolBuilder { dry_run: d, ..self }
    }

    pub fn sink_file(self, p: Option<String>) -> (b: Self)
        ensures
            b.ports_spec() == self.ports_spec(),
            b.strategy_spec() == self.strategy_spec(),
            b.dry_run_spec() == self.dry_run_spec(),
            b.sink_spec() == p,
    {
        BusPortPoolBuilder { sink_file: p, ..self }
    }

    /// How each port of the pool is to be opened, in the order of its ids.
    pub fn port_plan(&self) -> (plan: Vec<PortOpening>)
        ensures
            plan@.len() == self.ports_spec().len(),
            forall|i: int|
                0 <= i < plan@.len() ==> same_opening(
                    #[trigger] plan@[i],
                    opening_for(
                        self.ports_spec()[i],
                        self.ports_spec().len(),
                        self.sink_spec(),
                        self.dry_run_spec(),
                    ),
                ),
    {
        let n = self.port_ids.len();
        let mut plan: Vec<PortOpening> = Vec::with_capacity(n);
        let mut i: usize = 0;
        while i < n
            invariant
                n == self.port_ids@.len(),
                i <= n,
                plan@.len() == i,
                forall|j: int|
                    0 <= j < i ==> same_opening(
                        #[trigger] plan@[j],
                        opening_for(self.port_ids@[j], n as nat, self.sink_file, self.dry_run),
                    ),
            decreases n - i,
        {
            let id = self.port_ids[i];
            let opening = match &self.sink_file {
                Some(path) => if n == 1 {
                    PortOpening::Sink { id, path: path.clone() }
                } else {
                    PortOpening::SinkPerPort { id, base: path.clone() }
                },
                None => if self.dry_run {
                    PortOpening::DryRun { id }
                } else {
                    PortOpening::Hardware { id }
                },
            };
            plan.push(opening);
            i = i + 1;
        }
        plan
    }
}

// ---------------------------------------------------------------------------
// Replay accounting
// ---------------------------------------------------------------------------

/// Running totals of a replay: words and bytes injected, injections slower
/// than the allowed jitter, and the sum and peak of injection latencies.
#[derive(Debug, Clone, Copy, PartialEq, Eq, Structural)]
pub struct ReplayTally {
    pub total_words: u64,
    pub total_bytes_injected: u64,
    pub timing_errors: u64,
    pub latency_sum_us: u128,
    pub peak_latency_us: u64,
}

impl ReplayTally {
    pub fn new() -> (t: Self)
        ensures
            t == (ReplayTally {
                total_words: 0,
                total_bytes_injected: 0,
                timing_errors: 0,
                latency_sum_us: 0,
                peak_latency_us: 0,
            }),
    {
        ReplayTally {
            total_words: 0,
            total_bytes_injected: 0,
            timing_errors: 0,
            latency_sum_us: 0,
            peak_latency_us: 0,
        }
    }

    /// Accounts for one injection that took `latency_us`: the latency is
    /// summed and may raise the peak; more than `max_jitter_us` is a timing
    /// error; an injection that went out adds a word of four bytes. Every
    /// count stops at its type's largest value.
    pub fn record(&mut self, latency_us: u64, max_jitter_us: u64, injected: bool)
        ensures
            final(self).latency_sum_us == old(self).latency_sum_us.saturating_add(latency_us as u128),
            final(self).peak_latency_us == (if latency_us > old(self).peak_latency_us {
                latency_us
            } else {
                old(self).peak_latency_us
            }),
            final(self).timing_errors == (if latency_us > max_jitter_us {
                old(self).timing_errors.saturating_add(1)
            } else {
                old(self).timing_errors
            }),
            final(self).total_words == (if injected {
                old(self).total_words.saturating_add(1)
            } else {
                old(self).total_words
            }),
            final(self).total_bytes_injected == (if injected {
                old(self).total_bytes_injected.saturating_add(4)
            } else {
                old(self).total_bytes_injected
            }),
    {
        self.latency_sum_us = self.latency_sum_us.saturating_add(latency_us as u128);
        if latency_us > self.peak_latency_us {
            self.peak_latency_us = latency_us;
        }
        if latency_us > max_jitter_us {
            self.timing_errors = self.timing_errors.saturating_add(1);
        }
        if injected {
            self.total_words = self.total_words.saturating_add(1);
            self.total_bytes_injected = self.total_bytes_injected.saturating_add(4);
        }
    }
}

} // verus!
