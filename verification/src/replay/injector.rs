use vstd::prelude::*;
use std::sync::Arc;
use std::sync::atomic::{AtomicBool, Ordering};
use byteorder::{ByteOrder, LittleEndian};
use crate::protocol::word::le_value;
use crate::text::{decimal_digits, push_decimal};
use vstd::string::StringExecFns;

verus! {

/// How words are spread over the output ports.
#[derive(Debug, Clone, Copy, PartialEq, Eq, Structural)]
pub enum InjectionStrategy {
    RoundRobin,
    HashByLabel,
    FixedPort(u8),
    AllPortsBroadcast,
}

impl Default for InjectionStrategy {
    fn default() -> (s: Self)
        ensures
            s == InjectionStrategy::RoundRobin,
    {
        InjectionStrategy::RoundRobin
    }
}

/// Where a port's words go.
#[derive(Debug, Clone, Copy, PartialEq, Eq, Structural)]
pub enum PortBackend {
    DevCharDevice,
    SysfsUio,
    RawMemoryMap,
    UserSpaceTun,
    FileSink,
    Simulated,
}

impl PortBackend {
    /// The backend is bus hardware rather than a file or a simulation.
    pub fn is_real_hardware(self) -> (b: bool)
        ensures
            b == (self is DevCharDevice || self is SysfsUio || self is RawMemoryMap),
    {
        match self {
            PortBackend::DevCharDevice | PortBackend::SysfsUio | PortBackend::RawMemoryMap => true,
            _ => false,
        }
    }

    /// Words written to this backend are prefixed with their send time.
    pub open spec fn is_stamping(self) -> bool {
        self is FileSink || self is Simulated
    }

    /// Words written to this backend are prefixed with their send time.
    pub fn stamps_words(self) -> (b: bool)
        ensures
            b == self.is_stamping(),
    {
        match self {
            PortBackend::FileSink | PortBackend::Simulated => true,
            _ => false,
        }
    }
}

/// `byteorder::LittleEndian::write_u32` into a four-byte buffer: the bytes
/// of `value`, least significant first.
#[verifier::external_body]
fn write_u32_le(value: u32) -> (b: [u8; 4])
    ensures
        le_value(b@) == value,
{
    let mut buf = [0u8; 4];
    LittleEndian::write_u32(&mut buf, value);
    buf
}

/// The sixteen bytes of `v`, least significant first.
pub open spec fn u128_le_bytes(v: u128) -> Seq<u8> {
    Seq::new(16, |i: int| ((v as int / pow256(i)) % 256) as u8)
}

/// `256^i`
pub open spec fn pow256(i: int) -> int
    decreases i,
{
    if i <= 0 {
        1
    } else {
        256 * pow256(i - 1)
    }
}

/// The bytes written to a port for one word: the word's four bytes, least
/// significant first; for a backend that stamps its words, preceded by the
/// send time in microseconds as sixteen little-endian bytes.
pub open spec fn word_frame(raw: u32, sent_micros: u128, stamped: bool, word: Seq<u8>) -> bool {
    &&& le_value(word.subrange(word.len() - 4, word.len() as int)) == raw
    &&& stamped ==> word.len() == 20 && word.subrange(0, 16) == u128_le_bytes(sent_micros)
    &&& !stamped ==> word.len() == 4
}

/// Builds the bytes written to a port of `backend` for the word `raw` sent
/// at `sent_micros`.
pub fn frame_word(backend: PortBackend, raw: u32, sent_micros: u128) -> (frame: Vec<u8>)
    ensures
        word_frame(raw, sent_micros, backend.is_stamping(), frame@),
{
    let buf = write_u32_le(raw);
    let mut frame: Vec<u8> = Vec::with_capacity(20);
    if backend.stamps_words() {
        let mut v = sent_micros;
        let mut i: usize = 0;
        while i < 16
            invariant
                i <= 16,
                frame@.len() == i,
                v as int == sent_micros as int / pow256(i as int),
                forall|j: int| 0 <= j < i ==> frame@[j] == u128_le_bytes(sent_micros)[j],
            decreases 16 - i,
        {
            proof {
                assert(pow256(i + 1) == 256 * pow256(i as int));
                lemma_pow256_positive(i as int);
                vstd::arithmetic::div_mod::lemma_div_denominator(
                    sent_micros as int,
                    pow256(i as int),
                    256,
                );
            }
            frame.push((v % 256) as u8);
            v = v / 256;
            i = i + 1;
        }
        assert(frame@ =~= u128_le_bytes(sent_micros));
    }
    let ghost before = frame@;
    frame.push(buf[0]);
    frame.push(buf[1]);
    frame.push(buf[2]);
    frame.push(buf[3]);
    assert(frame@.subrange(frame@.len() - 4, frame@.len() as int) =~= buf@);
    assert(frame@.subrange(0, before.len() as int) =~= before);
    frame
}

proof fn lemma_pow256_positive(i: int)
    ensures
        pow256(i) > 0,
    decreases i,
{
    if i > 0 {
        lemma_pow256_positive(i - 1);
    }
}

/// What to do with the next word to inject.
#[derive(Debug, Clone, Copy, PartialEq, Eq, Structural)]
pub enum InjectStep {
    /// A stop was requested: the word is dropped and nothing is written.
    Stopped,
    /// No port was given for it: the injection fails.
    NoPort,
    /// Write these raw bits to the port.
    Write(u32),
}

/// The step for the word `raw`: stopped before anything else, then refused
/// without a port, else written.
pub fn injection_step(stopped: bool, port_available: bool, raw: u32) -> (s: InjectStep)
    ensures
        stopped ==> s == InjectStep::Stopped,
        !stopped && !port_available ==> s == InjectStep::NoPort,
        !stopped && port_available ==> s == InjectStep::Write(raw),
{
    if stopped {
        InjectStep::Stopped
    } else if !port_available {
        InjectStep::NoPort
    } else {
        InjectStep::Write(raw)
    }
}

/// `n + 1`, wrapping to 0 after the largest `u64`.
pub open spec fn wrapping_inc(n: u64) -> u64 {
    if n < u64::MAX {
        (n + 1) as u64
    } else {
        0
    }
}

/// The counts (words written, failed writes) after writes whose outcomes
/// are `oks`, in order, starting from `start`: each success or failure adds
/// one to its count, wrapping to 0 after the largest `u64`.
pub open spec fn counts_after(start: (u64, u64), oks: Seq<bool>) -> (u64, u64)
    decreases oks.len(),
{
    if oks.len() == 0 {
        start
    } else {
        let c = counts_after(start, oks.drop_last());
        if oks.last() {
            (wrapping_inc(c.0), c.1)
        } else {
            (c.0, wrapping_inc(c.1))
        }
    }
}

/// How many of `oks` are successes.
pub open spec fn successes(oks: Seq<bool>) -> nat
    decreases oks.len(),
{
    if oks.len() == 0 {
        0
    } else {
        successes(oks.drop_last()) + (if oks.last() {
            1nat
        } else {
            0
        })
    }
}

/// Over a whole run of writes, an injector that starts from no counts (as
/// `new` makes it) ends with the number of successful writes and the number
/// of failed writes, each modulo 2^64 as the counters wrap.
pub proof fn law_counts_over_run(oks: Seq<bool>)
    ensures
        counts_after((0, 0), oks) == ((successes(oks) % 0x1_0000_0000_0000_0000) as u64, ((oks.len()
            - successes(oks)) % 0x1_0000_0000_0000_0000) as u64),
    decreases oks.len(),
{
    if oks.len() > 0 {
        let rest = oks.drop_last();
        law_counts_over_run(rest);
        lemma_successes_bounded(rest);
        let m: int = 0x1_0000_0000_0000_0000;
        let a = successes(rest) as int;
        let b = (rest.len() - successes(rest)) as int;
        assert(0 <= a && 0 <= b);
        assert(((a % m + 1) == m ==> (a + 1) % m == 0) && ((a % m + 1) < m ==> (a + 1) % m == a % m
            + 1)) by (nonlinear_arith)
            requires
                0 <= a,
                m > 0,
        ;
        assert(((b % m + 1) == m ==> (b + 1) % m == 0) && ((b % m + 1) < m ==> (b + 1) % m == b % m
            + 1)) by (nonlinear_arith)
            requires
                0 <= b,
                m > 0,
        ;
    }
}

/// A run of writes split in two counts as the second part started from
/// the counts the first part left.
pub proof fn law_counts_compose(start: (u64, u64), first: Seq<bool>, second: Seq<bool>)
    ensures
        counts_after(counts_after(start, first), second) == counts_after(start, first + second),
    decreases second.len(),
{
    if second.len() > 0 {
        law_counts_compose(start, first, second.drop_last());
        assert((first + second).drop_last() =~= first + second.drop_last());
    } else {
        assert(first + second =~= first);
    }
}

/// `after` counts as `before` did, plus one write with outcome `ok`: what
/// `record_write(ok)` does to the counts.
pub open spec fn write_recorded(before: BusInjector, after: BusInjector, ok: bool) -> bool {
    (after.injected(), after.errors()) == counts_after((before.injected(), before.errors()), seq![ok])
}

/// Over a run of writes recorded one by one from a fresh injector (as
/// `new` makes it), where `states[i + 1]` is `states[i]` after
/// `record_write(oks[i])`, the final counts are the number of successful
/// and of failed writes, each modulo 2^64.
pub proof fn law_record_write_run(states: Seq<BusInjector>, oks: Seq<bool>)
    requires
        states.len() == oks.len() + 1,
        states[0].injected() == 0,
        states[0].errors() == 0,
        forall|i: int| 0 <= i < oks.len() ==> write_recorded(states[i], states[i + 1], #[trigger] oks[i]),
    ensures
        (states.last().injected(), states.last().errors()) == ((successes(oks)
            % 0x1_0000_0000_0000_0000) as u64, ((oks.len() - successes(oks))
            % 0x1_0000_0000_0000_0000) as u64),
{
    assert forall|j: int| 0 <= j <= oks.len() implies (#[trigger] states[j].injected(),
        states[j].errors()) == counts_after((0, 0), oks.take(j)) by {
        lemma_run_prefix(states, oks, j);
    }
    assert(oks.take(oks.len() as int) =~= oks);
    assert(states.last() == states[oks.len() as int]);
    law_counts_over_run(oks);
}

proof fn lemma_run_prefix(states: Seq<BusInjector>, oks: Seq<bool>, j: int)
    requires
        states.len() == oks.len() + 1,
        states[0].injected() == 0,
        states[0].errors() == 0,
        forall|i: int| 0 <= i < oks.len() ==> write_recorded(states[i], states[i + 1], #[trigger] oks[i]),
        0 <= j <= oks.len(),
    ensures
        (states[j].injected(), states[j].errors()) == counts_after((0, 0), oks.take(j)),
    decreases j,
{
    if j == 0 {
        assert(oks.take(0) =~= Seq::<bool>::empty());
    } else {
        lemma_run_prefix(states, oks, j - 1);
        assert(write_recorded(states[j - 1], states[j], oks[j - 1]));
        law_counts_compose((0, 0), oks.take(j - 1), seq![oks[j - 1]]);
        assert(oks.take(j - 1) + seq![oks[j - 1]] =~= oks.take(j));
    }
}

proof fn lemma_successes_bounded(oks: Seq<bool>)
    ensures
        successes(oks) <= oks.len(),
    decreases oks.len(),
{
    if oks.len() > 0 {
        lemma_successes_bounded(oks.drop_last());
    }
}

/// Counts the words written to the bus and the writes that failed, and
/// watches a stop flag shared with whoever may stop the run.
pub struct BusInjector {
    strategy: InjectionStrategy,
    stop_flag: Arc<AtomicBool>,
    total_injected: u64,
    total_errors: u64,
}

impl BusInjector {
    pub closed spec fn strategy_spec(&self) -> InjectionStrategy {
        self.strategy
    }

    /// Words written so far.
    pub closed spec fn injected(&self) -> u64 {
        self.total_injected
    }

    /// Failed writes so far.
    pub closed spec fn errors(&self) -> u64 {
        self.total_errors
    }

    pub fn new(strategy: InjectionStrategy, stop_flag: Arc<AtomicBool>) -> (b: Self)
        ensures
            b.strategy_spec() == strategy,
            b.injected() == 0,
            b.errors() == 0,
    {
        BusInjector { strategy, stop_flag, total_injected: 0, total_errors: 0 }
    }

    pub fn strategy(&self) -> (s: InjectionStrategy)
        ensures
            s == self.strategy_spec(),
    {
        self.strategy
    }

    /// Whether a stop was requested. The flag is shared with other threads,
    /// so nothing is stated of its value.
    pub fn stop_requested(&self) -> bool {
        self.stop_flag.load(Ordering::Relaxed)
    }

    /// What to do with `raw` now, given whether a port is available.
    pub fn next_step(&self, port_available: bool, raw: u32) -> (s: InjectStep)
        ensures
            s == InjectStep::Stopped || (!port_available && s == InjectStep::NoPort) || (
            port_available && s == InjectStep::Write(raw)),
    {
        let stopped = self.stop_requested();
        injection_step(stopped, port_available, raw)
    }

    /// Counts the outcome of one write: a written word, or a failure.
    pub fn record_write(&mut self, ok: bool)
        ensures
            final(self).strategy_spec() == old(self).strategy_spec(),
            ok ==> final(self).injected() == wrapping_inc(old(self).injected()),
            ok ==> final(self).errors() == old(self).errors(),
            !ok ==> final(self).errors() == wrapping_inc(old(self).errors()),
            !ok ==> final(self).injected() == old(self).injected(),
            write_recorded(*old(self), *final(self), ok),
    {
        let ghost start = (self.total_injected, self.total_errors);
        assert(seq![ok].drop_last() =~= Seq::<bool>::empty());
        assert(counts_after(start, seq![ok].drop_last()) == start);
        assert(seq![ok].last() == ok);
        if ok {
            self.total_injected = if self.total_injected < u64::MAX {
                self.total_injected + 1
            } else {
                0
            };
        } else {
            self.total_errors = if self.total_errors < u64::MAX {
                self.total_errors + 1
            } else {
                0
            };
        }
    }

    /// Words written and failed writes so far.
    pub fn stats(&self) -> (r: (u64, u64))
        ensures
            r == (self.injected(), self.errors()),
    {
        (self.total_injected, self.total_errors)
    }
}

// ---------------------------------------------------------------------------
// Where ports live
// ---------------------------------------------------------------------------

/// The character device of port `id`.
pub open spec fn device_path_text(id: u8) -> Seq<char> {
    "/dev/arinc429/tx"@ + decimal_digits(id as nat)
}

/// The sysfs transmit file of port `id`.
pub open spec fn sysfs_path_text(id: u8) -> Seq<char> {
    "/sys/class/arinc429/port"@ + decimal_digits(id as nat) + "/tx"@
}

/// The file name of the simulated port `id`.
pub open spec fn simulated_file_text(id: u8) -> Seq<char> {
    "tx"@ + decimal_digits(id as nat) + ".sock"@
}

/// The character device of port `id`.
pub fn device_path(id: u8) -> (p: String)
    ensures
        p@ == device_path_text(id),
{
    let mut p = String::new();
    p.append("/dev/arinc429/tx");
    push_decimal(&mut p, id as u64);
    p
}

/// The sysfs transmit file of port `id`.
pub fn sysfs_path(id: u8) -> (p: String)
    ensures
        p@ == sysfs_path_text(id),
{
    let mut p = String::new();
    p.append("/sys/class/arinc429/port");
    push_decimal(&mut p, id as u64);
    p.append("/tx");
    p
}

/// The file name of the simulated port `id`.
pub fn simulated_file_name(id: u8) -> (p: String)
    ensures
        p@ == simulated_file_text(id),
{
    let mut p = String::new();
    p.append("tx");
    push_decimal(&mut p, id as u64);
    p.append(".sock");
    p
}

/// The backend a port opens with: on Unix, its character device when that
/// exists, else its sysfs file when that exists; otherwise a simulation.
pub fn backend_for(unix: bool, device_exists: bool, sysfs_exists: bool) -> (b: PortBackend)
    ensures
        unix && device_exists ==> b == PortBackend::DevCharDevice,
        unix && !device_exists && sysfs_exists ==> b == PortBackend::SysfsUio,
        !(unix && (device_exists || sysfs_exists)) ==> b == PortBackend::Simulated,
{
    if unix && device_exists {
        PortBackend::DevCharDevice
    } else if unix && sysfs_exists {
        PortBackend::SysfsUio
    } else {
        PortBackend::Simulated
    }
}

} // verus!
