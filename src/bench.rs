use vstd::prelude::*;

use crate::crc::{checksum, LookupTable, CRC};
use crate::hex::{parse_hex, parse_spec, ParseError};

verus! {

/// The largest iteration count a benchmark accepts.
pub const MAX_ITERATIONS: usize = 1_000_000_000;

#[verifier::external_type_specification]
#[verifier::external_body]
pub struct ExInstant(std::time::Instant);

/// Relies on std::time::Instant::now to read the monotonic clock; nothing is
/// promised of the reading.
pub assume_specification[ std::time::Instant::now ]() -> std::time::Instant;

/// Relies on std::time::Instant::elapsed for the time passed since a reading;
/// nothing is promised of its length.
pub assume_specification[ std::time::Instant::elapsed ](
    self_: &std::time::Instant,
) -> std::time::Duration;

/// Relies on core::time::Duration::as_nanos to express a duration in whole
/// nanoseconds; any `u128` may come back.
pub assume_specification[ core::time::Duration::as_nanos ](self_: &core::time::Duration) -> u128;

/// What a benchmark reports: the checksum of the last run, the time all runs
/// took, and the time per run, both in nanoseconds.
#[derive(Debug, Clone, Copy, PartialEq, Eq)]
pub struct BenchmarkResult {
    pub checksum: u16,
    pub total_nanos: u128,
    pub average_nanos: u128,
}

impl BenchmarkResult {
    /// `self` is what a benchmark of `data` over `iterations` runs reports.
    pub open spec fn reports(self, data: Seq<u8>, iterations: nat) -> bool {
        &&& self.checksum == checksum(data)
        &&& self.average_nanos == self.total_nanos as nat / iterations
    }

    /// A report from the last checksum and the total time of `iterations` runs;
    /// the average is the total divided by the count, rounded down.
    pub fn new(checksum: u16, total_nanos: u128, iterations: usize) -> (r: Self)
        requires
            iterations >= 1,
        ensures
            r.checksum == checksum,
            r.total_nanos == total_nanos,
            r.average_nanos == total_nanos as nat / iterations as nat,
    {
        BenchmarkResult { checksum, total_nanos, average_nanos: total_nanos / iterations as u128 }
    }
}

/// Runs a fresh engine over `data` `iterations` times and returns the
/// checksum of the last run.
pub fn run_iterations(table: &LookupTable, data: &[u8], iterations: usize) -> (r: u16)
    requires
        iterations >= 1,
    ensures
        r == checksum(data@),
{
    let mut output: u16 = 0;
    let mut k: usize = 0;
    while k < iterations
        invariant
            k <= iterations,
            k > 0 ==> output == checksum(data@),
        decreases iterations - k,
    {
        output = CRC::new().calculate(table, data);
        k = k + 1;
    }
    output
}

/// Times `iterations` runs of the engine over `data`.
pub fn benchmark(table: &LookupTable, data: &[u8], iterations: usize) -> (r: BenchmarkResult)
    requires
        1 <= iterations <= MAX_ITERATIONS,
    ensures
        r.reports(data@, iterations as nat),
{
    let start = std::time::Instant::now();
    let output = run_iterations(table, data, iterations);
    let total = start.elapsed().as_nanos();
    BenchmarkResult::new(output, total, iterations)
}

/// Parses `text` and, when it is well formed, benchmarks its bytes. On a parse
/// error nothing is run.
pub fn run(table: &LookupTable, text: &str, iterations: usize) -> (r: Result<
    BenchmarkResult,
    ParseError,
>)
    requires
        1 <= iterations <= MAX_ITERATIONS,
    ensures
        match parse_spec(text@) {
            Ok(bytes) => r is Ok && r->Ok_0.reports(bytes, iterations as nat),
            Err(e) => r == Err::<BenchmarkResult, ParseError>(e),
        },
{
    match parse_hex(text) {
        Ok(bytes) => Ok(benchmark(table, bytes.as_slice(), iterations)),
        Err(e) => Err(e),
    }
}

/// Two benchmarks of the same bytes report the same checksum whatever their
/// iteration counts, and each average times its count lies within one count
/// of its total.
pub proof fn benchmark_checksum_ignores_iterations(
    data: Seq<u8>,
    n1: nat,
    n2: nat,
    r1: BenchmarkResult,
    r2: BenchmarkResult,
)
    requires
        n1 >= 1,
        n2 >= 1,
        r1.reports(data, n1),
        r2.reports(data, n2),
    ensures
        r1.checksum == r2.checksum,
        r1.average_nanos * n1 <= r1.total_nanos < (r1.average_nanos + 1) * n1,
        r2.average_nanos * n2 <= r2.total_nanos < (r2.average_nanos + 1) * n2,
{
    let t1 = r1.total_nanos as int;
    let t2 = r2.total_nanos as int;
    assert((t1 / n1 as int) * n1 <= t1 < (t1 / n1 as int + 1) * n1) by (nonlinear_arith)
        requires
            n1 >= 1,
            t1 >= 0,
    ;
    assert((t2 / n2 as int) * n2 <= t2 < (t2 / n2 as int + 1) * n2) by (nonlinear_arith)
        requires
            n2 >= 1,
            t2 >= 0,
    ;
}

} // verus!
