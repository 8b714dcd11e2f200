use vstd::prelude::*;

use vstd::string::StrSliceExecFns;

use crate::matcher::{regex_valid, SearchCriteria};
use crate::search::SearchLimits;

verus! {

/// The whole configuration a host hands the engine.
pub struct Config {
    pub version: String,
    pub app: App,
    pub search: Search,
    pub performance: Performance,
    pub output: Output,
    pub docker: Docker,
    pub security: Security,
}

/// Identity lines a host prints at startup.
pub struct App {
    pub name: String,
    pub version: String,
    pub description: String,
    pub warning: String,
}

/// What the search looks for and how candidates are validated.
pub struct Search {
    pub patterns: Patterns,
    pub validation: Validation,
}

/// The textual constraints: a prefix, a suffix, and an optional regular
/// expression (empty means none).
pub struct Patterns {
    pub start: String,
    pub end: String,
    pub regex: String,
}

/// Validation knobs: checksum mode, the zero-character minimum, and
/// whether winning results are re-verified.
pub struct Validation {
    pub use_checksum: bool,
    pub min_zeros: usize,
    pub verify_addresses: bool,
}

/// Throughput knobs: the counter batch size, the attempt ceiling, the
/// progress-log interval, the worker count ("auto" for hardware
/// parallelism), and resource limits.
pub struct Performance {
    pub step_size: u64,
    pub max_tries: u64,
    pub log_interval_ms: u64,
    pub threads: String,
    pub resources: Resources,
}

/// Container resource limits: a CPU share in percent and a memory bound.
pub struct Resources {
    pub cpu_limit_percent: u32,
    pub memory_limit: String,
}

/// Where and how a host reports results.
pub struct Output {
    pub directory: String,
    pub files: Files,
    pub progress_bar: ProgressBar,
}

/// File names a host writes next to a winning result.
pub struct Files {
    pub log: String,
    pub success_marker: String,
}

/// How a host draws its progress bar.
pub struct ProgressBar {
    pub template: String,
    pub chars: String,
}

/// How a host packages the engine in a container.
pub struct Docker {
    pub base_image: String,
    pub builder_image: String,
    pub platforms: Vec<String>,
    pub healthcheck: Healthcheck,
    pub volumes: Vec<Volume>,
}

/// The container health probe.
pub struct Healthcheck {
    pub interval: String,
    pub timeout: String,
    pub retries: u32,
}

/// One mounted volume of the container.
pub struct Volume {
    pub source: String,
    pub target: String,
}

/// Safety knobs: skipping the confirmation prompt, and the entropy report.
pub struct Security {
    pub skip_confirmation: bool,
    pub entropy: Entropy,
}

/// The entropy report's assumptions: the adversary guess rate and the
/// least strength worth reporting.
pub struct Entropy {
    pub guesses_per_second: u64,
    pub min_bits: u32,
}

/// Relies on num_cpus::get: the number of available logical CPUs, which
/// its documentation promises is always at least one.
#[verifier::external_body]
fn hardware_parallelism() -> (r: usize)
    ensures
        r >= 1,
{
    num_cpus::get()
}

/// Whether every character of a sequence is a decimal digit.
pub open spec fn all_digits(s: Seq<char>) -> bool {
    forall|i: int| 0 <= i < s.len() ==> ('0' <= #[trigger] s[i] && s[i] <= '9')
}

/// The number a sequence of decimal digits denotes.
pub open spec fn digits_value(s: Seq<char>) -> int
    decreases s.len(),
{
    if s.len() == 0 {
        0
    } else {
        digits_value(s.drop_last()) * 10 + (s.last() as int - '0' as int)
    }
}

/// Parses a decimal count: `Some` exactly for a nonempty all-digit string
/// whose value fits the machine word.
pub fn parse_count(s: &str) -> (r: Option<usize>)
    ensures
        (match r {
            Some(v) => s@.len() > 0 && all_digits(s@) && v == digits_value(s@),
            None => !(s@.len() > 0 && all_digits(s@) && digits_value(s@) <= usize::MAX),
        }),
{
    let n = s.unicode_len();
    if n == 0 {
        return None;
    }
    let mut value: usize = 0;
    let mut i: usize = 0;
    while i < n
        invariant
            n == s@.len(),
            0 < n,
            i <= n,
            all_digits(s@.take(i as int)),
            value == digits_value(s@.take(i as int)),
        decreases n - i,
    {
        let c = s.get_char(i);
        if c < '0' || c > '9' {
            proof {
                assert(!all_digits(s@)) by {
                    assert(!('0' <= s@[i as int] && s@[i as int] <= '9'));
                }
            }
            return None;
        }
        let d = (c as u8) - 0x30;
        proof {
            assert(s@.take(i + 1).drop_last() =~= s@.take(i as int));
            assert(s@.take(i + 1).last() == s@[i as int]);
            assert(d == (s@[i as int] as int - '0' as int));
        }
        if value > (usize::MAX - (d as usize)) / 10 {
            proof {
                lemma_digits_value_grows(s@, i as int);
            }
            return None;
        }
        value = value * 10 + (d as usize);
        i = i + 1;
    }
    proof {
        assert(s@.take(n as int) =~= s@);
    }
    Some(value)
}

/// A longer digit prefix never denotes a smaller number.
proof fn lemma_digits_value_grows(s: Seq<char>, i: int)
    requires
        0 <= i < s.len(),
        all_digits(s.take(i + 1)),
    ensures
        digits_value(s) >= digits_value(s.take(i + 1)) || !all_digits(s),
    decreases s.len() - i,
{
    if i + 1 == s.len() {
        assert(s.take(i + 1) =~= s);
    } else {
        if all_digits(s) {
            assert(all_digits(s.take(i + 2))) by {
                assert(forall|j: int|
                    0 <= j < i + 2 ==> s.take(i + 2)[j] == #[trigger] s[j]);
            }
            lemma_digits_value_grows(s, i + 1);
            assert(s.take(i + 2).drop_last() =~= s.take(i + 1));
            assert(digits_value(s.take(i + 2)) == digits_value(s.take(i + 1)) * 10 + (s[i + 1] as int
                - '0' as int));
            assert(digits_value(s.take(i + 1)) >= 0) by {
                lemma_digits_value_nonneg(s.take(i + 1));
            }
        }
    }
}

/// A digit string denotes a number, never a negative value.
proof fn lemma_digits_value_nonneg(s: Seq<char>)
    requires
        all_digits(s),
    ensures
        digits_value(s) >= 0,
    decreases s.len(),
{
    if s.len() > 0 {
        assert(all_digits(s.drop_last())) by {
            assert(forall|j: int|
                0 <= j < s.len() - 1 ==> s.drop_last()[j] == #[trigger] s[j]);
        }
        lemma_digits_value_nonneg(s.drop_last());
    }
}

/// The configured worker count denotes hardware parallelism.
pub open spec fn spec_is_auto(s: Seq<char>) -> bool {
    s == seq!['a', 'u', 't', 'o']
}

/// Resolves the configured worker count: "auto" and anything unparsable
/// fall back to hardware parallelism, an explicit count is authoritative,
/// and at least one worker always runs.
pub fn resolve_thread_count(threads: &str) -> (r: usize)
    ensures
        r >= 1,
        (match parse_spec_outcome(threads@) {
            Some(v) => r == (if v >= 1 {
                v
            } else {
                1
            }),
            None => true,
        }),
{
    if is_auto(threads) {
        return hardware_parallelism();
    }
    match parse_count(threads) {
        Some(v) => {
            if v >= 1 {
                v
            } else {
                1
            }
        },
        None => hardware_parallelism(),
    }
}

/// The explicit count a worker setting denotes, when it is not "auto" and
/// parses as a machine-word number.
pub open spec fn parse_spec_outcome(s: Seq<char>) -> Option<int> {
    if spec_is_auto(s) {
        None
    } else if s.len() > 0 && all_digits(s) && digits_value(s) <= usize::MAX {
        Some(digits_value(s))
    } else {
        None
    }
}

/// Whether the worker setting is the word "auto".
fn is_auto(threads: &str) -> (r: bool)
    ensures
        r == spec_is_auto(threads@),
{
    proof {
        reveal_strlit("auto");
        assert("auto"@ =~= seq!['a', 'u', 't', 'o']);
    }
    let n = threads.unicode_len();
    if n != 4 {
        proof {
            assert(!spec_is_auto(threads@)) by {
                if threads@ == seq!['a', 'u', 't', 'o'] {
                    assert(threads@.len() == 4);
                }
            }
        }
        return false;
    }
    let r = threads.get_char(0) == 'a' && threads.get_char(1) == 'u' && threads.get_char(2) == 't'
        && threads.get_char(3) == 'o';
    proof {
        if r {
            assert(threads@ =~= seq!['a', 'u', 't', 'o']);
        } else {
            assert(!spec_is_auto(threads@)) by {
                if threads@ == seq!['a', 'u', 't', 'o'] {
                    assert(threads@[0] == 'a' && threads@[1] == 'u' && threads@[2] == 't'
                        && threads@[3] == 'o');
                }
            }
        }
    }
    r
}

impl Config {
    /// The criteria this configuration asks for: an empty regex means no
    /// pattern; an invalid one is rejected here, before any worker starts.
    pub fn to_criteria(&self) -> (r: Option<SearchCriteria>)
        ensures
            (match r {
                Some(c) => c.spec_prefix() == self.search.patterns.start@ && c.spec_suffix()
                    == self.search.patterns.end@ && c.spec_min_zeros()
                    == self.search.validation.min_zeros && c.spec_use_checksum()
                    == self.search.validation.use_checksum && c.spec_pattern() == (if
                self.search.patterns.regex@.len() == 0 {
                    None::<Seq<char>>
                } else {
                    Some(self.search.patterns.regex@)
                }),
                None => self.search.patterns.regex@.len() > 0 && !regex_valid(
                    self.search.patterns.regex@,
                ),
            }),
    {
        let pattern: Option<String> = if self.search.patterns.regex.as_str().is_empty() {
            None
        } else {
            Some(self.search.patterns.regex.clone())
        };
        SearchCriteria::new(
            self.search.patterns.start.clone(),
            self.search.patterns.end.clone(),
            self.search.validation.min_zeros,
            pattern,
            self.search.validation.use_checksum,
        )
    }

    /// The limits this configuration asks for, with the worker count
    /// resolved.
    pub fn to_limits(&self) -> (r: SearchLimits)
        ensures
            r.workers >= 1,
            r.batch_step == self.performance.step_size,
            r.attempt_ceiling == self.performance.max_tries,
            r.progress_interval_ms == self.performance.log_interval_ms,
    {
        SearchLimits {
            workers: resolve_thread_count(self.performance.threads.as_str()),
            batch_step: self.performance.step_size,
            attempt_ceiling: self.performance.max_tries,
            progress_interval_ms: self.performance.log_interval_ms,
        }
    }
}

} // verus!
