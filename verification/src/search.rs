use vstd::prelude::*;

use vstd::string::StringExecFns;

use crate::checksum::{checksum_of, lemma_checksum_case_insensitive, to_checksum_address};
use crate::hexspec::{hex_lower_of, is_lower_hex_char};
use crate::keygen::{generate, Candidate};
use crate::matcher::{spec_matches, SearchCriteria};
use crate::strutil::{bytes_to_chars, to_lower_char, to_lower_chars};
use crate::verify::{spec_verify, verify_address};

verus! {

/// A winning key pair: the 0x-prefixed address in its display form, the
/// private key as lowercase hex, and the attempt count at the moment of
/// discovery.
pub struct VanityResult {
    pub address: String,
    pub priv_key: String,
    pub attempts: u64,
}

/// The terminal state of a finished search: a verified winning result, or
/// exhaustion of the attempt ceiling.
pub enum Outcome {
    Found { result: VanityResult, verified: bool },
    Exhausted { attempts: u64 },
}

/// The one failure a search cannot absorb: the secure random source is
/// unavailable, so no candidates can be drawn.
#[derive(Debug)]
pub enum SearchError {
    RandomSourceUnavailable,
}

/// The limits a run observes: the worker count, the number of attempts a
/// worker buffers before flushing into the shared counter, the total
/// attempt ceiling, and how often a host may poll progress.
pub struct SearchLimits {
    pub workers: usize,
    pub batch_step: u64,
    pub attempt_ceiling: u64,
    pub progress_interval_ms: u64,
}

/// Where candidates come from: the secure random generator, or one fixed
/// candidate, a deterministic stub for tests and diagnostics.
pub enum Generator {
    Random,
    Fixed(Candidate),
}

/// A fixed candidate must carry a plausible raw address: 40 lowercase hex
/// characters, as the real generator always produces.
pub open spec fn generator_wf(g: Generator) -> bool {
    match g {
        Generator::Random => true,
        Generator::Fixed(c) => c.address@.len() == 40 && (forall|i: int|
            0 <= i < c.address@.len() ==> is_lower_hex_char(#[trigger] c.address@[i])),
    }
}

/// The form in which an address is displayed and tested: checksum-encoded
/// when checksum mode is on, the raw lowercase form otherwise.
pub open spec fn spec_final_form(addr: Seq<char>, use_checksum: bool) -> Seq<char> {
    if use_checksum {
        checksum_of(addr)
    } else {
        addr
    }
}

/// Whether a candidate wins under the criteria: its display form satisfies
/// the matcher.
pub open spec fn candidate_wins(c: Candidate, criteria: SearchCriteria) -> bool {
    spec_matches(spec_final_form(c.address@, criteria.spec_use_checksum()), criteria)
}

/// What one publish does to a single-assignment cell: the first value
/// sticks, every later one is ignored.
pub open spec fn publish_step(v: Option<VanityResult>, r: VanityResult) -> Option<VanityResult> {
    match v {
        None => Some(r),
        Some(first) => Some(first),
    }
}

/// The cell after a whole sequence of publishes, in order.
pub open spec fn publish_all(rs: Seq<VanityResult>) -> Option<VanityResult>
    decreases rs.len(),
{
    if rs.len() == 0 {
        None
    } else {
        publish_step(publish_all(rs.drop_last()), rs.last())
    }
}

/// However many publishes race for the cell, exactly the first one is
/// materialized.
pub proof fn lemma_slot_first_wins(rs: Seq<VanityResult>)
    requires
        rs.len() > 0,
    ensures
        publish_all(rs) == Some(rs[0]),
    decreases rs.len(),
{
    if rs.len() == 1 {
        assert(rs.drop_last().len() == 0);
        assert(publish_all(rs.drop_last()) is None);
        assert(rs.last() == rs[0]);
    } else {
        lemma_slot_first_wins(rs.drop_last());
        assert(rs.drop_last()[0] == rs[0]);
    }
}

/// A single-assignment result cell: the first publish wins and every later
/// publish leaves it unchanged.
pub struct ResultSlot {
    value: Option<VanityResult>,
}

impl ResultSlot {
    /// What the cell currently holds.
    pub closed spec fn spec_value(self) -> Option<VanityResult> {
        self.value
    }

    /// A fresh, empty cell.
    pub fn empty() -> (r: ResultSlot)
        ensures
            r.spec_value() is None,
    {
        ResultSlot { value: None }
    }

    /// Offers a result to the cell. Exactly the first offer is kept; the
    /// return value says whether this one won.
    pub fn publish(&mut self, result: VanityResult) -> (won: bool)
        ensures
            final(self).spec_value() == publish_step(old(self).spec_value(), result),
            won == (old(self).spec_value() is None),
    {
        match &self.value {
            Some(_) => false,
            None => {
                self.value = Some(result);
                true
            },
        }
    }

    /// Surrenders the held value.
    pub fn take(self) -> (r: Option<VanityResult>)
        ensures
            r == self.spec_value(),
    {
        self.value
    }
}

/// What is true of a published result: it came from a candidate of the
/// run's generator, that candidate's display form satisfies the criteria,
/// the address is the 0x-prefixed display form, the key is the candidate's
/// scalar in hex, at least one attempt was counted, and a result of the
/// random generator passes address verification.
pub open spec fn found_ok(result: VanityResult, criteria: SearchCriteria, g: Generator) -> bool {
    exists|c: Candidate|
        {
            &&& #[trigger] candidate_wins(c, criteria)
            &&& (match g {
                Generator::Random => c.wf(),
                Generator::Fixed(f) => c == f,
            })
            &&& result.address@ == seq!['0', 'x'] + spec_final_form(
                c.address@,
                criteria.spec_use_checksum(),
            )
            &&& result.priv_key@ == bytes_to_chars(hex_lower_of(c.secret@))
            &&& result.attempts >= 1
            &&& (g is Random ==> spec_verify(result.address@, result.priv_key@))
        }
}

/// A candidate whose 0x-prefixed raw address verifies also verifies under
/// its display form: the checksum encoding only changes letter case, which
/// verification ignores.
proof fn lemma_final_form_verifies(addr: Seq<char>, priv_hex: Seq<char>, use_checksum: bool)
    requires
        forall|i: int| 0 <= i < addr.len() ==> is_lower_hex_char(#[trigger] addr[i]),
        spec_verify(seq!['0', 'x'] + addr, priv_hex),
    ensures
        spec_verify(seq!['0', 'x'] + spec_final_form(addr, use_checksum), priv_hex),
{
    if use_checksum {
        lemma_checksum_case_insensitive(addr);
        let a1 = seq!['0', 'x'] + checksum_of(addr);
        let a2 = seq!['0', 'x'] + addr;
        assert forall|i: int| 0 <= i < addr.len() implies to_lower_char(#[trigger] addr[i])
            == addr[i] by {
        }
        assert(to_lower_chars(a1) =~= to_lower_chars(a2));
    }
}

/// Addition that sticks at the counter's ceiling instead of wrapping, so
/// the attempt counter is monotone.
pub open spec fn spec_sat_add(a: u64, b: u64) -> u64 {
    if a + b > u64::MAX {
        u64::MAX
    } else {
        (a + b) as u64
    }
}

fn sat_add(a: u64, b: u64) -> (r: u64)
    ensures
        r == spec_sat_add(a, b),
        r >= a,
        r >= b,
{
    if b > u64::MAX - a {
        u64::MAX
    } else {
        a + b
    }
}

/// The candidate the generator hands a worker: a fresh well-formed pair
/// from the random source (which then also verifies), or exactly the fixed
/// stub.
pub open spec fn candidate_from(c: Candidate, g: Generator) -> bool {
    match g {
        Generator::Random => c.wf() && spec_verify(
            seq!['0', 'x'] + c.address@,
            bytes_to_chars(hex_lower_of(c.secret@)),
        ),
        Generator::Fixed(f) => c == f,
    }
}

/// Whether the generator is a fixed stub whose candidate wins under the
/// criteria: such a search succeeds on its very first attempt.
pub open spec fn fixed_wins(g: Generator, criteria: SearchCriteria) -> bool {
    match g {
        Generator::Fixed(c) => candidate_wins(c, criteria),
        Generator::Random => false,
    }
}

/// Builds the display form of a candidate's address and tests it against
/// the criteria; on a match, hands back the 0x-prefixed address and the
/// private key hex.
fn test_candidate(c: &Candidate, criteria: &SearchCriteria) -> (r: Option<(String, String)>)
    requires
        c.address@.len() == 40,
        forall|i: int| 0 <= i < c.address@.len() ==> is_lower_hex_char(#[trigger] c.address@[i]),
    ensures
        (match r {
            Some(pair) => candidate_wins(*c, *criteria) && pair.0@ == seq!['0', 'x']
                + spec_final_form(c.address@, criteria.spec_use_checksum()) && pair.1@
                == bytes_to_chars(hex_lower_of(c.secret@)),
            None => !candidate_wins(*c, *criteria),
        }),
{
    let final_address: String = if criteria.use_checksum() {
        to_checksum_address(c.address.as_str())
    } else {
        c.address.clone()
    };
    if crate::matcher::matches(final_address.as_str(), criteria) {
        let mut prefixed = String::from_str("0x");
        proof {
            reveal_strlit("0x");
            assert("0x"@ =~= seq!['0', 'x']);
        }
        prefixed.append(final_address.as_str());
        let priv_hex = c.priv_key_hex();
        Some((prefixed, priv_hex))
    } else {
        None
    }
}

/// What the workers share: the flushed attempt counter, the stop signal,
/// whether the random source failed, and the single-assignment result
/// cell.
struct Shared {
    total: u64,
    stop: bool,
    rng_failed: bool,
    slot: ResultSlot,
}

/// The coordination invariant: the stop signal is set exactly when a
/// result was published or the random source failed; whatever was
/// published is a proper find; only the random generator can fail.
spec fn shared_inv(s: Shared, criteria: SearchCriteria, g: Generator) -> bool {
    &&& (s.stop <==> (s.slot.spec_value() is Some || s.rng_failed))
    &&& (match s.slot.spec_value() {
        Some(res) => found_ok(res, criteria, g),
        None => true,
    })
    &&& (match g {
        Generator::Fixed(_) => !s.rng_failed,
        Generator::Random => true,
    })
}

/// Attempts left until the ceiling, for termination measures.
spec fn remaining(total: u64, ceiling: u64) -> nat {
    if total < ceiling {
        (ceiling - total) as nat
    } else {
        0
    }
}

/// Room left in the local batch buffer, for termination measures.
spec fn batch_room(local: u64, batch_step: u64) -> nat {
    if local < batch_step {
        (batch_step - local) as nat
    } else {
        0
    }
}

/// One full attempt of one worker on one candidate: count it locally, test
/// the candidate, publish on a win (flushing first, so the recorded count
/// is exact), otherwise flush when the batch is full. Returns whether a
/// result was published and the worker's new local count.
fn process_candidate(
    shared: &mut Shared,
    local_in: u64,
    cand: &Candidate,
    criteria: &SearchCriteria,
    generator: &Generator,
    batch_step: u64,
) -> (out: (bool, u64))
    requires
        shared_inv(*old(shared), *criteria, *generator),
        !old(shared).stop,
        generator_wf(*generator),
        candidate_from(*cand, *generator),
        cand.address@.len() == 40,
        forall|i: int| 0 <= i < cand.address@.len() ==> is_lower_hex_char(#[trigger] cand.address@[i]),
        local_in == 0 || local_in < batch_step,
    ensures
        shared_inv(*final(shared), *criteria, *generator),
        final(shared).total >= old(shared).total,
        final(shared).total as int <= old(shared).total as int + local_in + 1,
        final(shared).rng_failed == old(shared).rng_failed,
        out.0 ==> final(shared).stop && candidate_wins(*cand, *criteria)
            && final(shared).total == spec_sat_add(old(shared).total, (local_in + 1) as u64)
            && (match final(shared).slot.spec_value() {
                Some(res) => res.attempts == final(shared).total,
                None => false,
            }),
        !out.0 ==> !final(shared).stop && final(shared).slot.spec_value() is None
            && !candidate_wins(*cand, *criteria) && (out.1 == 0 || out.1 < batch_step)
            && (if (local_in + 1) as u64 >= batch_step {
                final(shared).total == spec_sat_add(old(shared).total, (local_in + 1) as u64)
                    && out.1 == 0
            } else {
                final(shared).total == old(shared).total && out.1 == local_in + 1
            }),
{
    let local = local_in + 1;
    match test_candidate(cand, criteria) {
        Some(pair) => {
            let new_total = sat_add(shared.total, local);
            shared.total = new_total;
            let result = VanityResult { address: pair.0, priv_key: pair.1, attempts: new_total };
            proof {
                assert(result.attempts >= 1);
                if generator is Random {
                    lemma_final_form_verifies(
                        cand.address@,
                        bytes_to_chars(hex_lower_of(cand.secret@)),
                        criteria.spec_use_checksum(),
                    );
                }
                assert(candidate_wins(*cand, *criteria));
            }
            let ghost res_ghost = result;
            let _won = shared.slot.publish(result);
            shared.stop = true;
            proof {
                assert(found_ok(res_ghost, *criteria, *generator));
            }
            (true, 0)
        },
        None => {
            if local >= batch_step {
                let new_total = sat_add(shared.total, local);
                shared.total = new_total;
                (false, 0)
            } else {
                (false, local)
            }
        },
    }
}

/// One worker's whole hot loop: check the stop signal and the ceiling once
/// per iteration, draw a candidate, test it, publish the first win, buffer
/// attempt counts and flush them in batches and at exit.
fn worker_loop(
    shared: &mut Shared,
    criteria: &SearchCriteria,
    generator: &Generator,
    batch_step: u64,
    ceiling: u64,
)
    requires
        shared_inv(*old(shared), *criteria, *generator),
        generator_wf(*generator),
    ensures
        shared_inv(*final(shared), *criteria, *generator),
        final(shared).total >= old(shared).total,
        old(shared).stop ==> *final(shared) == *old(shared),
        !old(shared).stop && old(shared).total >= ceiling ==> *final(shared) == *old(shared),
        old(shared).total < ceiling ==> final(shared).total as int <= ceiling as int
            + batch_step as int,
        final(shared).stop || final(shared).total >= ceiling,
        (match old(shared).slot.spec_value() {
            Some(res) => final(shared).slot.spec_value() == Some(res),
            None => true,
        }),
        (match final(shared).slot.spec_value() {
            Some(res) => old(shared).slot.spec_value() is Some
                || res.attempts == final(shared).total,
            None => true,
        }),
        (!old(shared).stop && old(shared).total < ceiling && fixed_wins(*generator, *criteria))
            ==> (final(shared).stop && !final(shared).rng_failed
            && final(shared).total == old(shared).total + 1
            && (match final(shared).slot.spec_value() {
                Some(res) => res.attempts == old(shared).total + 1,
                None => false,
            })),
{
    if shared.stop {
        return ;
    }
    let ghost init = *shared;
    let mut local: u64 = 0;
    while !shared.stop && shared.total < ceiling
        invariant
            shared_inv(*shared, *criteria, *generator),
            generator_wf(*generator),
            init == *old(shared),
            !shared.stop,
            shared.slot.spec_value() is None,
            !shared.rng_failed,
            init.slot.spec_value() is None,
            !init.stop,
            !init.rng_failed,
            shared.total >= init.total,
            init.total >= ceiling ==> *shared == init && local == 0,
            init.total < ceiling ==> shared.total as int <= ceiling as int + batch_step as int,
            shared.total >= ceiling ==> local == 0,
            local == 0 || local < batch_step,
            fixed_wins(*generator, *criteria) && init.total < ceiling ==> (*shared == init && local
                == 0),
        decreases remaining(shared.total, ceiling), batch_room(local, batch_step),
    {
        match generator {
            Generator::Random => {
                match generate() {
                    Some(cand) => {
                        let out = process_candidate(
                            shared,
                            local,
                            &cand,
                            criteria,
                            generator,
                            batch_step,
                        );
                        if out.0 {
                            return ;
                        }
                        local = out.1;
                    },
                    None => {
                        if local > 0 {
                            let new_total = sat_add(shared.total, local);
                            shared.total = new_total;
                        }
                        shared.rng_failed = true;
                        shared.stop = true;
                        return ;
                    },
                }
            },
            Generator::Fixed(cand) => {
                let out = process_candidate(shared, local, cand, criteria, generator, batch_step);
                if out.0 {
                    return ;
                }
                local = out.1;
            },
        }
    }
    if local > 0 {
        let new_total = sat_add(shared.total, local);
        shared.total = new_total;
    }
}

/// Runs the whole search with an explicit candidate source: one worker
/// after another runs its hot loop until a result is published or the
/// attempt ceiling is reached, and the winning result, if any, is
/// re-verified before it is reported.
pub fn run_with_generator(
    criteria: &SearchCriteria,
    limits: &SearchLimits,
    generator: &Generator,
) -> (r: Result<Outcome, SearchError>)
    requires
        limits.workers >= 1,
        generator_wf(*generator),
    ensures
        (match r {
            Ok(o) => match o {
                Outcome::Found { result, verified } => found_ok(result, *criteria, *generator)
                    && verified == spec_verify(result.address@, result.priv_key@) && (*generator
                    is Random ==> verified) && result.attempts as int <= limits.attempt_ceiling
                    as int + limits.batch_step as int,
                Outcome::Exhausted { attempts } => attempts >= limits.attempt_ceiling
                    && attempts as int <= limits.attempt_ceiling as int
                    + limits.batch_step as int,
            },
            Err(e) => *generator is Random,
        }),
        limits.attempt_ceiling == 0 ==> r == (Ok::<Outcome, SearchError>(
            Outcome::Exhausted { attempts: 0u64 },
        )),
        (limits.attempt_ceiling >= 1 && fixed_wins(*generator, *criteria)) ==> (r matches Ok(
            Outcome::Found { result, verified },
        ) && result.attempts == 1),
{
    let mut shared = Shared { total: 0, stop: false, rng_failed: false, slot: ResultSlot::empty() };
    let mut w: usize = 0;
    while w < limits.workers
        invariant
            shared_inv(shared, *criteria, *generator),
            generator_wf(*generator),
            w <= limits.workers,
            limits.workers >= 1,
            w >= 1 ==> (shared.stop || shared.total >= limits.attempt_ceiling),
            w == 0 ==> (shared.total == 0 && !shared.stop && !shared.rng_failed
                && shared.slot.spec_value() is None),
            shared.total as int <= limits.attempt_ceiling as int + limits.batch_step as int,
            (match shared.slot.spec_value() {
                Some(res) => res.attempts == shared.total,
                None => true,
            }),
            limits.attempt_ceiling == 0 ==> (shared.total == 0 && !shared.stop && !shared.rng_failed
                && shared.slot.spec_value() is None),
            (limits.attempt_ceiling >= 1 && fixed_wins(*generator, *criteria) && w >= 1) ==> (
            shared.stop && !shared.rng_failed && (match shared.slot.spec_value() {
                Some(res) => res.attempts == 1,
                None => false,
            })),
        decreases limits.workers - w,
    {
        worker_loop(&mut shared, criteria, generator, limits.batch_step, limits.attempt_ceiling);
        w = w + 1;
    }
    let Shared { total, stop: _, rng_failed, slot } = shared;
    match slot.take() {
        Some(result) => {
            let verified = verify_address(result.address.as_str(), result.priv_key.as_str());
            Ok(Outcome::Found { result, verified })
        },
        None => {
            if rng_failed {
                Err(SearchError::RandomSourceUnavailable)
            } else {
                Ok(Outcome::Exhausted { attempts: total })
            }
        },
    }
}

/// Runs the whole search with the secure random generator.
pub fn run(criteria: &SearchCriteria, limits: &SearchLimits) -> (r: Result<Outcome, SearchError>)
    requires
        limits.workers >= 1,
    ensures
        (match r {
            Ok(o) => match o {
                Outcome::Found { result, verified } => found_ok(
                    result,
                    *criteria,
                    Generator::Random,
                ) && verified,
                Outcome::Exhausted { attempts } => attempts >= limits.attempt_ceiling
                    && attempts as int <= limits.attempt_ceiling as int
                    + limits.batch_step as int,
            },
            Err(e) => true,
        }),
        limits.attempt_ceiling == 0 ==> r == (Ok::<Outcome, SearchError>(
            Outcome::Exhausted { attempts: 0u64 },
        )),
{
    run_with_generator(criteria, limits, &Generator::Random)
}

} // verus!
