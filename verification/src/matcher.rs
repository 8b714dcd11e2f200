use vstd::prelude::*;

use vstd::string::StrSliceExecFns;

verus! {

/// Whether a pattern text compiles as a regular expression. Decided by
/// outside code; depends on the pattern text alone.
pub uninterp spec fn regex_valid(pat: Seq<char>) -> bool;

/// Whether a valid regular expression matches a haystack. Decided by
/// outside code; depends on the pattern and haystack texts alone.
pub uninterp spec fn regex_match(pat: Seq<char>, text: Seq<char>) -> bool;

/// Relies on regex::Regex::new: compiling succeeds or fails depending only
/// on the pattern text.
#[verifier::external_body]
fn regex_compiles(pat: &str) -> (r: bool)
    ensures
        r == regex_valid(pat@),
{
    match regex::Regex::new(pat) {
        Ok(_) => true,
        Err(_) => false,
    }
}

/// Relies on regex::Regex::new and regex::Regex::is_match: for a pattern
/// that compiles, whether it matches is a function of the pattern and
/// haystack texts alone.
#[verifier::external_body]
fn regex_is_match(pat: &str, text: &str) -> (r: bool)
    requires
        regex_valid(pat@),
    ensures
        r == regex_match(pat@, text@),
{
    match regex::Regex::new(pat) {
        Ok(re) => re.is_match(text),
        Err(_) => false,
    }
}

/// How many characters of a sequence are the digit zero.
pub open spec fn count_zeros(s: Seq<char>) -> nat
    decreases s.len(),
{
    if s.len() == 0 {
        0
    } else {
        count_zeros(s.drop_last()) + (if s.last() == '0' {
            1nat
        } else {
            0nat
        })
    }
}

proof fn lemma_count_zeros_take_step(s: Seq<char>, i: int)
    requires
        0 <= i < s.len(),
    ensures
        count_zeros(s.take(i + 1)) == count_zeros(s.take(i)) + (if s[i] == '0' {
            1nat
        } else {
            0nat
        }),
{
    assert(s.take(i + 1).drop_last() =~= s.take(i));
    assert(s.take(i + 1).last() == s[i]);
}

/// The constraints a finished address is held against: a required prefix
/// and suffix, a minimum count of zero characters, an optional regular
/// expression, and whether addresses are checksum-encoded before testing.
pub struct SearchCriteria {
    prefix: String,
    suffix: String,
    min_zeros: usize,
    pattern: Option<String>,
    use_checksum: bool,
}

impl SearchCriteria {
    /// Any held pattern compiles; an invalid pattern is rejected when the
    /// criteria are built, never seen during a search.
    #[verifier::type_invariant]
    spec fn inv(self) -> bool {
        match self.pattern {
            Some(p) => regex_valid(p@),
            None => true,
        }
    }

    pub closed spec fn spec_prefix(self) -> Seq<char> {
        self.prefix@
    }

    pub closed spec fn spec_suffix(self) -> Seq<char> {
        self.suffix@
    }

    pub closed spec fn spec_min_zeros(self) -> nat {
        self.min_zeros as nat
    }

    pub closed spec fn spec_pattern(self) -> Option<Seq<char>> {
        match self.pattern {
            Some(p) => Some(p@),
            None => None,
        }
    }

    pub closed spec fn spec_use_checksum(self) -> bool {
        self.use_checksum
    }

    /// Builds criteria, rejecting an invalid pattern: the result is `Some`
    /// exactly when the pattern is absent or compiles.
    pub fn new(
        prefix: String,
        suffix: String,
        min_zeros: usize,
        pattern: Option<String>,
        use_checksum: bool,
    ) -> (r: Option<SearchCriteria>)
        ensures
            match r {
                Some(c) => {
                    &&& c.spec_prefix() == prefix@
                    &&& c.spec_suffix() == suffix@
                    &&& c.spec_min_zeros() == min_zeros
                    &&& c.spec_use_checksum() == use_checksum
                    &&& c.spec_pattern() == (match pattern {
                        Some(p) => Some(p@),
                        None => None::<Seq<char>>,
                    })
                    &&& (match pattern {
                        Some(p) => regex_valid(p@),
                        None => true,
                    })
                },
                None => pattern matches Some(p) && !regex_valid(p@),
            },
    {
        match pattern {
            Some(p) => {
                if regex_compiles(p.as_str()) {
                    Some(
                        SearchCriteria {
                            prefix,
                            suffix,
                            min_zeros,
                            pattern: Some(p),
                            use_checksum,
                        },
                    )
                } else {
                    None
                }
            },
            None => Some(
                SearchCriteria { prefix, suffix, min_zeros, pattern: None, use_checksum },
            ),
        }
    }

    /// The prefix the address must start with.
    pub fn prefix_str(&self) -> (r: &String)
        ensures
            r@ == self.spec_prefix(),
    {
        &self.prefix
    }

    /// The suffix the address must end with.
    pub fn suffix_str(&self) -> (r: &String)
        ensures
            r@ == self.spec_suffix(),
    {
        &self.suffix
    }

    /// The least number of zero characters the address must contain.
    pub fn min_zeros(&self) -> (r: usize)
        ensures
            r == self.spec_min_zeros(),
    {
        self.min_zeros
    }

    /// Whether addresses are checksum-encoded before they are tested.
    pub fn use_checksum(&self) -> (r: bool)
        ensures
            r == self.spec_use_checksum(),
    {
        self.use_checksum
    }
}

/// What it means for a finished address to satisfy the criteria: it starts
/// with the prefix, ends with the suffix, holds at least the required
/// number of zero characters, and matches the pattern if one is set.
pub open spec fn spec_matches(addr: Seq<char>, c: SearchCriteria) -> bool {
    &&& c.spec_prefix().is_prefix_of(addr)
    &&& c.spec_suffix().is_suffix_of(addr)
    &&& count_zeros(addr) >= c.spec_min_zeros()
    &&& (match c.spec_pattern() {
        Some(p) => regex_match(p, addr),
        None => true,
    })
}

/// Whether one string starts with another, compared character by
/// character.
fn str_starts_with(s: &str, p: &str) -> (r: bool)
    ensures
        r == p@.is_prefix_of(s@),
{
    let sn = s.unicode_len();
    let pn = p.unicode_len();
    if pn > sn {
        return false;
    }
    let mut i: usize = 0;
    while i < pn
        invariant
            pn == p@.len(),
            sn == s@.len(),
            pn <= sn,
            i <= pn,
            forall|j: int| 0 <= j < i ==> p@[j] == s@[j],
        decreases pn - i,
    {
        if s.get_char(i) != p.get_char(i) {
            return false;
        }
        i = i + 1;
    }
    proof {
        assert(p@ =~= s@.subrange(0, p@.len() as int));
    }
    true
}

/// Whether one string ends with another, compared character by character.
fn str_ends_with(s: &str, p: &str) -> (r: bool)
    ensures
        r == p@.is_suffix_of(s@),
{
    let sn = s.unicode_len();
    let pn = p.unicode_len();
    if pn > sn {
        return false;
    }
    let off = sn - pn;
    let mut i: usize = 0;
    while i < pn
        invariant
            pn == p@.len(),
            sn == s@.len(),
            pn <= sn,
            off == sn - pn,
            i <= pn,
            forall|j: int| 0 <= j < i ==> p@[j] == s@[off + j],
        decreases pn - i,
    {
        if s.get_char(off + i) != p.get_char(i) {
            return false;
        }
        i = i + 1;
    }
    proof {
        assert(p@ =~= s@.subrange(s@.len() - p@.len(), s@.len() as int));
    }
    true
}

/// Counts the zero characters of a string.
fn count_zero_chars(s: &str) -> (r: usize)
    ensures
        r == count_zeros(s@),
{
    let n = s.unicode_len();
    let mut count: usize = 0;
    let mut i: usize = 0;
    while i < n
        invariant
            n == s@.len(),
            i <= n,
            count == count_zeros(s@.take(i as int)),
            count <= i,
        decreases n - i,
    {
        proof {
            lemma_count_zeros_take_step(s@, i as int);
        }
        if s.get_char(i) == '0' {
            count = count + 1;
        }
        i = i + 1;
    }
    proof {
        assert(s@.take(n as int) =~= s@);
    }
    count
}

/// Tests a finished address against the criteria. The address is compared
/// exactly as given; a caller that wants checksum-aware matching encodes
/// the address before calling.
pub fn matches(address: &str, criteria: &SearchCriteria) -> (r: bool)
    ensures
        r == spec_matches(address@, *criteria),
{
    proof {
        use_type_invariant(&*criteria);
    }
    if !str_starts_with(address, criteria.prefix.as_str()) {
        return false;
    }
    if !str_ends_with(address, criteria.suffix.as_str()) {
        return false;
    }
    if count_zero_chars(address) < criteria.min_zeros {
        return false;
    }
    match &criteria.pattern {
        Some(p) => regex_is_match(p.as_str(), address),
        None => true,
    }
}

/// With an empty prefix, an empty suffix, a zero minimum and no pattern,
/// every address satisfies the criteria.
pub proof fn lemma_trivial_criteria_match(addr: Seq<char>, c: SearchCriteria)
    requires
        c.spec_prefix() == Seq::<char>::empty(),
        c.spec_suffix() == Seq::<char>::empty(),
        c.spec_min_zeros() == 0,
        c.spec_pattern() is None,
    ensures
        spec_matches(addr, c),
{
    assert(c.spec_prefix() =~= addr.subrange(0, 0));
    assert(c.spec_suffix() =~= addr.subrange(addr.len() as int, addr.len() as int));
}

} // verus!
