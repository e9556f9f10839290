//! The pattern compiler and evaluator.
//!
//! A template string (most-significant bit first, over `1`, `0`, `?` and
//! spaces) is compiled into an ordered sequence of single-bit constraints,
//! indexed from the least-significant bit. `generate` fills the wildcard
//! positions with random bits; `fit` tests a concrete value against the
//! fixed positions.

use vstd::prelude::*;
use vstd::string::StrSliceExecFns;

verus! {

/// A single-bit constraint: the bit is fixed to one, fixed to zero, or
/// unconstrained (chosen at generation time, ignored at fit time).
#[derive(Debug, Copy, Clone, PartialEq, Eq)]
pub enum BitsPatternPart {
    One,
    Zero,
    DontCare,
}

/// The error of `BitsPattern::new`: the template held a character outside
/// `{'0', '1', '?', ' '}`. `found` is such a character.
#[derive(Debug, Copy, Clone, PartialEq, Eq)]
pub struct FormatError {
    pub found: char,
}

/// The error of `BitsPattern::generate`: the pattern holds more bits than
/// the requested width can represent.
#[derive(Debug, Copy, Clone, PartialEq, Eq)]
pub struct WidthError;

/// The characters a template may contain.
pub open spec fn is_pattern_char(c: char) -> bool {
    c == '1' || c == '0' || c == '?' || c == ' '
}

/// Every character of the template is drawn from the pattern alphabet.
pub open spec fn valid_template(s: Seq<char>) -> bool {
    forall|i: int| 0 <= i < s.len() ==> is_pattern_char(#[trigger] s[i])
}

/// The constraint a single non-space template character denotes.
pub open spec fn char_part(c: char) -> BitsPatternPart {
    if c == '1' {
        BitsPatternPart::One
    } else if c == '0' {
        BitsPatternPart::Zero
    } else {
        BitsPatternPart::DontCare
    }
}

/// The model of a compiled template: one part per non-space character,
/// index 0 holding the least-significant (rightmost) bit of the template.
pub open spec fn parse(s: Seq<char>) -> Seq<BitsPatternPart>
    decreases s.len(),
{
    if s.len() == 0 {
        Seq::empty()
    } else if s[0] == ' ' {
        parse(s.skip(1))
    } else {
        parse(s.skip(1)).push(char_part(s[0]))
    }
}

/// The significant (non-space) characters of a template, in order.
pub open spec fn significant(s: Seq<char>) -> Seq<char>
    decreases s.len(),
{
    if s.len() == 0 {
        Seq::empty()
    } else if s[0] == ' ' {
        significant(s.skip(1))
    } else {
        significant(s.skip(1)).insert(0, s[0])
    }
}

/// A compiled pattern: an immutable ordered sequence of single-bit
/// constraints, indexed least-significant bit first.
#[derive(Debug, PartialEq, Eq)]
pub struct BitsPattern {
    parts: Vec<BitsPatternPart>,
}

impl View for BitsPattern {
    type V = Seq<BitsPatternPart>;

    closed spec fn view(&self) -> Seq<BitsPatternPart> {
        self.parts@
    }
}

impl BitsPattern {
    /// Compiles a template string, written most-significant bit first.
    /// Spaces are ignored; any character outside the alphabet is rejected.
    pub fn new(pattern: &str) -> (r: Result<BitsPattern, FormatError>)
        ensures
            match r {
                Ok(p) => valid_template(pattern@) && p@ == parse(pattern@),
                Err(e) => !valid_template(pattern@) && !is_pattern_char(e.found)
                    && pattern@.contains(e.found),
            },
    {
        let ghost s = pattern@;
        let n = pattern.unicode_len();
        let mut parts: Vec<BitsPatternPart> = Vec::new();
        let mut k: usize = 0;
        while k < n
            invariant
                n == s.len(),
                s == pattern@,
                k <= n,
                parts@ == parse(s.skip((n - k) as int)),
                forall|j: int| n - k <= j < n ==> is_pattern_char(#[trigger] s[j]),
            decreases n - k,
        {
            let c = pattern.get_char(n - 1 - k);
            proof {
                assert(s.skip((n - k - 1) as int).skip(1) =~= s.skip((n - k) as int));
                assert(s.skip((n - k - 1) as int)[0] == s[n - k - 1]);
            }
            if c == '1' {
                parts.push(BitsPatternPart::One);
            } else if c == '0' {
                parts.push(BitsPatternPart::Zero);
            } else if c == '?' {
                parts.push(BitsPatternPart::DontCare);
            } else if c != ' ' {
                return Err(FormatError { found: c });
            }
            k += 1;
        }
        proof {
            assert(s.skip(0) =~= s);
        }
        Ok(BitsPattern { parts })
    }

    /// The number of bits the pattern constrains.
    pub fn len(&self) -> (r: usize)
        ensures
            r == self@.len(),
    {
        self.parts.len()
    }

    /// Produces one concrete value of the given bit width that satisfies
    /// the pattern: fixed positions hold their mandated bit, wildcard
    /// positions hold independently drawn random bits, and every bit at or
    /// above the pattern length is clear. Fails exactly when the pattern
    /// holds more bits than the width allows.
    pub fn generate(&self, width: usize) -> (r: Result<u64, WidthError>)
        requires
            width <= 64,
        ensures
            r is Ok <==> self@.len() <= width,
            r matches Ok(v) ==> realizes(self@, v),
    {
        if self.parts.len() > width {
            return Err(WidthError);
        }
        proof {
            lemma_zero_bits();
        }
        let mut bits: u64 = 0;
        let mut i: usize = 0;
        while i < self.parts.len()
            invariant
                self@.len() <= width <= 64,
                i <= self@.len(),
                forall|j: int|
                    0 <= j < i ==> part_allows(#[trigger] self@[j], bit_of(bits, j as u64)),
                forall|j: u64| i <= j < 64 ==> !bit_of(bits, j),
            decreases self@.len() - i,
        {
            let ghost prev = bits;
            match self.parts[i] {
                BitsPatternPart::One => {
                    bits = bits | (1u64 << (i as u64));
                    proof {
                        lemma_or_sets_bit(prev, i as u64, bits);
                    }
                },
                BitsPatternPart::Zero => {},
                BitsPatternPart::DontCare => {
                    if random_bit() {
                        bits = bits | (1u64 << (i as u64));
                        proof {
                            lemma_or_sets_bit(prev, i as u64, bits);
                        }
                    }
                },
            }
            i += 1;
        }
        Ok(bits)
    }

    /// Tests whether a concrete value of the given bit width satisfies the
    /// pattern: the width must be large enough to hold the pattern, and
    /// every fixed position of the pattern must agree with the value's bit
    /// at that position. Bits of the value at or above the pattern length
    /// are never inspected.
    pub fn fit(&self, bits: u64, width: usize) -> (r: bool)
        requires
            width <= 64,
        ensures
            r == fits(self@, bits, width as int),
    {
        if width < self.parts.len() {
            return false;
        }
        let mut i: usize = 0;
        while i < self.parts.len()
            invariant
                self@.len() <= width <= 64,
                i <= self@.len(),
                forall|j: int|
                    0 <= j < i ==> part_allows(#[trigger] self@[j], bit_of(bits, j as u64)),
            decreases self@.len() - i,
        {
            match self.parts[i] {
                BitsPatternPart::One => {
                    if (bits >> (i as u64)) & 1 != 1 {
                        return false;
                    }
                },
                BitsPatternPart::Zero => {
                    if (bits >> (i as u64)) & 1 == 1 {
                        return false;
                    }
                },
                BitsPatternPart::DontCare => {},
            }
            i += 1;
        }
        true
    }
}

/// Relies on rand::random::<bool>: draws one boolean from the process-wide
/// thread-local generator. Nothing is promised of the outcome.
#[verifier::external_body]
fn random_bit() -> bool {
    rand::random::<bool>()
}

/// True when bit `i` of `v` is set.
pub open spec fn bit_of(v: u64, i: u64) -> bool {
    (v >> i) & 1 == 1
}

/// Whether a single-bit constraint allows a concrete bit value.
pub open spec fn part_allows(p: BitsPatternPart, b: bool) -> bool {
    match p {
        BitsPatternPart::One => b,
        BitsPatternPart::Zero => !b,
        BitsPatternPart::DontCare => true,
    }
}

/// The fit predicate: the width is large enough for the pattern, and every
/// fixed position of the pattern agrees with the value's bit at that
/// position. The value's bits at or above the pattern length are free.
pub open spec fn fits(parts: Seq<BitsPatternPart>, v: u64, width: int) -> bool {
    &&& parts.len() <= width
    &&& forall|i: int|
        0 <= i < parts.len() ==> part_allows(#[trigger] parts[i], bit_of(v, i as u64))
}

/// The values `generate` may return for a pattern: every fixed position
/// holds its mandated bit and every bit at or above the pattern length is
/// clear; wildcard positions are unconstrained.
pub open spec fn realizes(parts: Seq<BitsPatternPart>, v: u64) -> bool {
    &&& forall|i: int|
        0 <= i < parts.len() && i < 64 ==> part_allows(
            #[trigger] parts[i],
            bit_of(v, i as u64),
        )
    &&& forall|i: u64| parts.len() <= i < 64 ==> !bit_of(v, i)
}

/// A pattern whose every position is fixed.
pub open spec fn no_wildcards(parts: Seq<BitsPatternPart>) -> bool {
    forall|i: int| 0 <= i < parts.len() ==> #[trigger] parts[i] != BitsPatternPart::DontCare
}

proof fn lemma_zero_bits()
    by (bit_vector)
    ensures
        forall|j: u64| j < 64 ==> !bit_of(0u64, j),
{
}

proof fn lemma_or_sets_bit(b: u64, i: u64, r: u64)
    by (bit_vector)
    requires
        i < 64,
        r == b | (1u64 << i),
    ensures
        bit_of(r, i),
        forall|j: u64| j < 64 && j != i ==> bit_of(r, j) == bit_of(b, j),
{
}

proof fn lemma_shr_eq(v1: u64, v2: u64, n: u64)
    requires
        n <= 64,
        forall|i: u64| n <= i < 64 ==> bit_of(v1, i) == bit_of(v2, i),
    ensures
        v1 >> n == v2 >> n,
    decreases 64 - n,
{
    if n == 64 {
        assert(v1 >> 64 == 0 && v2 >> 64 == 0) by (bit_vector);
    } else {
        let m = (n + 1) as u64;
        lemma_shr_eq(v1, v2, m);
        assert(bit_of(v1, n) == bit_of(v2, n));
        assert(v1 >> n == v2 >> n) by (bit_vector)
            requires
                n < 64,
                m == n + 1,
                v1 >> m == v2 >> m,
                bit_of(v1, n) == bit_of(v2, n),
        ;
    }
}

/// Two values that agree on all 64 bit positions are equal.
pub proof fn lemma_eq_from_bits(v1: u64, v2: u64)
    requires
        forall|i: u64| i < 64 ==> bit_of(v1, i) == bit_of(v2, i),
    ensures
        v1 == v2,
{
    lemma_shr_eq(v1, v2, 0);
    assert(v1 >> 0u64 == v1 && v2 >> 0u64 == v2) by (bit_vector);
}

/// Round trip: any value that `generate` may return for a pattern
/// satisfies `fit` for that same pattern, at any width wide enough to hold
/// the pattern.
pub proof fn lemma_generated_fits(parts: Seq<BitsPatternPart>, v: u64, width: int)
    requires
        parts.len() <= width <= 64,
        realizes(parts, v),
    ensures
        fits(parts, v, width),
{
}

/// Fixed-bit determinism: a pattern with no wildcards admits exactly one
/// value, so generation from it returns the same value on every call.
pub proof fn lemma_fixed_pattern_deterministic(parts: Seq<BitsPatternPart>, v1: u64, v2: u64)
    requires
        parts.len() <= 64,
        no_wildcards(parts),
        realizes(parts, v1),
        realizes(parts, v2),
    ensures
        v1 == v2,
{
    assert forall|i: u64| i < 64 implies bit_of(v1, i) == bit_of(v2, i) by {
        if i < parts.len() {
            assert(part_allows(parts[i as int], bit_of(v1, i)));
            assert(part_allows(parts[i as int], bit_of(v2, i)));
        }
    }
    lemma_eq_from_bits(v1, v2);
}

/// Non-fit rejection: a value that disagrees with any fixed position of
/// the pattern does not fit it, at any width.
pub proof fn lemma_mismatch_rejected(parts: Seq<BitsPatternPart>, v: u64, width: int, i: int)
    requires
        0 <= i < parts.len(),
        !part_allows(parts[i], bit_of(v, i as u64)),
    ensures
        !fits(parts, v, width),
{
}

/// Width-mismatch short circuit: a width smaller than the pattern length
/// never fits, whatever the value.
pub proof fn lemma_narrow_width_rejected(parts: Seq<BitsPatternPart>, v: u64, width: int)
    requires
        width < parts.len(),
    ensures
        !fits(parts, v, width),
{
}

/// The empty pattern fits every value at every width, and the only value
/// generation can return for it is zero.
pub proof fn lemma_empty_pattern(parts: Seq<BitsPatternPart>, v: u64, width: int)
    requires
        parts.len() == 0,
        0 <= width,
    ensures
        fits(parts, v, width),
        realizes(parts, v) ==> v == 0,
{
    if realizes(parts, v) {
        lemma_zero_bits();
        lemma_eq_from_bits(v, 0);
    }
}

/// Wildcard coverage: a pattern with a wildcard position admits more than
/// one value, since flipping a realized value at a wildcard position
/// yields a different value that the pattern also admits.
pub proof fn lemma_wildcard_flip(parts: Seq<BitsPatternPart>, v: u64, w: int)
    requires
        parts.len() <= 64,
        realizes(parts, v),
        0 <= w < parts.len(),
        parts[w] == BitsPatternPart::DontCare,
    ensures
        realizes(parts, v ^ (1u64 << (w as u64))),
        v ^ (1u64 << (w as u64)) != v,
{
    lemma_xor_flips_bit(v, w as u64, v ^ (1u64 << (w as u64)));
}

proof fn lemma_xor_flips_bit(b: u64, i: u64, r: u64)
    by (bit_vector)
    requires
        i < 64,
        r == b ^ (1u64 << i),
    ensures
        bit_of(r, i) == !bit_of(b, i),
        forall|j: u64| j < 64 && j != i ==> bit_of(r, j) == bit_of(b, j),
        r != b,
{
}

/// `fit` never inspects a value's bits at or above the pattern length: two
/// values that agree on the low `parts.len()` positions fit or fail
/// together, at every width.
pub proof fn lemma_fit_ignores_high_bits(
    parts: Seq<BitsPatternPart>,
    v1: u64,
    v2: u64,
    width: int,
)
    requires
        parts.len() <= 64,
        forall|i: u64| i < parts.len() ==> bit_of(v1, i) == bit_of(v2, i),
    ensures
        fits(parts, v1, width) == fits(parts, v2, width),
{
    assert forall|i: int| 0 <= i < parts.len() implies part_allows(
        #[trigger] parts[i],
        bit_of(v1, i as u64),
    ) == part_allows(parts[i], bit_of(v2, i as u64)) by {
        assert(bit_of(v1, i as u64) == bit_of(v2, i as u64));
    }
}

/// All bits of a realized value at or above the pattern length are clear,
/// so a realized value of a pattern of at most `width` bits lies below
/// `1 << width`.
pub proof fn lemma_realizes_bounded(parts: Seq<BitsPatternPart>, v: u64, width: u64)
    requires
        width < 64,
        parts.len() <= width,
        realizes(parts, v),
    ensures
        v < (1u64 << width),
{
    lemma_zero_bits();
    lemma_shr_eq(v, 0, width);
    assert(v >> width == 0u64 >> width ==> v < (1u64 << width)) by (bit_vector)
        requires
            width < 64,
    ;
}

/// A recursive check that every character of `s` from position `i` on is a
/// bit character (`0`, `1` or `?`, no spaces); written recursively so that
/// a concrete template can be checked by unfolding the definition.
pub open spec fn spaceless_template_from(s: Seq<char>, i: int) -> bool
    decreases s.len() - i,
{
    if i < 0 || i >= s.len() {
        true
    } else {
        (s[i] == '0' || s[i] == '1' || s[i] == '?') && spaceless_template_from(s, i + 1)
    }
}

/// A template of bit characters only is valid and parses to one part per
/// character.
pub proof fn lemma_spaceless_template(s: Seq<char>)
    requires
        spaceless_template_from(s, 0),
    ensures
        valid_template(s),
        parse(s).len() == s.len(),
{
    lemma_spaceless_chars(s, 0);
    lemma_parse_len_spaceless(s);
}

proof fn lemma_spaceless_chars(s: Seq<char>, i: int)
    requires
        0 <= i <= s.len(),
        spaceless_template_from(s, i),
    ensures
        forall|j: int| i <= j < s.len() ==> is_pattern_char(#[trigger] s[j]) && s[j] != ' ',
    decreases s.len() - i,
{
    if i < s.len() {
        lemma_spaceless_chars(s, i + 1);
    }
}

proof fn lemma_parse_len_spaceless(s: Seq<char>)
    requires
        forall|j: int| 0 <= j < s.len() ==> (#[trigger] s[j]) != ' ',
    ensures
        parse(s).len() == s.len(),
    decreases s.len(),
{
    if s.len() > 0 {
        assert forall|j: int| 0 <= j < s.skip(1).len() implies (#[trigger] s.skip(1)[j]) != ' ' by {
            assert(s.skip(1)[j] == s[j + 1]);
        }
        lemma_parse_len_spaceless(s.skip(1));
    }
}

/// A compiled pattern holds exactly one part per significant (non-space)
/// character of its template.
pub proof fn lemma_parse_len(s: Seq<char>)
    ensures
        parse(s).len() == significant(s).len(),
    decreases s.len(),
{
    if s.len() > 0 {
        lemma_parse_len(s.skip(1));
    }
}

/// Whitespace insensitivity: parsing a template depends only on its
/// significant (non-space) characters.
pub proof fn lemma_whitespace_insensitive(s1: Seq<char>, s2: Seq<char>)
    requires
        significant(s1) == significant(s2),
    ensures
        parse(s1) == parse(s2),
{
    lemma_parse_significant(s1);
    lemma_parse_significant(s2);
}

/// Parsing a template gives the same model as parsing its significant
/// characters alone.
pub proof fn lemma_parse_significant(s: Seq<char>)
    ensures
        parse(s) == parse(significant(s)),
    decreases s.len(),
{
    if s.len() == 0 {
    } else if s[0] == ' ' {
        lemma_parse_significant(s.skip(1));
    } else {
        lemma_parse_significant(s.skip(1));
        let t = significant(s.skip(1)).insert(0, s[0]);
        assert(significant(s) == t);
        assert(t[0] == s[0]);
        assert(t.skip(1) =~= significant(s.skip(1)));
        assert(parse(t) == parse(t.skip(1)).push(char_part(t[0])));
    }
}

} // verus!
