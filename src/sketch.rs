//! The front of the sketching pipeline: a checked configuration, text
//! normalisation, and the character n-grams (shingles) that a signature
//! accumulator is fed with.

use vstd::prelude::*;

verus! {

/// Runs of whitespace and punctuation, folded to one space each.
pub const PUNCT_RUNS: &'static str = r"[\s\p{Punctuation}]+";

/// Why a sketcher could not be made.
#[derive(Clone, Copy, Debug, PartialEq, Eq, Structural)]
pub enum ConfigError {
    /// The signature size was zero.
    SizeZero,
    /// The n-gram length was zero.
    NGramZero,
}

/// The compiled pattern, carried opaquely.
#[verifier::external_type_specification]
#[verifier::external_body]
pub struct ExRegex(regex::Regex);

/// NFKC normal form of `s`.
pub uninterp spec fn nfkc_of(s: Seq<char>) -> Seq<char>;

/// The pattern that `re` was compiled from.
pub uninterp spec fn regex_source(re: regex::Regex) -> Seq<char>;

/// `s` with every non-overlapping leftmost-first match of `pattern` replaced by `rep`.
pub uninterp spec fn regex_replaced(pattern: Seq<char>, s: Seq<char>, rep: Seq<char>) -> Seq<char>;

/// `s` with traditional Chinese characters and phrases converted to simplified ones.
pub uninterp spec fn hans_of(s: Seq<char>) -> Seq<char>;

/// The Unicode lowercase of `s`.
pub uninterp spec fn lower_of(s: Seq<char>) -> Seq<char>;

/// Relies on ICU's `ComposingNormalizer::new_nfkc` and its `normalize`.
#[verifier::external_body]
fn nfkc(s: &str) -> (r: String)
    ensures
        r@ == nfkc_of(s@),
{
    icu::normalizer::ComposingNormalizer::new_nfkc().normalize(s)
}

/// Relies on `regex::Regex::new`, which fails only on a syntax error or an
/// exceeded size limit; the punctuation pattern has neither.
#[verifier::external_body]
fn compile(pattern: &str) -> (r: Option<regex::Regex>)
    ensures
        r matches Some(re) ==> regex_source(re) == pattern@,
        pattern@ == PUNCT_RUNS@ ==> r is Some,
{
    regex::Regex::new(pattern).ok()
}

/// Relies on `regex::Regex::replace_all` with a literal replacement.
#[verifier::external_body]
fn replace_all(re: &regex::Regex, s: &str, rep: &str) -> (r: String)
    ensures
        r@ == regex_replaced(regex_source(*re), s@, rep@),
{
    re.replace_all(s, regex::NoExpand(rep)).into_owned()
}

/// Relies on zhconv's `ZH_TO_HANS_CONVERTER.convert`.
#[verifier::external_body]
fn to_hans(s: &str) -> (r: String)
    ensures
        r@ == hans_of(s@),
{
    zhconv::converters::ZH_TO_HANS_CONVERTER.convert(s)
}

/// Relies on `str::to_lowercase`.
#[verifier::external_body]
fn lowercase(s: &str) -> (r: String)
    ensures
        r@ == lower_of(s@),
{
    s.to_lowercase()
}

/// Relies on `str::chars`: the characters of `s`, in order.
#[verifier::external_body]
fn chars_of(s: &str) -> (r: Vec<char>)
    ensures
        r@ == s@,
{
    s.chars().collect()
}

/// The windows of `n` consecutive characters of `cs`, left to right; the
/// whole of `cs` as the one shingle when it is shorter than `n`.
pub open spec fn shingles(cs: Seq<char>, n: nat) -> Seq<Seq<char>> {
    if cs.len() < n {
        seq![cs]
    } else {
        Seq::new((cs.len() - n + 1) as nat, |i: int| cs.subrange(i, i + n))
    }
}

/// Sketcher configuration: signature size, shingle length, and which
/// normalisation stages run.
pub struct Shingler {
    size: usize,
    n_gram: usize,
    lowercase: bool,
    unicode_normalize: bool,
    zh_conv: bool,
    punct_norm: bool,
    punct: regex::Regex,
}

impl Shingler {
    /// Number of slots of each signature.
    pub closed spec fn slot_count(&self) -> nat {
        self.size as nat
    }

    /// Length of each shingle.
    pub closed spec fn n(&self) -> nat {
        self.n_gram as nat
    }

    /// The toggles: lowercase, unicode_normalize, zh_conv, punct_norm.
    pub closed spec fn options(&self) -> (bool, bool, bool, bool) {
        (self.lowercase, self.unicode_normalize, self.zh_conv, self.punct_norm)
    }

    /// The pattern whose runs are folded to a space.
    pub closed spec fn pattern(&self) -> Seq<char> {
        regex_source(self.punct)
    }

    pub open spec fn wf(&self) -> bool {
        &&& self.n() > 0
        &&& 0 < self.slot_count() <= u32::MAX
    }

    /// The text after the enabled stages: NFKC, folding of `pattern` runs to
    /// one space, traditional-to-simplified, lowercase, in that order.
    pub open spec fn normalized(&self, s: Seq<char>) -> Seq<char> {
        let (lower, nfkc, hans, punct) = self.options();
        let a = if nfkc {
            nfkc_of(s)
        } else {
            s
        };
        let b = if punct {
            regex_replaced(self.pattern(), a, seq![' '])
        } else {
            a
        };
        let c = if hans {
            hans_of(b)
        } else {
            b
        };
        if lower {
            lower_of(c)
        } else {
            c
        }
    }

    /// The shingles that sketching `s` feeds, in order.
    pub open spec fn shingles_of(&self, s: Seq<char>) -> Seq<Seq<char>> {
        shingles(self.normalized(s), self.n())
    }

    /// A configuration with `size` slots and shingles of `n_gram` characters.
    pub fn new(
        size: usize,
        n_gram: usize,
        lowercase: bool,
        unicode_normalize: bool,
        zh_conv: bool,
        punct_norm: bool,
    ) -> (r: Result<Shingler, ConfigError>)
        requires
            size <= u32::MAX,
        ensures
            size == 0 ==> r == Err::<Shingler, ConfigError>(ConfigError::SizeZero),
            size > 0 && n_gram == 0 ==> r == Err::<Shingler, ConfigError>(ConfigError::NGramZero),
            r is Ok <==> size > 0 && n_gram > 0,
            r matches Ok(h) ==> {
                &&& h.wf()
                &&& h.slot_count() == size
                &&& h.n() == n_gram
                &&& h.options() == (lowercase, unicode_normalize, zh_conv, punct_norm)
                &&& h.pattern() == PUNCT_RUNS@
            },
    {
        if size == 0 {
            return Err(ConfigError::SizeZero);
        }
        if n_gram == 0 {
            return Err(ConfigError::NGramZero);
        }
        let punct = compile(PUNCT_RUNS).unwrap();
        Ok(Shingler { size, n_gram, lowercase, unicode_normalize, zh_conv, punct_norm, punct })
    }

    /// Number of slots of each signature.
    pub fn size(&self) -> (r: usize)
        ensures
            r == self.slot_count(),
    {
        self.size
    }

    /// Runs the enabled normalisation stages on `s`.
    pub fn normalize(&self, s: String) -> (r: String)
        ensures
            r@ == self.normalized(s@),
    {
        let mut s = s;
        if self.unicode_normalize {
            s = nfkc(s.as_str());
        }
        if self.punct_norm {
            proof {
                reveal_strlit(" ");
                assert(" "@ =~= seq![' ']);
            }
            s = replace_all(&self.punct, s.as_str(), " ");
        }
        if self.zh_conv {
            s = to_hans(s.as_str());
        }
        if self.lowercase {
            s = lowercase(s.as_str());
        }
        s
    }

    /// The shingles of `s` after normalisation, left to right.
    pub fn shingles(&self, s: String) -> (r: Vec<Vec<char>>)
        requires
            self.wf(),
        ensures
            r@.map_values(|v: Vec<char>| v@) == self.shingles_of(s@),
    {
        let t = self.normalize(s);
        let cs = chars_of(t.as_str());
        let n = self.n_gram;
        let mut r: Vec<Vec<char>> = Vec::new();
        if cs.len() < n {
            r.push(cs);
            assert(r@.map_values(|v: Vec<char>| v@) =~= self.shingles_of(s@));
            return r;
        }
        let ghost all = shingles(cs@, n as nat);
        let count = cs.len() - n + 1;
        let mut i: usize = 0;
        while i < count
            invariant
                n == self.n_gram,
                n > 0,
                count == cs@.len() - n + 1,
                all == shingles(cs@, n as nat),
                i <= count,
                r@.len() == i,
                forall|x: int| 0 <= x < i ==> #[trigger] r@[x]@ == all[x],
            decreases count - i,
        {
            let mut cur: Vec<char> = Vec::new();
            let mut j: usize = 0;
            assert(i + n <= cs@.len());
            while j < n
                invariant
                    j <= n,
                    i < count,
                    i + n <= cs.len(),
                    count == cs@.len() - n + 1,
                    cur@ == cs@.subrange(i as int, i + j),
                decreases n - j,
            {
                cur.push(cs[i + j]);
                assert(cur@ =~= cs@.subrange(i as int, i + j + 1));
                j += 1;
            }
            r.push(cur);
            i += 1;
        }
        assert(r@.map_values(|v: Vec<char>| v@) =~= self.shingles_of(s@));
        r
    }
}

} // verus!
