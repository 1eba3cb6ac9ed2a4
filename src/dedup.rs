//! Text in, similar earlier documents out: a shingler configuration and a
//! candidate index kept in step, with signatures of the configured size.

use crate::index::{Hit, LSH, Threshold};
use crate::sketch::{ConfigError, Shingler};
use vstd::prelude::*;

verus! {

/// A candidate index whose signatures all come from one sketching
/// configuration, so that every stored signature has the configured size.
pub struct Deduplicator {
    lsh: LSH,
    shingler: Shingler,
}

impl Deduplicator {
    /// The candidate index.
    pub closed spec fn index(&self) -> LSH {
        self.lsh
    }

    /// The shingling configuration.
    pub closed spec fn config(&self) -> Shingler {
        self.shingler
    }

    /// Both parts are well formed and every stored signature has the configured size.
    pub open spec fn wf(&self) -> bool {
        &&& self.index().wf()
        &&& self.config().wf()
        &&& forall|p: int|
            0 <= p < self.index().sigs().len() ==> #[trigger] self.index().sigs()[p].len()
                == self.config().slot_count()
    }

    /// An empty index with the given sketching configuration.
    pub fn new(
        size: usize,
        n_gram: usize,
        lowercase: bool,
        unicode_normalize: bool,
        zh_conv: bool,
        punct_norm: bool,
    ) -> (r: Result<Deduplicator, ConfigError>)
        requires
            size <= u32::MAX,
        ensures
            size == 0 ==> r == Err::<Deduplicator, ConfigError>(ConfigError::SizeZero),
            size > 0 && n_gram == 0 ==> r == Err::<Deduplicator, ConfigError>(
                ConfigError::NGramZero,
            ),
            r is Ok <==> size > 0 && n_gram > 0,
            r matches Ok(d) ==> {
                &&& d.wf()
                &&& d.index().sigs().len() == 0
                &&& d.index().names().len() == 0
                &&& d.config().slot_count() == size
                &&& d.config().n() == n_gram
                &&& d.config().options() == (lowercase, unicode_normalize, zh_conv, punct_norm)
            },
    {
        match Shingler::new(size, n_gram, lowercase, unicode_normalize, zh_conv, punct_norm) {
            Ok(shingler) => Ok(Deduplicator { lsh: LSH::new(), shingler }),
            Err(e) => Err(e),
        }
    }

    /// Number of slots of each signature.
    pub fn size(&self) -> (r: usize)
        ensures
            r == self.config().slot_count(),
    {
        self.shingler.size()
    }

    /// The shingles of `text`, for the accumulator that makes its signature.
    pub fn shingles(&self, text: String) -> (r: Vec<Vec<char>>)
        requires
            self.wf(),
        ensures
            r@.map_values(|v: Vec<char>| v@) == self.config().shingles_of(text@),
    {
        self.shingler.shingles(text)
    }

    /// With `add`, `check_and_add` on the index; without, a plain `check`.
    /// `signature` is the signature of the new document's text.
    pub fn check_and_add(
        &mut self,
        new_id: &str,
        signature: Vec<u32>,
        threshold: Threshold,
        add: bool,
        add_if_dup: bool,
    ) -> (r: Vec<Hit>)
        requires
            old(self).wf(),
            signature@.len() == old(self).config().slot_count(),
            threshold.den > 0,
        ensures
            final(self).wf(),
            final(self).config() == old(self).config(),
            old(self).index().reports(signature@, threshold, r@),
            add ==> LSH::checked_then_added(
                old(self).index(),
                final(self).index(),
                new_id@,
                signature@,
                threshold,
                add_if_dup,
                r@,
            ),
            !add ==> final(self).index() == old(self).index(),
    {
        if add {
            let ghost before = self.lsh;
            let r = self.lsh.check_and_add(new_id, signature, threshold, add_if_dup);
            assert forall|p: int|
                0 <= p < self.lsh.sigs().len() implies #[trigger] self.lsh.sigs()[p].len()
                    == self.shingler.slot_count() by {
                if p < before.sigs().len() {
                    assert(self.lsh.sigs()[p] == before.sigs()[p]);
                }
            }
            r
        } else {
            self.lsh.check(signature.as_slice(), threshold)
        }
    }

    /// The stored ids, in insertion order.
    pub fn keys(&self) -> (r: Vec<String>)
        ensures
            r@.map_values(|s: String| s@) == self.index().names(),
    {
        self.lsh.keys()
    }

    /// The stored signatures, in insertion order.
    pub fn values(&self) -> (r: Vec<Vec<u32>>)
        ensures
            r@.map_values(|h: Vec<u32>| h@) == self.index().sigs(),
    {
        self.lsh.values()
    }

    /// Number of stored documents.
    pub fn length(&self) -> (r: usize)
        requires
            self.wf(),
        ensures
            r == self.index().sigs().len(),
    {
        self.lsh.length()
    }
}

} // verus!
