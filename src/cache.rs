//! A bounded cache of decoded layered images, keyed by path. When it is
//! full, the next insertion empties it first.

use vstd::prelude::*;
use crate::layered::{load_psd_composite, spec_decode, DecodeError};
use crate::raster::RasterImage;
use crate::types::str_eq;

verus! {

/// Number of decoded images the cache holds at most.
pub const MAX_PSD_CACHE_ENTRIES: usize = 10;

/// One cached image: its path, size and RGBA bytes.
pub struct CacheEntry {
    pub path: String,
    pub image: RasterImage,
}

/// Decoded layered images by path, at most `MAX_PSD_CACHE_ENTRIES` of them.
pub struct PsdCache {
    entries: Vec<CacheEntry>,
}

/// What the cache holds for one path: width, height and bytes.
pub type CachedImage = (u32, u32, Seq<u8>);

impl PsdCache {
    /// The paths in insertion order with what each holds.
    pub closed spec fn view(&self) -> Seq<(Seq<char>, CachedImage)> {
        self.entries@.map_values(|e: CacheEntry| (e.path@, (e.image.width, e.image.height, e.image.data@)))
    }

    /// Paths are distinct and the bound holds.
    pub open spec fn wf(&self) -> bool {
        &&& self@.len() <= MAX_PSD_CACHE_ENTRIES
        &&& forall|i: int, j: int| 0 <= i < j < self@.len() ==> self@[i].0 != self@[j].0
    }

    /// What is cached for `path`, if anything.
    pub open spec fn lookup(&self, path: Seq<char>) -> Option<CachedImage> {
        lookup_in(self@, path)
    }

    pub fn new() -> (r: PsdCache)
        ensures
            r.wf(),
            r@.len() == 0,
    {
        PsdCache { entries: Vec::new() }
    }

    pub fn len(&self) -> (r: usize)
        ensures
            r == self@.len(),
    {
        self.entries.len()
    }

    /// Empties the cache.
    pub fn clear(&mut self)
        ensures
            final(self).wf(),
            final(self)@.len() == 0,
    {
        self.entries = Vec::new();
        assert(self@ =~= Seq::<(Seq<char>, CachedImage)>::empty());
    }

    fn find(&self, path: &str) -> (r: Option<usize>)
        ensures
            match r {
                Some(i) => i < self@.len() && self@[i as int].0 == path@,
                None => forall|i: int| 0 <= i < self@.len() ==> self@[i].0 != path@,
            },
    {
        let mut i: usize = 0;
        while i < self.entries.len()
            invariant
                i <= self@.len(),
                self@.len() == self.entries@.len(),
                forall|j: int| 0 <= j < i ==> self@[j].0 != path@,
            decreases self.entries.len() - i,
        {
            if str_eq(self.entries[i].path.as_str(), path) {
                return Some(i);
            }
            i = i + 1;
        }
        None
    }

    /// A copy of the image cached for `path`.
    pub fn get(&self, path: &str) -> (r: Option<RasterImage>)
        requires
            self.wf(),
        ensures
            match self.lookup(path@) {
                Some((w, h, d)) => r matches Some(img) && img.width == w && img.height == h && img.data@ == d,
                None => r is None,
            },
    {
        match self.find(path) {
            Some(i) => {
                proof {
                    lemma_lookup_at(self@, path@, i as int);
                }
                Some(self.entries[i].image.copy())
            },
            None => {
                proof {
                    lemma_lookup_absent(self@, path@);
                }
                None
            },
        }
    }

    /// Stores `image` under `path`, replacing what the path held. A full
    /// cache is emptied first, so it then holds this image alone.
    pub fn insert(&mut self, path: &str, image: RasterImage)
        requires
            old(self).wf(),
        ensures
            final(self).wf(),
            final(self).lookup(path@) == Some((image.width, image.height, image.data@)),
            old(self)@.len() >= MAX_PSD_CACHE_ENTRIES ==> final(self)@.len() == 1,
            old(self)@.len() < MAX_PSD_CACHE_ENTRIES ==> {
                &&& forall|p: Seq<char>| p != path@ ==> #[trigger] final(self).lookup(p) == old(self).lookup(p)
                &&& final(self)@.len() == old(self)@.len() + if old(self).lookup(path@) is Some { 0int } else { 1int }
            },
    {
        if self.entries.len() >= MAX_PSD_CACHE_ENTRIES {
            self.clear();
        }
        let ghost base = self@;
        let entry = CacheEntry { path: String::from_str(path), image };
        match self.find(path) {
            Some(i) => {
                self.entries.set(i, entry);
                proof {
                    assert(self@ =~= base.update(i as int, (path@, (image.width, image.height, image.data@))));
                    lemma_lookup_at(self@, path@, i as int);
                    lemma_lookup_at(base, path@, i as int);
                    assert forall|p: Seq<char>| p != path@ implies #[trigger] lookup_in(self@, p) == lookup_in(base, p) by {
                        lemma_lookup_update(base, i as int, (path@, (image.width, image.height, image.data@)), p);
                    }
                }
            },
            None => {
                self.entries.push(entry);
                proof {
                    assert(self@ =~= base.push((path@, (image.width, image.height, image.data@))));
                    lemma_lookup_absent(base, path@);
                    lemma_lookup_at(self@, path@, base.len() as int);
                    assert forall|p: Seq<char>| p != path@ implies #[trigger] lookup_in(self@, p) == lookup_in(base, p) by {
                        lemma_lookup_push(base, (path@, (image.width, image.height, image.data@)), p);
                    }
                }
            },
        }
    }
}

/// The value of the first entry whose path is `path`.
pub open spec fn lookup_in(s: Seq<(Seq<char>, CachedImage)>, path: Seq<char>) -> Option<CachedImage>
    decreases s.len(),
{
    if s.len() == 0 {
        None
    } else if s[0].0 == path {
        Some(s[0].1)
    } else {
        lookup_in(s.drop_first(), path)
    }
}

proof fn lemma_lookup_absent(s: Seq<(Seq<char>, CachedImage)>, path: Seq<char>)
    requires
        forall|i: int| 0 <= i < s.len() ==> s[i].0 != path,
    ensures
        lookup_in(s, path) is None,
    decreases s.len(),
{
    if s.len() > 0 {
        assert forall|i: int| 0 <= i < s.drop_first().len() implies s.drop_first()[i].0 != path by {
            assert(s.drop_first()[i] == s[i + 1]);
        }
        lemma_lookup_absent(s.drop_first(), path);
    }
}

proof fn lemma_lookup_at(s: Seq<(Seq<char>, CachedImage)>, path: Seq<char>, i: int)
    requires
        0 <= i < s.len(),
        s[i].0 == path,
        forall|a: int, b: int| 0 <= a < b < s.len() ==> s[a].0 != s[b].0,
    ensures
        lookup_in(s, path) == Some(s[i].1),
    decreases s.len(),
{
    if i > 0 {
        assert(s[0].0 != path);
        assert(s.drop_first()[i - 1] == s[i]);
        assert forall|a: int, b: int| 0 <= a < b < s.drop_first().len() implies s.drop_first()[a].0 != s.drop_first()[b].0 by {
            assert(s.drop_first()[a] == s[a + 1]);
            assert(s.drop_first()[b] == s[b + 1]);
        }
        lemma_lookup_at(s.drop_first(), path, i - 1);
    }
}

proof fn lemma_lookup_update(s: Seq<(Seq<char>, CachedImage)>, i: int, e: (Seq<char>, CachedImage), p: Seq<char>)
    requires
        0 <= i < s.len(),
        s[i].0 == e.0,
        p != e.0,
    ensures
        lookup_in(s.update(i, e), p) == lookup_in(s, p),
    decreases s.len(),
{
    if s.len() > 0 && i > 0 {
        assert(s.update(i, e).drop_first() =~= s.drop_first().update(i - 1, e));
        lemma_lookup_update(s.drop_first(), i - 1, e, p);
    }
    if i == 0 {
        assert(s.update(i, e).drop_first() =~= s.drop_first());
    }
}

proof fn lemma_lookup_push(s: Seq<(Seq<char>, CachedImage)>, e: (Seq<char>, CachedImage), p: Seq<char>)
    requires
        p != e.0,
    ensures
        lookup_in(s.push(e), p) == lookup_in(s, p),
    decreases s.len(),
{
    if s.len() > 0 {
        assert(s.push(e)[0] == s[0]);
        assert(s.push(e).drop_first() =~= s.drop_first().push(e));
        lemma_lookup_push(s.drop_first(), e, p);
    } else {
        assert(s.push(e)[0] == e);
        assert(s.push(e).drop_first() =~= Seq::<(Seq<char>, CachedImage)>::empty());
        assert(lookup_in(Seq::<(Seq<char>, CachedImage)>::empty(), p) is None);
    }
}

/// Empties the cache, as when another folder is opened.
pub fn clear_psd_cache(cache: &mut PsdCache)
    ensures
        final(cache).wf(),
        final(cache)@.len() == 0,
{
    cache.clear();
}

/// The cached image for `path`, or the composite decoded from `data` and
/// then cached under `path`.
pub fn get_or_cache_psd(cache: &mut PsdCache, path: &str, data: &[u8]) -> (r: Result<RasterImage, DecodeError>)
    requires
        old(cache).wf(),
    ensures
        final(cache).wf(),
        match old(cache).lookup(path@) {
            Some((w, h, d)) => r matches Ok(img) && img.width == w && img.height == h && img.data@ == d
                && final(cache)@ == old(cache)@,
            None => match spec_decode(data@) {
                Ok((w, h, d)) => r matches Ok(img) && img.width == w && img.height == h && img.data@ == d
                    && final(cache).lookup(path@) == Some((w, h, d))
                    && (old(cache)@.len() >= MAX_PSD_CACHE_ENTRIES ==> final(cache)@.len() == 1)
                    && (old(cache)@.len() < MAX_PSD_CACHE_ENTRIES ==> final(cache)@.len() == old(cache)@.len() + 1
                        && forall|p: Seq<char>| p != path@ ==> #[trigger] final(cache).lookup(p) == old(cache).lookup(p)),
                Err(e) => r == Err::<RasterImage, DecodeError>(e) && final(cache)@ == old(cache)@,
            },
        },
{
    if let Some(img) = cache.get(path) {
        return Ok(img);
    }
    let img = load_psd_composite(data)?;
    cache.insert(path, img.copy());
    Ok(img)
}

} // verus!
