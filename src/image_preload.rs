//! A cache of decoded textures and their alpha masks, keyed by path, with
//! friendly-name aliases and a reserved blank entry.
use vstd::prelude::*;

use crate::alpha_mask::{generate_mask, mask_len, mask_of};
use macroquad::texture::Texture2D;

verus! {

/// Why an image could not be turned into a cache entry.
#[derive(Clone, Copy, Debug, PartialEq, Eq, Structural)]
pub enum DecodeError {
    /// The source could not be read.
    Unreadable,
    /// The source was read but does not hold a usable RGBA8 image.
    Malformed,
}

/// Why a lookup-based cache operation was refused.
#[derive(Clone, Copy, Debug, PartialEq, Eq, Structural)]
pub enum CacheError {
    /// The name or id does not resolve to a cached asset.
    UnknownAsset,
    /// Two argument lists that must pair up have different lengths.
    LengthMismatch,
}

/// An image as the decoder hands it over: its uploaded texture and its
/// RGBA8 pixels, row-major, four bytes per pixel.
pub struct DecodedImage {
    pub texture: Texture2D,
    pub width: u16,
    pub height: u16,
    pub bytes: Vec<u8>,
}

/// One cached asset.
pub struct AssetEntry {
    pub id: String,
    pub texture: Texture2D,
    pub width: u16,
    pub height: u16,
    pub mask: Vec<u8>,
}

/// What the cache records of an asset.
pub struct AssetView {
    pub texture: Texture2D,
    pub width: nat,
    pub height: nat,
    pub mask: Seq<u8>,
}

impl View for AssetEntry {
    type V = AssetView;

    open spec fn view(&self) -> AssetView {
        AssetView {
            texture: self.texture,
            width: self.width as nat,
            height: self.height as nat,
            mask: self.mask@,
        }
    }
}

impl AssetView {
    /// Positive dimensions and a mask of the matching length.
    pub open spec fn wf(&self) -> bool {
        self.width > 0 && self.height > 0 && self.mask.len() == mask_len((self.width * self.height) as int)
    }
}

/// A decoded image can be cached: positive dimensions and exactly four
/// bytes per pixel.
pub open spec fn decoded_ok(d: DecodedImage) -> bool {
    d.width > 0 && d.height > 0 && d.bytes@.len() == 4 * (d.width as int * d.height as int)
}

/// The entry a well-formed decoded image becomes.
pub open spec fn entry_from(d: DecodedImage) -> AssetView {
    AssetView {
        texture: d.texture,
        width: d.width as nat,
        height: d.height as nat,
        mask: mask_of(d.bytes@, d.width as int * d.height as int),
    }
}

/// The id of the blank entry; no file path can hold a NUL character.
pub open spec fn empty_key() -> Seq<char> {
    seq!['\0', 'e', 'm', 'p', 't', 'y']
}

/// The blank entry: one fully transparent pixel.
pub open spec fn empty_view(texture: Texture2D) -> AssetView {
    AssetView { texture, width: 1, height: 1, mask: seq![0u8] }
}

/// The outcome of preloading `path` from `d` into a cache holding `m`.
pub open spec fn preload_step(
    m: Map<Seq<char>, AssetView>,
    path: Seq<char>,
    d: Result<DecodedImage, DecodeError>,
) -> (Map<Seq<char>, AssetView>, Result<(), DecodeError>) {
    if m.contains_key(path) {
        (m, Ok(()))
    } else {
        match d {
            Err(e) => (m, Err(e)),
            Ok(img) => if decoded_ok(img) {
                (m.insert(path, entry_from(img)), Ok(()))
            } else {
                (m, Err(DecodeError::Malformed))
            },
        }
    }
}

/// Preloads each path in order, never stopping at a failure; yields the
/// final entries and the paths that failed, in order.
pub open spec fn preload_seq(
    m: Map<Seq<char>, AssetView>,
    paths: Seq<Seq<char>>,
    ds: Seq<Result<DecodedImage, DecodeError>>,
) -> (Map<Seq<char>, AssetView>, Seq<Seq<char>>)
    decreases paths.len(),
{
    if paths.len() == 0 || ds.len() == 0 {
        (m, seq![])
    } else {
        let (m1, failed) = preload_seq(m, paths.drop_last(), ds.drop_last());
        let (m2, r) = preload_step(m1, paths.last(), ds.last());
        (m2, if r is Err { failed.push(paths.last()) } else { failed })
    }
}

/// The alias table after registering `names[i] -> paths[i]` for each `i`
/// in order; a later pair for the same name wins.
pub open spec fn alias_seq(
    a: Map<Seq<char>, Seq<char>>,
    names: Seq<Seq<char>>,
    paths: Seq<Seq<char>>,
) -> Map<Seq<char>, Seq<char>>
    decreases names.len(),
{
    if names.len() == 0 || paths.len() == 0 {
        a
    } else {
        alias_seq(a, names.drop_last(), paths.drop_last()).insert(names.last(), paths.last())
    }
}

/// Resolution of a key: as an id first, then as an alias.
pub open spec fn resolve_key(
    entries: Map<Seq<char>, AssetView>,
    aliases: Map<Seq<char>, Seq<char>>,
    key: Seq<char>,
) -> Option<Seq<char>> {
    if entries.contains_key(key) {
        Some(key)
    } else if aliases.contains_key(key) {
        Some(aliases[key])
    } else {
        None
    }
}

pub open spec fn str_views(s: Seq<&str>) -> Seq<Seq<char>> {
    s.map_values(|x: &str| x@)
}

pub open spec fn string_views(s: Seq<String>) -> Seq<Seq<char>> {
    s.map_values(|x: String| x@)
}

/// The texture cache. Entries are never removed or changed once inserted.
pub struct TextureManager {
    textures: Vec<AssetEntry>,
    friendly_names: Vec<(String, String)>,
    entries: Ghost<Map<Seq<char>, AssetView>>,
    aliases: Ghost<Map<Seq<char>, Seq<char>>>,
}

impl TextureManager {
    /// The cached assets, by id.
    pub closed spec fn entries(&self) -> Map<Seq<char>, AssetView> {
        self.entries@
    }

    /// The alias table: friendly name to asset id.
    pub closed spec fn aliases(&self) -> Map<Seq<char>, Seq<char>> {
        self.aliases@
    }

    /// The id that `key` resolves to, if any.
    pub open spec fn resolves_to(&self, key: Seq<char>) -> Option<Seq<char>> {
        resolve_key(self.entries(), self.aliases(), key)
    }

    pub closed spec fn wf(&self) -> bool {
        &&& forall|i: int, j: int|
            0 <= i < j < self.textures@.len() ==> #[trigger] self.textures@[i].id@
                != #[trigger] self.textures@[j].id@
        &&& forall|i: int|
            0 <= i < self.textures@.len() ==> {
                &&& self.entries@.contains_key(#[trigger] self.textures@[i].id@)
                &&& self.entries@[self.textures@[i].id@] == self.textures@[i]@
            }
        &&& forall|k: Seq<char>|
            #[trigger] self.entries@.contains_key(k) ==> exists|i: int|
                0 <= i < self.textures@.len() && #[trigger] self.textures@[i].id@ == k
        &&& forall|k: Seq<char>| #[trigger]
            self.entries@.contains_key(k) ==> self.entries@[k].wf()
        &&& forall|i: int, j: int|
            0 <= i < j < self.friendly_names@.len() ==> #[trigger] self.friendly_names@[i].0@
                != #[trigger] self.friendly_names@[j].0@
        &&& forall|i: int|
            0 <= i < self.friendly_names@.len() ==> {
                &&& self.aliases@.contains_key(#[trigger] self.friendly_names@[i].0@)
                &&& self.aliases@[self.friendly_names@[i].0@] == self.friendly_names@[i].1@
            }
        &&& forall|k: Seq<char>|
            #[trigger] self.aliases@.contains_key(k) ==> exists|i: int|
                0 <= i < self.friendly_names@.len() && #[trigger] self.friendly_names@[i].0@ == k
        &&& forall|k: Seq<char>| #[trigger]
            self.aliases@.contains_key(k) ==> self.entries@.contains_key(self.aliases@[k])
    }

    /// Every alias points at a cached asset, and every cached asset is
    /// well formed.
    pub proof fn lemma_wf_facts(&self)
        requires
            self.wf(),
        ensures
            forall|k: Seq<char>| #[trigger]
                self.aliases().contains_key(k) ==> self.entries().contains_key(self.aliases()[k]),
            forall|k: Seq<char>| #[trigger] self.entries().contains_key(k) ==> self.entries()[k].wf(),
    {
    }

    /// An empty cache.
    pub fn new() -> (r: Self)
        ensures
            r.wf(),
            r.entries() == Map::<Seq<char>, AssetView>::empty(),
            r.aliases() == Map::<Seq<char>, Seq<char>>::empty(),
    {
        TextureManager {
            textures: Vec::new(),
            friendly_names: Vec::new(),
            entries: Ghost(Map::empty()),
            aliases: Ghost(Map::empty()),
        }
    }

    fn find_texture(&self, id: &String) -> (r: Option<usize>)
        requires
            self.wf(),
        ensures
            match r {
                Some(i) => i < self.textures@.len() && self.textures@[i as int].id@ == id@,
                None => !self.entries().contains_key(id@),
            },
    {
        let mut i: usize = 0;
        while i < self.textures.len()
            invariant
                self.wf(),
                i <= self.textures@.len(),
                forall|j: int| 0 <= j < i ==> self.textures@[j].id@ != id@,
            decreases self.textures@.len() - i,
        {
            if self.textures[i].id == *id {
                return Some(i);
            }
            i = i + 1;
        }
        None
    }

    fn find_name(&self, name: &String) -> (r: Option<usize>)
        requires
            self.wf(),
        ensures
            match r {
                Some(i) => i < self.friendly_names@.len() && self.friendly_names@[i as int].0@
                    == name@,
                None => !self.aliases().contains_key(name@),
            },
    {
        let mut i: usize = 0;
        while i < self.friendly_names.len()
            invariant
                self.wf(),
                i <= self.friendly_names@.len(),
                forall|j: int| 0 <= j < i ==> self.friendly_names@[j].0@ != name@,
            decreases self.friendly_names@.len() - i,
        {
            if self.friendly_names[i].0 == *name {
                return Some(i);
            }
            i = i + 1;
        }
        None
    }

    /// Whether an asset with id `path` is cached.
    pub fn is_texture_preloaded(&self, path: &str) -> (r: bool)
        requires
            self.wf(),
        ensures
            r == self.entries().contains_key(path@),
    {
        let key = path.to_owned();
        self.find_texture(&key).is_some()
    }

    /// Whether `name` is a registered alias.
    pub fn has_friendly_name(&self, name: &str) -> (r: bool)
        requires
            self.wf(),
        ensures
            r == self.aliases().contains_key(name@),
    {
        let key = name.to_owned();
        self.find_name(&key).is_some()
    }

    /// The asset id that alias `name` points at.
    pub fn get_path_for_name(&self, name: &str) -> (r: Option<String>)
        requires
            self.wf(),
        ensures
            match r {
                Some(p) => self.aliases().contains_key(name@) && p@ == self.aliases()[name@],
                None => !self.aliases().contains_key(name@),
            },
    {
        let key = name.to_owned();
        match self.find_name(&key) {
            Some(i) => Some(self.friendly_names[i].1.clone()),
            None => None,
        }
    }

    /// The asset cached under id `path`.
    pub fn get(&self, path: &str) -> (r: Option<&AssetEntry>)
        requires
            self.wf(),
        ensures
            match r {
                Some(e) => self.entries().contains_key(path@) && e.id@ == path@ && e@
                    == self.entries()[path@],
                None => !self.entries().contains_key(path@),
            },
    {
        let key = path.to_owned();
        match self.find_texture(&key) {
            Some(i) => Some(&self.textures[i]),
            None => None,
        }
    }

    /// The asset that alias `name` points at.
    pub fn get_by_name(&self, name: &str) -> (r: Option<&AssetEntry>)
        requires
            self.wf(),
        ensures
            match r {
                Some(e) => self.aliases().contains_key(name@) && e.id@ == self.aliases()[name@]
                    && self.entries().contains_key(self.aliases()[name@]) && e@ == self.entries()[self.aliases()[name@]],
                None => !self.aliases().contains_key(name@),
            },
    {
        let key = name.to_owned();
        match self.find_name(&key) {
            Some(i) => {
                let target = &self.friendly_names[i].1;
                match self.find_texture(target) {
                    Some(j) => Some(&self.textures[j]),
                    None => None,
                }
            },
            None => None,
        }
    }

    /// The asset a key names: an id if one matches, else an alias.
    pub fn resolve(&self, key: &str) -> (r: Option<&AssetEntry>)
        requires
            self.wf(),
        ensures
            match self.resolves_to(key@) {
                Some(id) => r is Some && r->0.id@ == id && self.entries().contains_key(id)
                    && r->0@ == self.entries()[id],
                None => r is None,
            },
    {
        match self.get(key) {
            Some(e) => Some(e),
            None => self.get_by_name(key),
        }
    }

    fn insert_entry(&mut self, e: AssetEntry)
        requires
            old(self).wf(),
            !old(self).entries().contains_key(e.id@),
            e@.wf(),
        ensures
            final(self).wf(),
            final(self).entries() == old(self).entries().insert(e.id@, e@),
            final(self).aliases() == old(self).aliases(),
    {
        let ghost id = e.id@;
        let ghost v = e@;
        self.entries = Ghost(self.entries@.insert(id, v));
        self.textures.push(e);
        assert(forall|i: int|
            0 <= i < old(self).textures@.len() ==> self.textures@[i] == old(self).textures@[i]);
        assert(self.textures@[old(self).textures@.len() as int]@ == v);
        assert forall|i: int, j: int|
            0 <= i < j < self.textures@.len() implies #[trigger] self.textures@[i].id@
                != #[trigger] self.textures@[j].id@ by {
            if j == old(self).textures@.len() {
                assert(old(self).entries@.contains_key(old(self).textures@[i].id@));
            }
        }
        assert forall|k: Seq<char>| #[trigger] self.aliases@.contains_key(k) implies exists|i: int|
            0 <= i < self.friendly_names@.len() && #[trigger] self.friendly_names@[i].0@ == k by {
            let i = choose|i: int|
                0 <= i < old(self).friendly_names@.len() && #[trigger] old(
                    self,
                ).friendly_names@[i].0@ == k;
            assert(self.friendly_names@[i].0@ == k);
        }
        assert forall|k: Seq<char>| #[trigger] self.entries@.contains_key(k) implies exists|i: int|
            0 <= i < self.textures@.len() && #[trigger] self.textures@[i].id@ == k by {
            if k == id {
                assert(self.textures@[self.textures@.len() - 1].id@ == k);
            } else {
                assert(old(self).entries@.contains_key(k));
                let i = choose|i: int|
                    0 <= i < old(self).textures@.len() && #[trigger] old(self).textures@[i].id@
                        == k;
                assert(self.textures@[i].id@ == k);
            }
        }
    }

    /// Caches the image decoded from `path` under that id, building its
    /// alpha mask. When `path` is already cached, the existing entry stays
    /// as it is and `decoded` is dropped.
    pub fn preload(&mut self, path: &str, decoded: Result<DecodedImage, DecodeError>) -> (r: Result<
        (),
        DecodeError,
    >)
        requires
            old(self).wf(),
        ensures
            final(self).wf(),
            (final(self).entries(), r) == preload_step(old(self).entries(), path@, decoded),
            old(self).entries().submap_of(final(self).entries()),
            final(self).aliases() == old(self).aliases(),
    {
        let key = path.to_owned();
        if self.find_texture(&key).is_some() {
            return Ok(());
        }
        match decoded {
            Err(e) => Err(e),
            Ok(img) => {
                let len = img.bytes.len();
                let w: u64 = img.width as u64;
                let h: u64 = img.height as u64;
                assert(w * h <= 0xffff * 0xffff) by (nonlinear_arith)
                    requires
                        w <= 0xffff,
                        h <= 0xffff,
                ;
                if w == 0 || h == 0 || (len as u64) != 4 * (w * h) {
                    return Err(DecodeError::Malformed);
                }
                let ghost d = img;
                let mask = generate_mask(img.width, img.height, &img.bytes);
                let e = AssetEntry {
                    id: key,
                    texture: img.texture,
                    width: img.width,
                    height: img.height,
                    mask,
                };
                assert(e@ == entry_from(d));
                self.insert_entry(e);
                Ok(())
            },
        }
    }

    /// Caches the blank entry under its reserved id, unless it is there.
    pub fn create_empty_texture(&mut self, texture: Texture2D)
        requires
            old(self).wf(),
        ensures
            final(self).wf(),
            final(self).entries() == if old(self).entries().contains_key(empty_key()) {
                old(self).entries()
            } else {
                old(self).entries().insert(empty_key(), empty_view(texture))
            },
            old(self).entries().submap_of(final(self).entries()),
            final(self).aliases() == old(self).aliases(),
    {
        let key = "\0empty".to_owned();
        proof {
            reveal_strlit("\0empty");
        }
        assert(key@ =~= empty_key());
        if self.find_texture(&key).is_some() {
            return ;
        }
        let e = AssetEntry { id: key, texture, width: 1, height: 1, mask: vec![0u8] };
        assert(e@.mask =~= seq![0u8]);
        self.insert_entry(e);
    }

    /// The blank entry, once created.
    pub fn get_empty_texture(&self) -> (r: Option<&AssetEntry>)
        requires
            self.wf(),
        ensures
            match r {
                Some(e) => self.entries().contains_key(empty_key()) && e.id@ == empty_key() && e@
                    == self.entries()[empty_key()],
                None => !self.entries().contains_key(empty_key()),
            },
    {
        proof {
            reveal_strlit("\0empty");
        }
        let r = self.get("\0empty");
        assert("\0empty"@ =~= empty_key());
        r
    }

    fn set_alias(&mut self, name: String, id: String)
        requires
            old(self).wf(),
            old(self).entries().contains_key(id@),
        ensures
            final(self).wf(),
            final(self).entries() == old(self).entries(),
            final(self).aliases() == old(self).aliases().insert(name@, id@),
    {
        let ghost n = name@;
        let ghost t = id@;
        let found = self.find_name(&name);
        self.aliases = Ghost(self.aliases@.insert(n, t));
        match found {
            Some(i) => {
                self.friendly_names.set(i, (name, id));
                assert forall|j: int, l: int|
                    0 <= j < l < self.friendly_names@.len() implies #[trigger] self.friendly_names@[j].0@
                        != #[trigger] self.friendly_names@[l].0@ by {
                    assert(old(self).friendly_names@[j].0@ != old(self).friendly_names@[l].0@);
                }
                assert forall|j: int| 0 <= j < self.friendly_names@.len() implies {
                    &&& self.aliases@.contains_key(#[trigger] self.friendly_names@[j].0@)
                    &&& self.aliases@[self.friendly_names@[j].0@] == self.friendly_names@[j].1@
                } by {
                    if j != i {
                        assert(self.friendly_names@[j] == old(self).friendly_names@[j]);
                        assert(old(self).aliases@.contains_key(old(self).friendly_names@[j].0@));
                        if j < i {
                            assert(old(self).friendly_names@[j].0@ != old(
                                self,
                            ).friendly_names@[i as int].0@);
                        } else {
                            assert(old(self).friendly_names@[i as int].0@ != old(
                                self,
                            ).friendly_names@[j].0@);
                        }
                    }
                }
                assert forall|k: Seq<char>| #[trigger] self.aliases@.contains_key(k) implies exists|
                    j: int,
                |
                    0 <= j < self.friendly_names@.len() && #[trigger] self.friendly_names@[j].0@
                        == k by {
                    if k == n {
                        assert(self.friendly_names@[i as int].0@ == k);
                    } else {
                        let j = choose|j: int|
                            0 <= j < old(self).friendly_names@.len() && #[trigger] old(
                                self,
                            ).friendly_names@[j].0@ == k;
                        assert(self.friendly_names@[j].0@ == k);
                    }
                }
            },
            None => {
                self.friendly_names.push((name, id));
                let ghost last = old(self).friendly_names@.len() as int;
                assert forall|j: int, l: int|
                    0 <= j < l < self.friendly_names@.len() implies #[trigger] self.friendly_names@[j].0@
                        != #[trigger] self.friendly_names@[l].0@ by {
                    if l == last {
                        assert(old(self).aliases@.contains_key(old(self).friendly_names@[j].0@));
                    } else {
                        assert(old(self).friendly_names@[j].0@ != old(self).friendly_names@[l].0@);
                    }
                }
                assert forall|j: int| 0 <= j < self.friendly_names@.len() implies {
                    &&& self.aliases@.contains_key(#[trigger] self.friendly_names@[j].0@)
                    &&& self.aliases@[self.friendly_names@[j].0@] == self.friendly_names@[j].1@
                } by {
                    if j < last {
                        assert(self.friendly_names@[j] == old(self).friendly_names@[j]);
                        assert(old(self).aliases@.contains_key(old(self).friendly_names@[j].0@));
                    }
                }
                assert forall|k: Seq<char>| #[trigger] self.aliases@.contains_key(k) implies exists|
                    j: int,
                |
                    0 <= j < self.friendly_names@.len() && #[trigger] self.friendly_names@[j].0@
                        == k by {
                    if k == n {
                        assert(self.friendly_names@[last].0@ == k);
                    } else {
                        let j = choose|j: int|
                            0 <= j < old(self).friendly_names@.len() && #[trigger] old(
                                self,
                            ).friendly_names@[j].0@ == k;
                        assert(self.friendly_names@[j].0@ == k);
                    }
                }
            },
        }
        assert forall|k: Seq<char>| #[trigger] self.entries@.contains_key(k) implies exists|i: int|
            0 <= i < self.textures@.len() && #[trigger] self.textures@[i].id@ == k by {
            let i = choose|i: int|
                0 <= i < old(self).textures@.len() && #[trigger] old(self).textures@[i].id@ == k;
            assert(self.textures@[i].id@ == k);
        }
    }

    /// Points alias `name` at asset `id`, replacing any earlier target of
    /// `name`. Refused when `id` is not cached.
    pub fn register_alias(&mut self, name: &str, id: &str) -> (r: Result<(), CacheError>)
        requires
            old(self).wf(),
        ensures
            final(self).wf(),
            final(self).entries() == old(self).entries(),
            old(self).entries().contains_key(id@) ==> r is Ok && final(self).aliases() == old(
                self,
            ).aliases().insert(name@, id@),
            !old(self).entries().contains_key(id@) ==> r == Err::<(), CacheError>(
                CacheError::UnknownAsset,
            ) && final(self).aliases() == old(self).aliases(),
    {
        let target = id.to_owned();
        if self.find_texture(&target).is_none() {
            return Err(CacheError::UnknownAsset);
        }
        self.set_alias(name.to_owned(), target);
        Ok(())
    }

    /// Registers `names[i] -> paths[i]` for every `i`, in order. Refused,
    /// with nothing registered, when the lists differ in length or some path
    /// is not cached.
    pub fn add_friendly_names(&mut self, names: &[&str], paths: &[&str]) -> (r: Result<
        (),
        CacheError,
    >)
        requires
            old(self).wf(),
        ensures
            final(self).wf(),
            final(self).entries() == old(self).entries(),
            names@.len() != paths@.len() ==> r == Err::<(), CacheError>(
                CacheError::LengthMismatch,
            ) && final(self).aliases() == old(self).aliases(),
            names@.len() == paths@.len() && (exists|i: int|
                0 <= i < paths@.len() && !old(self).entries().contains_key(#[trigger] paths@[i]@))
                ==> r == Err::<(), CacheError>(CacheError::UnknownAsset) && final(self).aliases()
                == old(self).aliases(),
            names@.len() == paths@.len() && (forall|i: int|
                0 <= i < paths@.len() ==> old(self).entries().contains_key(#[trigger] paths@[i]@))
                ==> r is Ok && final(self).aliases() == alias_seq(
                old(self).aliases(),
                str_views(names@),
                str_views(paths@),
            ),
    {
        if names.len() != paths.len() {
            return Err(CacheError::LengthMismatch);
        }
        let n = names.len();
        let mut i: usize = 0;
        while i < n
            invariant
                self.wf(),
                n == paths@.len(),
                n == names@.len(),
                i <= n,
                self.entries() == old(self).entries(),
                self.aliases() == old(self).aliases(),
                forall|j: int| 0 <= j < i ==> self.entries().contains_key(#[trigger] paths@[j]@),
            decreases n - i,
        {
            if !self.is_texture_preloaded(paths[i]) {
                return Err(CacheError::UnknownAsset);
            }
            i = i + 1;
        }
        let ghost a0 = self.aliases();
        let ghost ns = str_views(names@);
        let ghost ps = str_views(paths@);
        let mut i: usize = 0;
        while i < n
            invariant
                self.wf(),
                n == paths@.len(),
                n == names@.len(),
                ns == str_views(names@),
                ps == str_views(paths@),
                i <= n,
                self.entries() == old(self).entries(),
                forall|j: int| 0 <= j < n ==> self.entries().contains_key(#[trigger] paths@[j]@),
                self.aliases() == alias_seq(a0, ns.subrange(0, i as int), ps.subrange(0, i as int)),
            decreases n - i,
        {
            self.set_alias(names[i].to_owned(), paths[i].to_owned());
            assert(ns.subrange(0, i + 1).drop_last() =~= ns.subrange(0, i as int));
            assert(ps.subrange(0, i + 1).drop_last() =~= ps.subrange(0, i as int));
            i = i + 1;
        }
        assert(ns.subrange(0, n as int) =~= ns);
        assert(ps.subrange(0, n as int) =~= ps);
        Ok(())
    }

    /// Preloads `paths[i]` from `decoded[i]` for each `i` in order, going on
    /// past failures. Returns the paths that failed, in order.
    pub(crate) fn preload_each(
        &mut self,
        paths: &[&str],
        decoded: Vec<Result<DecodedImage, DecodeError>>,
    ) -> (failed: Vec<String>)
        requires
            old(self).wf(),
            paths@.len() == decoded@.len(),
        ensures
            final(self).wf(),
            old(self).entries().submap_of(final(self).entries()),
            final(self).aliases() == old(self).aliases(),
            (final(self).entries(), string_views(failed@)) == preload_seq(
                old(self).entries(),
                str_views(paths@),
                decoded@,
            ),
    {
        let ghost ps = str_views(paths@);
        let ghost ds = decoded@;
        let ghost m0 = self.entries();
        let n = paths.len();
        let mut rest = decoded;
        let mut failed: Vec<String> = Vec::new();
        let mut i: usize = 0;
        while i < n
            invariant
                self.wf(),
                n == paths@.len(),
                n == ds.len(),
                ps == str_views(paths@),
                i <= n,
                rest@ == ds.subrange(i as int, n as int),
                self.aliases() == old(self).aliases(),
                old(self).entries().submap_of(self.entries()),
                (self.entries(), string_views(failed@)) == preload_seq(
                    m0,
                    ps.subrange(0, i as int),
                    ds.subrange(0, i as int),
                ),
            decreases n - i,
        {
            let d = rest.remove(0);
            assert(d == ds[i as int]);
            let ghost before = self.entries();
            let r = self.preload(paths[i], d);
            assert forall|k: Seq<char>| #[trigger]
                old(self).entries().contains_key(k) implies self.entries().contains_key(k)
                && old(self).entries()[k] == self.entries()[k] by {
                assert(before.contains_key(k));
            }
            if r.is_err() {
                failed.push(paths[i].to_owned());
            }
            assert(ps.subrange(0, i + 1).drop_last() =~= ps.subrange(0, i as int));
            assert(ds.subrange(0, i + 1).drop_last() =~= ds.subrange(0, i as int));
            assert(rest@ =~= ds.subrange(i + 1, n as int));
            assert(string_views(failed@) =~= preload_seq(
                m0,
                ps.subrange(0, i + 1),
                ds.subrange(0, i + 1),
            ).1);
            i = i + 1;
        }
        assert(ps.subrange(0, n as int) =~= ps);
        assert(ds.subrange(0, n as int) =~= ds);
        failed
    }

    /// Preloads `paths[i]` from `decoded[i]` for each `i` in order, going on
    /// past failures, then creates the blank entry from `blank` if missing.
    /// Returns the paths that failed, in order.
    pub fn preload_all(
        &mut self,
        paths: &[&str],
        decoded: Vec<Result<DecodedImage, DecodeError>>,
        blank: Texture2D,
    ) -> (failed: Vec<String>)
        requires
            old(self).wf(),
            paths@.len() == decoded@.len(),
        ensures
            final(self).wf(),
            old(self).entries().submap_of(final(self).entries()),
            final(self).aliases() == old(self).aliases(),
            ({
                let (m, f) = preload_seq(old(self).entries(), str_views(paths@), decoded@);
                &&& string_views(failed@) == f
                &&& final(self).entries() == if m.contains_key(empty_key()) {
                    m
                } else {
                    m.insert(empty_key(), empty_view(blank))
                }
            }),
    {
        let failed = self.preload_each(paths, decoded);
        self.create_empty_texture(blank);
        failed
    }

    /// The ids of all cached assets, each once, in no particular order.
    pub fn get_texture_paths(&self) -> (r: Vec<String>)
        requires
            self.wf(),
        ensures
            string_views(r@).no_duplicates(),
            forall|k: Seq<char>| self.entries().contains_key(k) <==> string_views(r@).contains(k),
    {
        let mut r: Vec<String> = Vec::new();
        let mut i: usize = 0;
        while i < self.textures.len()
            invariant
                self.wf(),
                i <= self.textures@.len(),
                r@.len() == i,
                forall|j: int| 0 <= j < i ==> #[trigger] r@[j]@ == self.textures@[j].id@,
            decreases self.textures@.len() - i,
        {
            r.push(self.textures[i].id.clone());
            i = i + 1;
        }
        let ghost v = string_views(r@);
        assert forall|k: Seq<char>| self.entries().contains_key(k) implies v.contains(k) by {
            let j = choose|j: int| 0 <= j < self.textures@.len() && #[trigger] self.textures@[j].id@ == k;
            assert(v[j] == k);
        }
        assert forall|k: Seq<char>| v.contains(k) implies self.entries().contains_key(k) by {
            let j = choose|j: int| 0 <= j < v.len() && v[j] == k;
            assert(self.textures@[j].id@ == k);
        }
        assert forall|a: int, b: int| 0 <= a < v.len() && 0 <= b < v.len() && a != b implies v[a] != v[b] by {
            if a < b {
                assert(self.textures@[a].id@ != self.textures@[b].id@);
            } else {
                assert(self.textures@[b].id@ != self.textures@[a].id@);
            }
        }
        r
    }

    /// The registered alias names, each once, in no particular order.
    pub fn get_friendly_names(&self) -> (r: Vec<String>)
        requires
            self.wf(),
        ensures
            string_views(r@).no_duplicates(),
            forall|k: Seq<char>| self.aliases().contains_key(k) <==> string_views(r@).contains(k),
    {
        let mut r: Vec<String> = Vec::new();
        let mut i: usize = 0;
        while i < self.friendly_names.len()
            invariant
                self.wf(),
                i <= self.friendly_names@.len(),
                r@.len() == i,
                forall|j: int| 0 <= j < i ==> #[trigger] r@[j]@ == self.friendly_names@[j].0@,
            decreases self.friendly_names@.len() - i,
        {
            r.push(self.friendly_names[i].0.clone());
            i = i + 1;
        }
        let ghost v = string_views(r@);
        assert forall|k: Seq<char>| self.aliases().contains_key(k) implies v.contains(k) by {
            let j = choose|j: int|
                0 <= j < self.friendly_names@.len() && #[trigger] self.friendly_names@[j].0@ == k;
            assert(v[j] == k);
        }
        assert forall|k: Seq<char>| v.contains(k) implies self.aliases().contains_key(k) by {
            let j = choose|j: int| 0 <= j < v.len() && v[j] == k;
            assert(self.friendly_names@[j].0@ == k);
        }
        assert forall|a: int, b: int| 0 <= a < v.len() && 0 <= b < v.len() && a != b implies v[a] != v[b] by {
            if a < b {
                assert(self.friendly_names@[a].0@ != self.friendly_names@[b].0@);
            } else {
                assert(self.friendly_names@[b].0@ != self.friendly_names@[a].0@);
            }
        }
        r
    }
}

/// Preloading an id that was just preloaded successfully changes nothing,
/// whatever the second decode produced: the entry keeps its texture and mask.
pub proof fn lemma_preload_idempotent(
    m: Map<Seq<char>, AssetView>,
    path: Seq<char>,
    first: Result<DecodedImage, DecodeError>,
    second: Result<DecodedImage, DecodeError>,
)
    requires
        preload_step(m, path, first).1 is Ok,
    ensures
        preload_step(m, path, first).0.contains_key(path),
        preload_step(preload_step(m, path, first).0, path, second) == (
            preload_step(m, path, first).0,
            Ok::<(), DecodeError>(()),
        ),
{
}

/// An alias that does not shadow an id resolves to the same asset as the id
/// it points at.
pub proof fn lemma_alias_resolves_like_target(cache: &TextureManager, name: Seq<char>)
    requires
        cache.wf(),
        cache.aliases().contains_key(name),
        !cache.entries().contains_key(name),
    ensures
        cache.resolves_to(name) == cache.resolves_to(cache.aliases()[name]),
        cache.resolves_to(name) == Some(cache.aliases()[name]),
{
    cache.lemma_wf_facts();
}

} // verus!
