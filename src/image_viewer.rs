//! A viewer that preloads a fixed list of images and shows one at a time.
use vstd::prelude::*;

use crate::image_preload::{
    preload_step, preload_seq, str_views, AssetEntry, DecodeError, DecodedImage, TextureManager,
};

verus! {

/// An image list with a current position, backed by its own texture cache.
pub struct ImageViewer {
    x: i32,
    y: i32,
    width: u32,
    height: u32,
    cache: TextureManager,
    image_paths: Vec<String>,
    current_index: usize,
}

impl ImageViewer {
    /// The listed image paths, in order.
    pub closed spec fn paths(&self) -> Seq<Seq<char>> {
        self.image_paths@.map_values(|s: String| s@)
    }

    /// The position of the image shown.
    pub closed spec fn index(&self) -> nat {
        self.current_index as nat
    }

    /// The cache the images were loaded into.
    pub closed spec fn cache(&self) -> TextureManager {
        self.cache
    }

    pub closed spec fn wf(&self) -> bool {
        &&& self.cache.wf()
        &&& self.current_index < self.image_paths@.len() || (self.image_paths@.len() == 0
            && self.current_index == 0)
    }

    /// Loads `image_paths[i]` from `decoded[i]` for each `i`; the list keeps
    /// every path, including those whose image could not be cached.
    pub fn new(
        image_paths: &[&str],
        decoded: Vec<Result<DecodedImage, DecodeError>>,
        x: i32,
        y: i32,
        width: u32,
        height: u32,
    ) -> (r: Self)
        requires
            image_paths@.len() == decoded@.len(),
        ensures
            r.wf(),
            r.paths() == str_views(image_paths@),
            r.index() == 0,
            r.cache().entries() == preload_seq(
                Map::empty(),
                str_views(image_paths@),
                decoded@,
            ).0,
            r.origin() == (x, y),
            r.box_size() == (width, height),
    {
        let mut cache = TextureManager::new();
        let _ = cache.preload_each(image_paths, decoded);
        let mut paths: Vec<String> = Vec::new();
        let mut i: usize = 0;
        while i < image_paths.len()
            invariant
                i <= image_paths@.len(),
                paths@.len() == i,
                forall|j: int| 0 <= j < i ==> #[trigger] paths@[j]@ == image_paths@[j]@,
            decreases image_paths@.len() - i,
        {
            paths.push(image_paths[i].to_owned());
            i = i + 1;
        }
        let r = ImageViewer { x, y, width, height, cache, image_paths: paths, current_index: 0 };
        assert(r.paths() =~= str_views(image_paths@));
        r
    }

    /// The cache entry of the image shown, if it was cached.
    pub fn current_texture(&self) -> (r: Option<&AssetEntry>)
        requires
            self.wf(),
        ensures
            self.paths().len() == 0 ==> r is None,
            self.paths().len() > 0 ==> match r {
                Some(e) => self.cache().entries().contains_key(self.paths()[self.index() as int])
                    && e.id@ == self.paths()[self.index() as int] && e@ == self.cache().entries()[self.paths()[self.index() as int]],
                None => !self.cache().entries().contains_key(self.paths()[self.index() as int]),
            },
    {
        if self.image_paths.len() == 0 {
            return None;
        }
        self.cache.get(self.image_paths[self.current_index].as_str())
    }

    /// Moves to the next image, wrapping round; a list of one or none stays.
    pub fn next_image(&mut self)
        requires
            old(self).wf(),
        ensures
            final(self).wf(),
            final(self).paths() == old(self).paths(),
            final(self).cache() == old(self).cache(),
            final(self).index() == if old(self).paths().len() <= 1 {
                old(self).index()
            } else {
                ((old(self).index() + 1) % old(self).paths().len()) as nat
            },
            final(self).origin() == old(self).origin(),
            final(self).box_size() == old(self).box_size(),
    {
        if self.image_paths.len() <= 1 {
            return ;
        }
        self.current_index = (self.current_index + 1) % self.image_paths.len();
    }

    pub closed spec fn origin(&self) -> (i32, i32) {
        (self.x, self.y)
    }

    pub closed spec fn box_size(&self) -> (u32, u32) {
        (self.width, self.height)
    }

    /// The top-left corner of the viewer.
    pub fn position(&self) -> (r: (i32, i32))
        ensures
            r == self.origin(),
    {
        (self.x, self.y)
    }

    /// The box the images are stretched to.
    pub fn size(&self) -> (r: (u32, u32))
        ensures
            r == self.box_size(),
    {
        (self.width, self.height)
    }

    /// Shows the image at `index`; refused when there is none there.
    pub fn show_image_by_index(&mut self, index: usize) -> (r: bool)
        requires
            old(self).wf(),
        ensures
            final(self).wf(),
            r == (index < old(self).paths().len()),
            final(self).index() == if r { index as nat } else { old(self).index() },
            final(self).paths() == old(self).paths(),
            final(self).cache() == old(self).cache(),
            final(self).origin() == old(self).origin(),
            final(self).box_size() == old(self).box_size(),
    {
        if self.image_paths.len() == 0 || index >= self.image_paths.len() {
            return false;
        }
        self.current_index = index;
        true
    }

    /// Shows the first listed image whose path is `filename`; refused when
    /// none is.
    pub fn show_image_by_filename(&mut self, filename: &str) -> (r: bool)
        requires
            old(self).wf(),
        ensures
            final(self).wf(),
            r == old(self).paths().contains(filename@),
            r ==> final(self).index() < old(self).paths().len()
                && old(self).paths()[final(self).index() as int] == filename@ && forall|j: int|
                0 <= j < final(self).index() ==> old(self).paths()[j] != filename@,
            !r ==> final(self).index() == old(self).index(),
            final(self).paths() == old(self).paths(),
            final(self).cache() == old(self).cache(),
            final(self).origin() == old(self).origin(),
            final(self).box_size() == old(self).box_size(),
    {
        let key = filename.to_owned();
        let mut i: usize = 0;
        while i < self.image_paths.len()
            invariant
                *self == *old(self),
                self.wf(),
                key@ == filename@,
                i <= self.image_paths@.len(),
                forall|j: int| 0 <= j < i ==> self.paths()[j] != filename@,
            decreases self.image_paths@.len() - i,
        {
            if self.image_paths[i] == key {
                assert(self.paths()[i as int] == filename@);
                self.current_index = i;
                return true;
            }
            i = i + 1;
        }
        false
    }

    pub fn current_index(&self) -> (r: usize)
        ensures
            r == self.index(),
    {
        self.current_index
    }

    pub fn image_count(&self) -> (r: usize)
        ensures
            r == self.paths().len(),
    {
        self.image_paths.len()
    }

    /// The path of the image shown; nothing when the list is empty.
    pub fn current_filename(&self) -> (r: Option<&str>)
        requires
            self.wf(),
        ensures
            match r {
                Some(s) => self.paths().len() > 0 && s@ == self.paths()[self.index() as int],
                None => self.paths().len() == 0,
            },
    {
        if self.image_paths.len() == 0 {
            return None;
        }
        Some(self.image_paths[self.current_index].as_str())
    }

    /// Appends `path` to the list and caches it from `decoded`; refused,
    /// with nothing changed, when the path is listed already.
    pub fn add_image(&mut self, path: &str, decoded: Result<DecodedImage, DecodeError>) -> (r: bool)
        requires
            old(self).wf(),
        ensures
            final(self).wf(),
            r == !old(self).paths().contains(path@),
            r ==> final(self).paths() == old(self).paths().push(path@) && final(self).cache().entries()
                == preload_step(old(self).cache().entries(), path@, decoded).0,
            !r ==> final(self).paths() == old(self).paths() && final(self).cache() == old(self).cache(),
            final(self).index() == old(self).index(),
            final(self).origin() == old(self).origin(),
            final(self).box_size() == old(self).box_size(),
    {
        let key = path.to_owned();
        let mut i: usize = 0;
        while i < self.image_paths.len()
            invariant
                *self == *old(self),
                self.wf(),
                key@ == path@,
                i <= self.image_paths@.len(),
                forall|j: int| 0 <= j < i ==> self.paths()[j] != path@,
            decreases self.image_paths@.len() - i,
        {
            if self.image_paths[i] == key {
                assert(self.paths()[i as int] == path@);
                return false;
            }
            i = i + 1;
        }
        let _ = self.cache.preload(path, decoded);
        self.image_paths.push(key);
        assert(self.paths() =~= old(self).paths().push(path@));
        true
    }
}

} // verus!
