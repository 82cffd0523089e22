//! The texture pool: decoded images keyed by the address they came from.
//! Entries are only added or replaced, never removed.
use vstd::prelude::*;

verus! {

/// A decoded image: `width` by `height` pixels, four bytes (red, green, blue,
/// alpha) per pixel, rows from the top.
pub struct DecodedImage {
    pub width: u32,
    pub height: u32,
    pub rgba: Vec<u8>,
}

impl DecodedImage {
    pub open spec fn wf(&self) -> bool {
        self.rgba@.len() == 4 * (self.width as int) * (self.height as int)
    }
}

/// What JPEG decoding makes of `bytes`: the width, the height and the RGBA
/// pixels, or `None` when the bytes are not a JPEG image.
pub uninterp spec fn jpeg_rgba(bytes: Seq<u8>) -> Option<(u32, u32, Seq<u8>)>;

/// Relies on `image::load_from_memory_with_format` to decode JPEG bytes (the
/// outcome depends on the bytes alone), and on `DynamicImage::to_rgba8`,
/// whose buffer holds exactly four bytes per pixel.
#[verifier::external_body]
fn load_jpeg(bytes: &[u8]) -> (r: Option<DecodedImage>)
    ensures
        match r {
            Some(img) => jpeg_rgba(bytes@) == Some((img.width, img.height, img.rgba@)),
            None => jpeg_rgba(bytes@) is None,
        },
        r matches Some(img) ==> img.wf(),
{
    match image::load_from_memory_with_format(bytes, image::ImageFormat::Jpeg) {
        Ok(img) => {
            let rgba = img.to_rgba8();
            let (width, height) = rgba.dimensions();
            Some(DecodedImage { width, height, rgba: rgba.into_raw() })
        },
        Err(_) => None,
    }
}

/// Decodes downloaded JPEG bytes into RGBA pixels; `None` when they are not
/// a valid image.
pub fn decode_image(bytes: &[u8]) -> (r: Option<DecodedImage>)
    ensures
        match r {
            Some(img) => jpeg_rgba(bytes@) == Some((img.width, img.height, img.rgba@)),
            None => jpeg_rgba(bytes@) is None,
        },
        r matches Some(img) ==> img.wf(),
{
    load_jpeg(bytes)
}

/// A mapping from image address to texture. `T` is whatever handle the
/// renderer keeps for a decoded image.
pub struct TexturePool<T> {
    entries: Vec<(String, T)>,
    contents: Ghost<Map<Seq<char>, T>>,
}

impl<T> View for TexturePool<T> {
    type V = Map<Seq<char>, T>;

    closed spec fn view(&self) -> Map<Seq<char>, T> {
        self.contents@
    }
}

impl<T> TexturePool<T> {
    spec fn keys(&self) -> Seq<Seq<char>> {
        self.entries@.map_values(|e: (String, T)| e.0@)
    }

    pub closed spec fn wf(&self) -> bool {
        &&& self.keys().no_duplicates()
        &&& self.contents@.dom() == self.keys().to_set()
        &&& forall|i: int|
            0 <= i < self.entries@.len() ==> #[trigger] self.contents@[self.entries@[i].0@]
                == self.entries@[i].1
    }

    /// An empty pool.
    pub fn new() -> (r: TexturePool<T>)
        ensures
            r.wf(),
            r@ == Map::<Seq<char>, T>::empty(),
    {
        let r = TexturePool { entries: Vec::new(), contents: Ghost(Map::empty()) };
        proof {
            assert(r.keys() =~= Seq::<Seq<char>>::empty());
            assert(r.keys().to_set() =~= Set::<Seq<char>>::empty());
        }
        r
    }

    /// Position of the entry for `url`, if there is one.
    fn find(&self, url: &String) -> (r: Option<usize>)
        requires
            self.wf(),
        ensures
            r matches Some(i) ==> i < self.entries@.len() && self.entries@[i as int].0@ == url@,
            r is None ==> !self@.contains_key(url@),
    {
        let mut i: usize = 0;
        while i < self.entries.len()
            invariant
                i <= self.entries@.len(),
                forall|j: int| 0 <= j < i ==> self.entries@[j].0@ != url@,
            decreases self.entries@.len() - i,
        {
            if self.entries[i].0 == *url {
                return Some(i);
            }
            i = i + 1;
        }
        proof {
            if self@.contains_key(url@) {
                assert(self.keys().to_set().contains(url@));
                let j = choose|j: int| 0 <= j < self.keys().len() && self.keys()[j] == url@;
                assert(self.entries@[j].0@ == url@);
            }
        }
        None
    }

    /// Whether a texture for `url` is in the pool.
    pub fn contains(&self, url: &String) -> (r: bool)
        requires
            self.wf(),
        ensures
            r == self@.contains_key(url@),
    {
        match self.find(url) {
            Some(i) => {
                proof {
                    assert(self.keys()[i as int] == url@);
                    assert(self.keys().to_set().contains(url@));
                }
                true
            },
            None => false,
        }
    }

    /// The texture for `url`, if it has arrived.
    pub fn get(&self, url: &String) -> (r: Option<&T>)
        requires
            self.wf(),
        ensures
            r is Some == self@.contains_key(url@),
            r matches Some(t) ==> *t == self@[url@],
    {
        match self.find(url) {
            Some(i) => {
                proof {
                    assert(self.keys()[i as int] == url@);
                    assert(self.keys().to_set().contains(url@));
                }
                Some(&self.entries[i].1)
            },
            None => None,
        }
    }

    /// Stores `texture` for `url`, replacing any texture it had.
    pub fn insert(&mut self, url: String, texture: T)
        requires
            old(self).wf(),
        ensures
            final(self).wf(),
            final(self)@ == old(self)@.insert(url@, texture),
    {
        let ghost old_keys = self.keys();
        let ghost key = url@;
        match self.find(&url) {
            Some(i) => {
                proof {
                    self.contents@ = self.contents@.insert(key, texture);
                }
                self.entries.set(i, (url, texture));
                proof {
                    assert(self.keys() =~= old_keys);
                    assert(old_keys[i as int] == key);
                    assert(old_keys.to_set().contains(key));
                    assert(self.contents@.dom() =~= self.keys().to_set());
                    assert forall|j: int| 0 <= j < self.entries@.len() implies #[trigger] self.contents@[
                        self.entries@[j].0@] == self.entries@[j].1 by {
                        if j != i as int {
                            assert(old_keys[j] != old_keys[i as int]);
                        }
                    }
                }
            },
            None => {
                proof {
                    self.contents@ = self.contents@.insert(key, texture);
                }
                self.entries.push((url, texture));
                proof {
                    assert(self.keys() =~= old_keys.push(key));
                    assert(!old_keys.contains(key)) by {
                        if old_keys.contains(key) {
                            assert(old_keys.to_set().contains(key));
                        }
                    }
                    assert(self.contents@.dom() =~= self.keys().to_set()) by {
                        assert forall|k: Seq<char>| self.keys().to_set().contains(k) <==> (
                        old_keys.to_set().contains(k) || k == key) by {
                            if old_keys.to_set().contains(k) {
                                let j = choose|j: int| 0 <= j < old_keys.len() && old_keys[j] == k;
                                assert(self.keys()[j] == k);
                            }
                            if self.keys().to_set().contains(k) && k != key {
                                let j = choose|j: int|
                                    0 <= j < self.keys().len() && self.keys()[j] == k;
                                assert(old_keys[j] == k);
                            }
                            if k == key {
                                assert(self.keys()[old_keys.len() as int] == k);
                            }
                        }
                    }
                    assert forall|j: int| 0 <= j < self.entries@.len() implies #[trigger] self.contents@[
                        self.entries@[j].0@] == self.entries@[j].1 by {
                        if j < old_keys.len() {
                            assert(old_keys[j] != key);
                        }
                    }
                }
            },
        }
    }

    /// Number of textures in the pool.
    pub fn len(&self) -> (r: usize)
        requires
            self.wf(),
        ensures
            r == self@.dom().len(),
    {
        proof {
            self.keys().unique_seq_to_set();
        }
        self.entries.len()
    }
}

} // verus!
