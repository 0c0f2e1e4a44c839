//! Native file-type icons: their in-memory cache, keyed by extension (or a
//! folder sentinel) and size, and the treatment of the pixels that the
//! platform hands back.

use vstd::prelude::*;
use vstd::string::*;
use crate::encoding::{base64_fits, base64_of, encode_base64};
use crate::naming::{extension_start, has_extension, last_dot, lemma_last_dot_bounds};
use crate::render::{encode_rgba_png, png_of_rgba};
use crate::text::{dec_of, decimal, lower_of, lowercase};

verus! {

/// The extension of a file name as `Path::extension` gives it, or nothing.
pub open spec fn extension_text(name: Seq<char>) -> Seq<char> {
    if has_extension(name) {
        name.subrange(last_dot(name) + 1, name.len() as int)
    } else {
        Seq::empty()
    }
}

/// The icon cache key of an entry: `__folder___<size>` for a directory,
/// `<lower-case extension>_<size>` for a file.
pub open spec fn icon_key_of(name: Seq<char>, is_dir: bool, size: u32) -> Seq<char> {
    if is_dir {
        "__folder___"@ + dec_of(size as nat)
    } else {
        lower_of(extension_text(name)) + "_"@ + dec_of(size as nat)
    }
}

/// The cache key of the icon of the entry called `name` at `size` pixels.
/// Files share their extension's icon, and directories one folder icon.
pub fn icon_cache_key(name: &str, is_dir: bool, size: u32) -> (r: String)
    ensures
        r@ == icon_key_of(name@, is_dir, size),
{
    if is_dir {
        let r = String::from_str("__folder___").concat(decimal(size as u64).as_str());
        assert(r@ =~= icon_key_of(name@, is_dir, size));
        return r;
    }
    let n = name.unicode_len();
    let ext = match extension_start(name) {
        Some(d) => {
            proof {
                lemma_last_dot_bounds(name@);
            }
            name.substring_char(d + 1, n)
        },
        None => "",
    };
    proof {
        reveal_strlit("");
        assert(ext@ =~= extension_text(name@));
    }
    let r = lowercase(ext).concat("_").concat(decimal(size as u64).as_str());
    assert(r@ =~= icon_key_of(name@, is_dir, size));
    r
}

/// Encoded icons by cache key, for the life of the process.
pub struct IconCache {
    keys: Vec<String>,
    icons: Vec<String>,
}

impl View for IconCache {
    type V = Map<Seq<char>, Seq<char>>;

    closed spec fn view(&self) -> Map<Seq<char>, Seq<char>> {
        Map::new(
            |k: Seq<char>| exists|i: int| 0 <= i < self.keys@.len() && self.keys@[i]@ == k,
            |k: Seq<char>|
                {
                    let i = choose|i: int| 0 <= i < self.keys@.len() && self.keys@[i]@ == k;
                    self.icons@[i]@
                },
        )
    }
}

impl IconCache {
    /// Keys are unique and each has its icon.
    pub closed spec fn wf(&self) -> bool {
        &&& self.keys@.len() == self.icons@.len()
        &&& forall|i: int, j: int|
            0 <= i < self.keys@.len() && 0 <= j < self.keys@.len() && i != j ==> self.keys@[i]@
                != self.keys@[j]@
    }

    fn position(&self, key: &String) -> (r: Option<usize>)
        requires
            self.wf(),
        ensures
            match r {
                Some(i) => i < self.keys@.len() && self.keys@[i as int]@ == key@,
                None => forall|i: int| 0 <= i < self.keys@.len() ==> self.keys@[i]@ != key@,
            },
    {
        let mut i: usize = 0;
        while i < self.keys.len()
            invariant
                i <= self.keys@.len(),
                forall|j: int| 0 <= j < i ==> self.keys@[j]@ != key@,
            decreases self.keys@.len() - i,
        {
            if self.keys[i] == *key {
                return Some(i);
            }
            i = i + 1;
        }
        None
    }

    /// The icon cached under `key`, if any.
    pub fn lookup(&self, key: &String) -> (r: Option<String>)
        requires
            self.wf(),
        ensures
            match r {
                Some(v) => self@.contains_key(key@) && v@ == self@[key@],
                None => !self@.contains_key(key@),
            },
    {
        match self.position(key) {
            Some(i) => {
                proof {
                    let j = choose|j: int| 0 <= j < self.keys@.len() && self.keys@[j]@ == key@;
                    assert(j == i);
                }
                Some(self.icons[i].clone())
            },
            None => None,
        }
    }

    /// Caches `icon` under `key`, replacing what was there.
    pub fn insert(&mut self, key: String, icon: String)
        requires
            old(self).wf(),
        ensures
            final(self).wf(),
            final(self)@ == old(self)@.insert(key@, icon@),
    {
        let ghost old_keys = self.keys@;
        let ghost old_icons = self.icons@;
        match self.position(&key) {
            Some(i) => {
                self.icons.set(i, icon);
                proof {
                    assert(self.keys@ == old_keys);
                    assert forall|k: Seq<char>| #[trigger]
                        self@.contains_key(k) == old(self)@.insert(key@, icon@).contains_key(k) by {}
                    assert forall|k: Seq<char>| self@.contains_key(k) implies #[trigger] self@[k]
                        == old(self)@.insert(key@, icon@)[k] by {
                        let j = choose|j: int| 0 <= j < self.keys@.len() && self.keys@[j]@ == k;
                        if k != key@ {
                            assert(j != i);
                            let j0 = choose|j0: int|
                                0 <= j0 < old_keys.len() && old_keys[j0]@ == k;
                            assert(j0 == j);
                        }
                    }
                    assert(self@ =~= old(self)@.insert(key@, icon@));
                }
            },
            None => {
                self.keys.push(key);
                self.icons.push(icon);
                proof {
                    let n = old_keys.len() as int;
                    assert forall|k: Seq<char>| #[trigger]
                        self@.contains_key(k) == old(self)@.insert(key@, icon@).contains_key(k) by {
                        if k == key@ {
                            assert(self.keys@[n]@ == k);
                        } else if old(self)@.contains_key(k) {
                            let j0 = choose|j0: int|
                                0 <= j0 < old_keys.len() && old_keys[j0]@ == k;
                            assert(self.keys@[j0]@ == k);
                        }
                    }
                    assert forall|k: Seq<char>| self@.contains_key(k) implies #[trigger] self@[k]
                        == old(self)@.insert(key@, icon@)[k] by {
                        let j = choose|j: int| 0 <= j < self.keys@.len() && self.keys@[j]@ == k;
                        if k == key@ {
                            assert(j == n);
                        } else {
                            let j0 = choose|j0: int|
                                0 <= j0 < old_keys.len() && old_keys[j0]@ == k;
                            assert(self.keys@[j0]@ == k);
                            assert(j0 == j);
                        }
                    }
                    assert(self@ =~= old(self)@.insert(key@, icon@));
                }
            },
        }
    }
}

/// A new, empty icon cache.
pub fn icon_cache() -> (r: IconCache)
    ensures
        r.wf(),
        r@ == Map::<Seq<char>, Seq<char>>::empty(),
{
    let r = IconCache { keys: Vec::new(), icons: Vec::new() };
    assert(r@ =~= Map::<Seq<char>, Seq<char>>::empty());
    r
}

/// Whether any whole four-byte pixel of `p` has a non-zero fourth byte.
pub open spec fn has_alpha(p: Seq<u8>) -> bool {
    exists|k: int| 0 <= k < p.len() / 4 && #[trigger] p[4 * k + 3] != 0
}

/// Blue-green-red-alpha pixels turned into red-green-blue-alpha: the first
/// and third byte of every whole pixel swap places, and when no pixel has
/// any alpha, every pixel becomes opaque. Bytes past the last whole pixel
/// stay as they are.
pub open spec fn rgba_of_bgra(p: Seq<u8>) -> Seq<u8> {
    Seq::new(
        p.len(),
        |i: int|
            if i >= 4 * (p.len() / 4) {
                p[i]
            } else if i % 4 == 0 {
                p[i + 2]
            } else if i % 4 == 2 {
                p[i - 2]
            } else if i % 4 == 3 && !has_alpha(p) {
                255u8
            } else {
                p[i]
            },
    )
}

/// Converts blue-green-red-alpha pixels in place, as `rgba_of_bgra` says.
pub fn bgra_to_rgba(pixels: &mut Vec<u8>)
    ensures
        final(pixels)@ == rgba_of_bgra(old(pixels)@),
{
    let ghost orig = pixels@;
    let n = pixels.len();
    let whole = n / 4 * 4;
    let mut i: usize = 0;
    let mut alpha = false;
    while i < whole
        invariant
            n == orig.len(),
            whole == 4 * (orig.len() / 4),
            i % 4 == 0,
            i <= whole,
            pixels@.len() == n,
            forall|j: int|
                0 <= j < i ==> #[trigger] pixels@[j] == (if j % 4 == 0 {
                    orig[j + 2]
                } else if j % 4 == 2 {
                    orig[j - 2]
                } else {
                    orig[j]
                }),
            forall|j: int| i <= j < n ==> #[trigger] pixels@[j] == orig[j],
            alpha == exists|k: int| 0 <= k < i / 4 && #[trigger] orig[4 * k + 3] != 0,
        decreases whole - i,
    {
        let b = pixels[i];
        let r = pixels[i + 2];
        pixels.set(i, r);
        pixels.set(i + 2, b);
        proof {
            if orig[i + 3] != 0 {
                assert(orig[4 * (i as int / 4) + 3] != 0);
            }
            if alpha {
                let k = choose|k: int| 0 <= k < i / 4 && #[trigger] orig[4 * k + 3] != 0;
                assert(0 <= k < (i + 4) / 4 && orig[4 * k + 3] != 0);
            }
            if exists|k: int| 0 <= k < (i + 4) / 4 && #[trigger] orig[4 * k + 3] != 0 {
                let k = choose|k: int| 0 <= k < (i + 4) / 4 && #[trigger] orig[4 * k + 3] != 0;
                if k < i / 4 {
                } else {
                    assert(k == i / 4);
                }
            }
        }
        alpha = alpha || pixels[i + 3] != 0;
        i = i + 4;
    }
    assert(alpha == has_alpha(orig));
    if !alpha {
        let mut k: usize = 0;
        while k < whole
            invariant
                n == orig.len(),
                whole == 4 * (orig.len() / 4),
                k % 4 == 0,
                k <= whole,
                pixels@.len() == n,
                !has_alpha(orig),
                forall|j: int|
                    0 <= j < k ==> #[trigger] pixels@[j] == rgba_of_bgra(orig)[j],
                forall|j: int|
                    k <= j < whole ==> #[trigger] pixels@[j] == (if j % 4 == 0 {
                        orig[j + 2]
                    } else if j % 4 == 2 {
                        orig[j - 2]
                    } else {
                        orig[j]
                    }),
                forall|j: int| whole <= j < n ==> #[trigger] pixels@[j] == orig[j],
            decreases whole - k,
        {
            pixels.set(k + 3, 255u8);
            k = k + 4;
        }
    }
    assert(pixels@ =~= rgba_of_bgra(orig));
}

/// What a platform's icon service handed back.
pub enum NativeIcon {
    /// An encoded PNG, ready to use.
    Png(Vec<u8>),
    /// A bitmap of blue-green-red-alpha pixels, top row first.
    Bitmap { width: u32, height: u32, bgra: Vec<u8> },
}

/// The PNG bytes of the icon a platform service handed back: `None` when it
/// handed back nothing, an empty PNG or an empty bitmap; a bitmap is turned
/// into RGBA (opaque if it carries no alpha at all) and encoded, and gives
/// `None` if its pixels do not fill it.
pub fn get_native_icon_bytes(capture: Option<NativeIcon>) -> (r: Option<Vec<u8>>)
    ensures
        capture is None ==> r is None,
        capture matches Some(NativeIcon::Png(b)) ==> r == (if b@.len() == 0 {
            None::<Vec<u8>>
        } else {
            Some(b)
        }),
        capture matches Some(NativeIcon::Bitmap { width, height, bgra }) ==> (r is Some <==> (
        width > 0 && height > 0 && 4 * width * height <= bgra@.len())),
        capture matches Some(NativeIcon::Bitmap { width, height, bgra }) ==> (r matches Some(p)
            ==> p@ == png_of_rgba(width, height, rgba_of_bgra(bgra@).take(4 * width * height))),
{
    match capture {
        None => None,
        Some(NativeIcon::Png(b)) => {
            if b.len() == 0 {
                None
            } else {
                Some(b)
            }
        },
        Some(NativeIcon::Bitmap { width, height, bgra }) => {
            if width == 0 || height == 0 {
                return None;
            }
            let mut pixels = bgra;
            bgra_to_rgba(&mut pixels);
            encode_rgba_png(width, height, pixels)
        },
    }
}

/// The size classes of the platform's system image lists.
#[derive(Clone, Copy, Debug, PartialEq, Eq, Structural)]
pub enum IconListSize {
    /// 32 x 32.
    Large,
    /// 48 x 48.
    ExtraLarge,
    /// 256 x 256.
    Jumbo,
}

/// The image lists to try for an icon of `size` pixels, best first.
pub open spec fn icon_lists_for(size: u32) -> Seq<IconListSize> {
    if size >= 64 {
        seq![IconListSize::Jumbo, IconListSize::ExtraLarge, IconListSize::Large]
    } else if size >= 40 {
        seq![IconListSize::ExtraLarge, IconListSize::Large]
    } else {
        seq![IconListSize::Large]
    }
}

/// The image lists to ask for an icon of `size` pixels, largest that suits
/// first, falling back to smaller ones.
pub fn icon_list_order(size: u32) -> (r: Vec<IconListSize>)
    ensures
        r@ == icon_lists_for(size),
{
    let r = if size >= 64 {
        vec![IconListSize::Jumbo, IconListSize::ExtraLarge, IconListSize::Large]
    } else if size >= 40 {
        vec![IconListSize::ExtraLarge, IconListSize::Large]
    } else {
        vec![IconListSize::Large]
    };
    assert(r@ =~= icon_lists_for(size));
    r
}

/// Finishes an icon request that missed the cache, given what the native
/// service produced: an icon is returned as base64 text and cached under
/// `key`; no icon gives `None` and leaves the cache as it was.
pub fn resolve_icon(cache: &mut IconCache, key: String, native: Option<Vec<u8>>) -> (r: Option<
    String,
>)
    requires
        old(cache).wf(),
        native matches Some(b) ==> base64_fits(b@.len()),
    ensures
        final(cache).wf(),
        match native {
            Some(b) => r matches Some(t) && t@ == base64_of(b@) && final(cache)@ == old(
                cache,
            )@.insert(key@, t@),
            None => r is None && final(cache)@ == old(cache)@,
        },
{
    match native {
        Some(b) => {
            let t = encode_base64(b.as_slice());
            let reply = t.clone();
            cache.insert(key, t);
            Some(reply)
        },
        None => None,
    }
}

/// Once an icon has been resolved for a key, every later request with that
/// key is answered from the cache with the same text.
pub proof fn lemma_resolved_icon_is_cached(cache: Map<Seq<char>, Seq<char>>, key: Seq<char>, icon: Seq<char>)
    ensures
        cache.insert(key, icon).contains_key(key),
        cache.insert(key, icon)[key] == icon,
{
}

} // verus!
