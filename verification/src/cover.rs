//! Covers: the cache of downloaded cover images, and the generative cover
//! style used when no image is available.

use vstd::prelude::*;
use vstd::string::{StringExecFns, StringSliceAdditionalSpecFns};
use vstd::utf8::encode_utf8;

use crate::chars::{push_str, str_eq};
use crate::hash::{fnv1a, fnv1a_32};
use crate::image_format::{sniff, sniffed, ImageKind};
use crate::model::LibraryItem;

verus! {

// ── Cover cache ─────────────────────────────────────────────────────────────

/// Encoded cover bytes with the format they were sniffed as, ready to hand
/// to the renderer's image decoder.
#[derive(Clone, Debug)]
pub struct CoverImage {
    pub format: ImageKind,
    pub bytes: Vec<u8>,
}

/// What a cached cover is: its format and bytes.
pub type CoverView = (ImageKind, Seq<u8>);

/// In-memory cache of cover images keyed by item id, with the ids whose
/// download is in flight. Each id has at most one image and appears at most
/// once among the in-flight ids.
pub struct CoverCache {
    images: Vec<(String, CoverImage)>,
    in_flight: Vec<String>,
}

impl CoverCache {
    /// Ids are unique among the images and among the in-flight ids.
    pub closed spec fn wf(&self) -> bool {
        &&& forall|i: int, j: int|
            0 <= i < j < self.images@.len() ==> (#[trigger] self.images@[i]).0@ != (
            #[trigger] self.images@[j]).0@
        &&& forall|i: int, j: int|
            0 <= i < j < self.in_flight@.len() ==> (#[trigger] self.in_flight@[i])@ != (
            #[trigger] self.in_flight@[j])@
    }

    /// Whether an image is cached for `id`.
    pub closed spec fn has_image(&self, id: Seq<char>) -> bool {
        exists|i: int| 0 <= i < self.images@.len() && (#[trigger] self.images@[i]).0@ == id
    }

    /// The image cached for `id` (meaningful when `has_image`).
    pub closed spec fn image_for(&self, id: Seq<char>) -> CoverView {
        let i = choose|i: int| 0 <= i < self.images@.len() && (#[trigger] self.images@[i]).0@ == id;
        (self.images@[i].1.format, self.images@[i].1.bytes@)
    }

    /// The cover cached for `id`, if any.
    pub open spec fn cached(&self, id: Seq<char>) -> Option<CoverView> {
        if self.has_image(id) {
            Some(self.image_for(id))
        } else {
            None
        }
    }

    /// Whether a download is marked in flight for `id`.
    pub closed spec fn in_flight(&self, id: Seq<char>) -> bool {
        exists|i: int| 0 <= i < self.in_flight@.len() && (#[trigger] self.in_flight@[i])@ == id
    }

    /// Returns a new, empty cache.
    pub fn new() -> (c: CoverCache)
        ensures
            c.wf(),
            forall|id: Seq<char>| (#[trigger] c.cached(id)).is_none(),
            forall|id: Seq<char>| !#[trigger] c.in_flight(id),
    {
        CoverCache { images: Vec::new(), in_flight: Vec::new() }
    }

    fn image_index(&self, id: &str) -> (r: Option<usize>)
        requires
            self.wf(),
        ensures
            match r {
                Some(i) => i < self.images@.len() && self.images@[i as int].0@ == id@,
                None => !self.has_image(id@),
            },
    {
        let mut i: usize = 0;
        while i < self.images.len()
            invariant
                i <= self.images@.len(),
                forall|k: int| 0 <= k < i ==> (#[trigger] self.images@[k]).0@ != id@,
            decreases self.images@.len() - i,
        {
            if str_eq(self.images[i].0.as_str(), id) {
                return Some(i);
            }
            i = i + 1;
        }
        None
    }

    /// Returns the cached cover for `id`, if present.
    pub fn get(&self, id: &str) -> (r: Option<&CoverImage>)
        requires
            self.wf(),
        ensures
            match r {
                Some(img) => self.cached(id@) == Some((img.format, img.bytes@)),
                None => self.cached(id@).is_none(),
            },
    {
        match self.image_index(id) {
            Some(i) => {
                proof {
                    let j = choose|j: int|
                        0 <= j < self.images@.len() && (#[trigger] self.images@[j]).0@ == id@;
                    assert(j == i as int) by {
                        if j < i as int {
                            assert(self.images@[j].0@ != self.images@[i as int].0@);
                        } else if j > i as int {
                            assert(self.images@[i as int].0@ != self.images@[j].0@);
                        }
                    }
                }
                Some(&self.images[i].1)
            },
            None => None,
        }
    }

    /// Returns `true` if a download is in flight for `id`.
    pub fn is_in_flight(&self, id: &str) -> (r: bool)
        ensures
            r == self.in_flight(id@),
    {
        let mut i: usize = 0;
        while i < self.in_flight.len()
            invariant
                i <= self.in_flight@.len(),
                forall|k: int| 0 <= k < i ==> (#[trigger] self.in_flight@[k])@ != id@,
            decreases self.in_flight@.len() - i,
        {
            if str_eq(self.in_flight[i].as_str(), id) {
                return true;
            }
            i = i + 1;
        }
        false
    }

    /// Marks `id` as having an in-flight download.
    pub fn mark_in_flight(&mut self, id: &str)
        requires
            old(self).wf(),
        ensures
            final(self).wf(),
            forall|k: Seq<char>| #[trigger] final(self).in_flight(k) == (old(self).in_flight(k) || k == id@),
            forall|k: Seq<char>| #[trigger] final(self).cached(k) == old(self).cached(k),
    {
        if !self.is_in_flight(id) {
            let ghost before = self.in_flight@;
            let ghost imgs = self.images@;
            self.in_flight.push(String::from_str(id));
            assert forall|k: Seq<char>| #[trigger] self.in_flight(k) == (old(self).in_flight(k) || k == id@) by {
                if old(self).in_flight(k) {
                    let i = choose|i: int| 0 <= i < before.len() && (#[trigger] before[i])@ == k;
                    assert(self.in_flight@[i] == before[i]);
                }
                if k == id@ {
                    assert(self.in_flight@[before.len() as int]@ == id@);
                }
            }
            assert(self.images@ == imgs);
        }
    }

    /// Removes `id` from the in-flight ids.
    fn clear_in_flight(&mut self, id: &str)
        requires
            old(self).wf(),
        ensures
            final(self).wf(),
            forall|k: Seq<char>| #[trigger] final(self).in_flight(k) == (old(self).in_flight(k) && k != id@),
            final(self).images@ == old(self).images@,
    {
        let ghost before = self.in_flight@;
        let mut i: usize = 0;
        while i < self.in_flight.len()
            invariant
                self.in_flight@ == before,
                old(self).in_flight@ == before,
                self.images@ == old(self).images@,
                self.wf(),
                i <= before.len(),
                forall|k: int| 0 <= k < i ==> (#[trigger] before[k])@ != id@,
            decreases before.len() - i,
        {
            if str_eq(self.in_flight[i].as_str(), id) {
                self.in_flight.remove(i);
                let ghost after = self.in_flight@;
                assert(after == before.remove(i as int));
                assert forall|k: Seq<char>| #[trigger] self.in_flight(k) == (old(self).in_flight(k) && k != id@) by {
                    if old(self).in_flight(k) && k != id@ {
                        let j = choose|j: int| 0 <= j < before.len() && (#[trigger] before[j])@ == k;
                        if j < i as int {
                            assert(after[j] == before[j]);
                        } else {
                            assert(j != i as int);
                            assert(after[j - 1] == before[j]);
                        }
                    }
                    if self.in_flight(k) {
                        let j = choose|j: int| 0 <= j < after.len() && (#[trigger] after[j])@ == k;
                        if j < i as int {
                            assert(after[j] == before[j]);
                            assert(before[j]@ != before[i as int]@);
                        } else {
                            assert(after[j] == before[j + 1]);
                            assert(before[i as int]@ != before[j + 1]@);
                        }
                    }
                }
                assert forall|a: int, b: int| 0 <= a < b < after.len() implies (#[trigger] after[a])@
                    != (#[trigger] after[b])@ by {
                    let a0 = if a < i as int { a } else { a + 1 };
                    let b0 = if b < i as int { b } else { b + 1 };
                    assert(after[a] == before[a0]);
                    assert(after[b] == before[b0]);
                    assert(before[a0]@ != before[b0]@);
                }
                return;
            }
            i = i + 1;
        }
        assert forall|k: Seq<char>| #[trigger] self.in_flight(k) == (old(self).in_flight(k) && k != id@) by {
            if self.in_flight(k) {
                let j = choose|j: int| 0 <= j < before.len() && (#[trigger] before[j])@ == k;
                assert(before[j]@ != id@);
            }
        }
    }

    /// Stores encoded image bytes for `id`, sniffing their format, and clears
    /// its in-flight marker.
    pub fn insert(&mut self, id: &str, bytes: Vec<u8>)
        requires
            old(self).wf(),
        ensures
            final(self).wf(),
            forall|k: Seq<char>| #[trigger] final(self).cached(k) == if k == id@ {
                Some((sniffed(bytes@), bytes@))
            } else {
                old(self).cached(k)
            },
            forall|k: Seq<char>| #[trigger] final(self).in_flight(k) == (old(self).in_flight(k) && k != id@),
    {
        self.clear_in_flight(id);
        let ghost mid = *self;
        let ghost b = bytes@;
        let format = sniff(bytes.as_slice());
        let entry = (String::from_str(id), CoverImage { format, bytes });
        let ghost before = self.images@;
        let ghost flight = self.in_flight@;
        match self.image_index(id) {
            Some(i) => {
                self.images.set(i, entry);
                let ghost after = self.images@;
                assert(self.in_flight@ == flight);
                assert forall|k: Seq<char>| #[trigger] self.cached(k) == if k == id@ {
                    Some((sniffed(b), b))
                } else {
                    mid.cached(k)
                } by {
                    if k == id@ {
                        assert(after[i as int].0@ == k);
                        let j = choose|j: int| 0 <= j < after.len() && (#[trigger] after[j]).0@ == k;
                        if j != i as int {
                            assert(before[j].0@ == before[i as int].0@);
                            if j < i as int {
                                assert(before[j].0@ != before[i as int].0@);
                            } else {
                                assert(before[i as int].0@ != before[j].0@);
                            }
                        }
                    } else {
                        if mid.has_image(k) {
                            let j = choose|j: int| 0 <= j < before.len() && (#[trigger] before[j]).0@ == k;
                            assert(after[j] == before[j]);
                            let j2 = choose|j2: int| 0 <= j2 < after.len() && (#[trigger] after[j2]).0@ == k;
                            assert(j2 != i as int);
                            assert(before[j2] == after[j2]);
                            if j < j2 {
                                assert(before[j].0@ != before[j2].0@);
                            } else if j2 < j {
                                assert(before[j2].0@ != before[j].0@);
                            }
                        }
                        if self.has_image(k) {
                            let j = choose|j: int| 0 <= j < after.len() && (#[trigger] after[j]).0@ == k;
                            assert(j != i as int);
                            assert(before[j] == after[j]);
                        }
                    }
                }
                assert forall|a: int, c: int| 0 <= a < c < after.len() implies (#[trigger] after[a]).0@
                    != (#[trigger] after[c]).0@ by {
                    if a != i as int && c != i as int {
                        assert(before[a] == after[a] && before[c] == after[c]);
                    } else if a == i as int {
                        assert(before[c] == after[c]);
                        assert(before[a].0@ != before[c].0@);
                    } else {
                        assert(before[a] == after[a]);
                        assert(before[a].0@ != before[c].0@);
                    }
                }
            },
            None => {
                self.images.push(entry);
                let ghost after = self.images@;
                assert(self.in_flight@ == flight);
                let ghost n = before.len() as int;
                assert(after[n].0@ == id@);
                assert forall|k: Seq<char>| #[trigger] self.cached(k) == if k == id@ {
                    Some((sniffed(b), b))
                } else {
                    mid.cached(k)
                } by {
                    if k == id@ {
                        let j = choose|j: int| 0 <= j < after.len() && (#[trigger] after[j]).0@ == k;
                        if j < n {
                            assert(before[j] == after[j]);
                        }
                    } else {
                        if mid.has_image(k) {
                            let j = choose|j: int| 0 <= j < before.len() && (#[trigger] before[j]).0@ == k;
                            assert(after[j] == before[j]);
                            let j2 = choose|j2: int| 0 <= j2 < after.len() && (#[trigger] after[j2]).0@ == k;
                            assert(j2 < n);
                            assert(before[j2] == after[j2]);
                            if j < j2 {
                                assert(before[j].0@ != before[j2].0@);
                            } else if j2 < j {
                                assert(before[j2].0@ != before[j].0@);
                            }
                        }
                        if self.has_image(k) {
                            let j = choose|j: int| 0 <= j < after.len() && (#[trigger] after[j]).0@ == k;
                            assert(j < n);
                            assert(before[j] == after[j]);
                        }
                    }
                }
                assert forall|a: int, c: int| 0 <= a < c < after.len() implies (#[trigger] after[a]).0@
                    != (#[trigger] after[c]).0@ by {
                    assert(before[a] == after[a]);
                    if c < n {
                        assert(before[c] == after[c]);
                    } else {
                        assert(!mid.has_image(id@));
                    }
                }
            },
        }
        assert forall|k: Seq<char>| #[trigger] self.in_flight(k) == mid.in_flight(k) by {
            assert(self.in_flight@ == mid.in_flight@);
        }
    }
}

impl Default for CoverCache {
    fn default() -> (c: Self)
        ensures
            c.wf(),
            forall|id: Seq<char>| (#[trigger] c.cached(id)).is_none(),
            forall|id: Seq<char>| !#[trigger] c.in_flight(id),
    {
        Self::new()
    }
}

/// Storing a cover settles its download: the cache then answers with the
/// stored bytes and their sniffed format, and the id is no longer in flight.
pub proof fn lemma_insert_settles_download(
    before: CoverCache,
    after: CoverCache,
    id: Seq<char>,
    bytes: Seq<u8>,
)
    requires
        forall|k: Seq<char>| #[trigger] after.cached(k) == if k == id {
            Some((sniffed(bytes), bytes))
        } else {
            before.cached(k)
        },
        forall|k: Seq<char>| #[trigger] after.in_flight(k) == (before.in_flight(k) && k != id),
    ensures
        after.cached(id) == Some((sniffed(bytes), bytes)),
        !after.in_flight(id),
        forall|k: Seq<char>| k != id ==> #[trigger] after.cached(k) == before.cached(k),
{
}

// ── Generative cover style ──────────────────────────────────────────────────

/// Motif shape used on a generative cover.
#[derive(Debug, Clone, Copy, PartialEq, Eq, Structural)]
pub enum Motif {
    Circle,
    Diamond,
    DoubleRule,
    Triangle,
}

/// Background used when an item's colour cannot be read (`#1C2A44`).
pub const FALLBACK_BACKGROUND: u32 = 0x1C2A44;

/// Near-black ink for light backgrounds.
pub const DARK_INK: u32 = 0x1C1813;

/// Cream ink for dark backgrounds.
pub const CREAM_INK: u32 = 0xEFE6D2;

/// The colours (as `0xRRGGBB`) and motif of a generative cover; the
/// renderer derives its translucent foreground shades from `foreground`.
#[derive(Debug, Clone, Copy, PartialEq, Eq, Structural)]
pub struct CoverStyle {
    pub background: u32,
    pub foreground: u32,
    pub motif: Motif,
}

/// The number of `#` bytes `b` starts with.
pub open spec fn leading_hashes(b: Seq<u8>) -> nat
    decreases b.len(),
{
    if b.len() > 0 && b[0] == 0x23 {
        1 + leading_hashes(b.drop_first())
    } else {
        0
    }
}

/// `b` without its leading `#` bytes.
pub open spec fn hex_body(b: Seq<u8>) -> Seq<u8> {
    b.skip(leading_hashes(b) as int)
}

/// An ASCII hexadecimal digit, either case.
pub open spec fn is_hex_byte(c: u8) -> bool {
    (0x30 <= c <= 0x39) || (0x41 <= c <= 0x46) || (0x61 <= c <= 0x66)
}

/// The value of a hexadecimal digit.
pub open spec fn hex_byte_value(c: u8) -> nat {
    if c <= 0x39 {
        (c - 0x30) as nat
    } else if c <= 0x46 {
        (c - 0x41 + 10) as nat
    } else {
        (c - 0x61 + 10) as nat
    }
}

/// The value of a string of hexadecimal digits, most significant first.
pub open spec fn hex_value(d: Seq<u8>) -> nat
    decreases d.len(),
{
    if d.len() == 0 {
        0
    } else {
        hex_value(d.drop_last()) * 16 + hex_byte_value(d.last())
    }
}

/// `s` without one leading `+`.
pub open spec fn unsigned_digits(s: Seq<u8>) -> Seq<u8> {
    if s.len() > 0 && s[0] == 0x2B {
        s.drop_first()
    } else {
        s
    }
}

/// Every byte of `d` is a hexadecimal digit.
pub open spec fn all_hex(d: Seq<u8>) -> bool {
    forall|k: int| 0 <= k < d.len() ==> is_hex_byte(#[trigger] d[k])
}

/// What `u32::from_str_radix(s, 16)` gives for `s` of at most six bytes: an
/// optional `+`, then at least one hexadecimal digit and nothing else.
pub open spec fn radix16(s: Seq<u8>) -> Option<nat> {
    let d = unsigned_digits(s);
    if d.len() > 0 && all_hex(d) {
        Some(hex_value(d))
    } else {
        None
    }
}

/// ITU-R 601 luminance (0 to 255) of `0xRRGGBB`, rounded down.
pub open spec fn luminance(n: nat) -> nat {
    let r = n / 65536 % 256;
    let g = n / 256 % 256;
    let b = n % 256;
    (r * 299 + g * 587 + b * 114) / 1000
}

/// A colour (UTF-8 bytes of `#RRGGBB`, any number of leading `#`) is light
/// when its first six bytes parse and their luminance is above 150; a
/// shorter or unparsable colour counts as light. A multi-byte character among
/// the first six bytes makes them unparsable, so any text gets an answer.
pub open spec fn is_light_color(color: Seq<u8>) -> bool {
    let h = hex_body(color);
    if h.len() < 6 {
        true
    } else {
        match radix16(h.take(6)) {
            Some(n) => luminance(n) > 150,
            None => true,
        }
    }
}

/// The background of a colour: its first (up to) six bytes read as
/// hexadecimal, or `FALLBACK_BACKGROUND` when they do not parse (a
/// multi-byte character among them included).
pub open spec fn background_of(color: Seq<u8>) -> u32 {
    let h = hex_body(color);
    let s = if h.len() < 6 {
        h
    } else {
        h.take(6)
    };
    match radix16(s) {
        Some(n) => n as u32,
        None => FALLBACK_BACKGROUND,
    }
}

/// The motif a hash selects.
pub open spec fn motif_for(h: u32) -> Motif {
    if h % 4 == 0 {
        Motif::Circle
    } else if h % 4 == 1 {
        Motif::Diamond
    } else if h % 4 == 2 {
        Motif::DoubleRule
    } else {
        Motif::Triangle
    }
}

/// 16 to the power `i`.
pub open spec fn pow16(i: nat) -> nat
    decreases i,
{
    if i == 0 {
        1
    } else {
        16 * pow16((i - 1) as nat)
    }
}

proof fn lemma_pow16_small(k: nat)
    requires
        k <= 6,
    ensures
        pow16(k) <= 0x1000000,
{
    reveal_with_fuel(pow16, 7);
    if k == 0 {
    } else if k == 1 {
    } else if k == 2 {
    } else if k == 3 {
    } else if k == 4 {
    } else if k == 5 {
    } else {
    }
}

fn leading_hash_count(b: &[u8]) -> (k: usize)
    ensures
        k == leading_hashes(b@),
        k <= b@.len(),
{
    let mut i: usize = 0;
    assert(b@.skip(0) =~= b@);
    while i < b.len() && b[i] == 0x23
        invariant
            i <= b@.len(),
            leading_hashes(b@) == i + leading_hashes(b@.skip(i as int)),
        decreases b@.len() - i,
    {
        assert(b@.skip(i as int).drop_first() =~= b@.skip(i + 1));
        i = i + 1;
    }
    i
}

fn hex_digit_value(c: u8) -> (r: Option<u32>)
    ensures
        match r {
            Some(v) => is_hex_byte(c) && v == hex_byte_value(c) && v < 16,
            None => !is_hex_byte(c),
        },
{
    if 0x30 <= c && c <= 0x39 {
        Some((c - 0x30) as u32)
    } else if 0x41 <= c && c <= 0x46 {
        Some((c - 0x41 + 10) as u32)
    } else if 0x61 <= c && c <= 0x66 {
        Some((c - 0x61 + 10) as u32)
    } else {
        None
    }
}

/// `u32::from_str_radix(_, 16)` on bytes `start..end` of `b`.
fn radix16_at(b: &[u8], start: usize, end: usize) -> (r: Option<u32>)
    requires
        start <= end <= b@.len(),
        end - start <= 6,
    ensures
        match radix16(b@.subrange(start as int, end as int)) {
            Some(n) => r == Some(n as u32) && n < 0x1000000,
            None => r.is_none(),
        },
{
    let ghost s = b@.subrange(start as int, end as int);
    let mut i = start;
    if i < end && b[i] == 0x2B {
        i = i + 1;
    }
    let ghost d = b@.subrange(i as int, end as int);
    assert(d =~= unsigned_digits(s));
    if i == end {
        return None;
    }
    let mut v: u32 = 0;
    let mut j = i;
    while j < end
        invariant
            start <= i <= j <= end <= b@.len(),
            end - start <= 6,
            d == b@.subrange(i as int, end as int),
            forall|k: int| i <= k < j ==> is_hex_byte(#[trigger] b@[k]),
            s == b@.subrange(start as int, end as int),
            d == unsigned_digits(s),
            d.len() > 0,
            v == hex_value(b@.subrange(i as int, j as int)),
            v < pow16((j - i) as nat),
        decreases end - j,
    {
        match hex_digit_value(b[j]) {
            Some(dv) => {
                assert(b@.subrange(i as int, j + 1).drop_last() =~= b@.subrange(i as int, j as int));
                assert(pow16((j + 1 - i) as nat) == 16 * pow16((j - i) as nat));
                proof {
                    lemma_pow16_small((j + 1 - i) as nat);
                }
                v = v * 16 + dv;
                j = j + 1;
            },
            None => {
                assert(d[j - i] == b@[j as int]);
                assert(!is_hex_byte(d[j - i]));
                assert(!all_hex(d));
                return None;
            },
        }
    }
    assert(d =~= b@.subrange(i as int, j as int));
    proof {
        lemma_pow16_small((j - i) as nat);
    }
    assert forall|k: int| 0 <= k < d.len() implies is_hex_byte(#[trigger] d[k]) by {
        assert(d[k] == b@[i + k]);
    }
    Some(v)
}

/// ITU-R 601 luminance check: whether the colour `hex` (`#RRGGBB`) is
/// perceptually light. Colours too short or unparsable count as light.
pub fn is_light_hex(hex: &str) -> (r: bool)
    ensures
        r == is_light_color(hex.spec_bytes()),
{
    let b = hex.as_bytes();
    let k = leading_hash_count(b);
    let len = b.len() - k;
    if len < 6 {
        return true;
    }
    assert(hex_body(b@).take(6) =~= b@.subrange(k as int, k + 6));
    match radix16_at(b, k, k + 6) {
        Some(n) => {
            let r = n / 65536 % 256;
            let g = n / 256 % 256;
            let bl = n % 256;
            (r * 299 + g * 587 + bl * 114) / 1000 > 150
        },
        None => true,
    }
}

/// The background colour of `hex`: its first (up to) six hexadecimal bytes
/// after the `#`s, or `FALLBACK_BACKGROUND` when they do not parse.
pub fn hex_background(hex: &str) -> (rgb: u32)
    ensures
        rgb == background_of(hex.spec_bytes()),
{
    let b = hex.as_bytes();
    let k = leading_hash_count(b);
    let len = b.len() - k;
    let end = if len < 6 {
        b.len()
    } else {
        k + 6
    };
    assert(b@.subrange(k as int, end as int) =~= (if hex_body(b@).len() < 6 {
        hex_body(b@)
    } else {
        hex_body(b@).take(6)
    }));
    match radix16_at(b, k, end) {
        Some(n) => n,
        None => FALLBACK_BACKGROUND,
    }
}

/// The generative cover style of `item`: the background from its colour,
/// dark ink on light colours and cream ink on dark ones, and a motif picked
/// by the FNV-1a hash of its id followed by its title. The same item always
/// gets the same style.
pub fn cover_style(item: &LibraryItem) -> (style: CoverStyle)
    ensures
        style.background == background_of(encode_utf8(item.color@)),
        style.foreground == (if is_light_color(encode_utf8(item.color@)) {
            DARK_INK
        } else {
            CREAM_INK
        }),
        style.motif == motif_for(fnv1a(encode_utf8(item.id@ + item.title@))),
{
    let color = item.color.as_str();
    let light = is_light_hex(color);
    let foreground = if light {
        DARK_INK
    } else {
        CREAM_INK
    };
    let background = hex_background(color);
    let mut key = String::from_str(item.id.as_str());
    push_str(&mut key, item.title.as_str());
    let h = fnv1a_32(key.as_str());
    let motif = if h % 4 == 0 {
        Motif::Circle
    } else if h % 4 == 1 {
        Motif::Diamond
    } else if h % 4 == 2 {
        Motif::DoubleRule
    } else {
        Motif::Triangle
    };
    CoverStyle { background, foreground, motif }
}

/// Luminance weighs the channels of `0xRRGGBB` as ITU-R 601 does: the red
/// byte (bits 16 to 23) by 299, the green byte (bits 8 to 15) by 587 and the
/// blue byte by 114, per mille, rounded down; a colour is light exactly when
/// that weighted sum exceeds 150.
pub proof fn lemma_luminance_weights_channels(r: nat, g: nat, b: nat)
    requires
        r < 256,
        g < 256,
        b < 256,
    ensures
        luminance(r * 65536 + g * 256 + b) == (r * 299 + g * 587 + b * 114) / 1000,
{
    let n = r * 65536 + g * 256 + b;
    assert(g * 256 + b < 65536) by (nonlinear_arith)
        requires
            g < 256,
            b < 256,
    ;
    vstd::arithmetic::div_mod::lemma_fundamental_div_mod_converse(n as int, 65536, r as int, (g * 256 + b) as int);
    vstd::arithmetic::div_mod::lemma_fundamental_div_mod_converse(r as int, 256, 0, r as int);
    vstd::arithmetic::div_mod::lemma_fundamental_div_mod_converse(n as int, 256, (r * 256 + g) as int, b as int);
    vstd::arithmetic::div_mod::lemma_fundamental_div_mod_converse((r * 256 + g) as int, 256, r as int, g as int);
}

} // verus!
