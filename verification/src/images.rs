//! Cover art: how much it may cost, which textures and animations are at hand, and what the
//! cache on disk keeps.
//!
//! Each cover is scaled once into JPEG variants on disk, one per width the policy uses, so later
//! runs decode a small file instead of the original. Textures live in a byte-budgeted list from
//! which the least recently drawn go first, and the disk cache is pruned by age, both sized by
//! the [`Policy`] in force.
use std::collections::hash_map::DefaultHasher;
use std::hash::Hasher;
use vstd::prelude::*;
use vstd::std_specs::hash::DefaultHasherAdditionalSpecFns;
use vstd::string::*;
use crate::order::{slot, sorted, sorting_is_stable, stable_order, SortKey};
use crate::paths::{extension, extension_of};
use crate::self_update::{hex, hex_text};
use crate::text::{
    characters, decimal, joined3, number_text, piece, precedes, same, sorts_before,
    text_order_is_total, text_order_is_transitive,
};

pub use crate::picture::Animation;

verus! {

/// Failed loads try again after this many nanoseconds, so covers fill in once the network is
/// back.
pub const RETRY_AFTER: u64 = 60_000_000_000;

/// How much the covers may cost, chosen for the screen and the machine.
#[derive(Debug, Clone, Copy, PartialEq, Eq, Structural)]
pub struct Policy {
    pub low_spec: bool,
    /// Width in pixels of the variant tiles draw.
    pub thumb_width: u32,
    /// Width in pixels of the variant the detail page draws.
    pub detail_width: u32,
    pub texture_budget: usize,
    pub disk_budget: u64,
    /// Largest original the loader will download.
    pub max_download: u64,
    /// Whether the focused tile plays animated covers at all.
    pub animate: bool,
    /// Frames beyond this many bytes leave a cover still.
    pub animation_budget: usize,
}

/// Which scaled copy of a cover to draw.
#[derive(Debug, Clone, Copy, PartialEq, Eq, Structural)]
pub enum Variant {
    Thumb,
    Detail,
}

/// Screens shorter than this are treated as handhelds.
pub const LOW_SPEC_HEIGHT: i64 = 600;

/// A megabyte.
pub open spec fn mb(n: int) -> int {
    n * 0x10_0000
}

impl Policy {
    /// The policy for a screen this many whole points tall, unless `low_spec`
    /// forces one.
    pub fn for_screen(height: i64, low_spec: Option<bool>) -> (r: Self)
        ensures
            r.low_spec == match low_spec {
                Some(forced) => forced,
                None => height < LOW_SPEC_HEIGHT,
            },
            r.thumb_width == (if r.low_spec { 200int } else { 400 }),
            r.detail_width == (if r.low_spec { 400int } else { 630 }),
            r.texture_budget == (if r.low_spec { mb(24) } else { mb(96) }),
            r.disk_budget == (if r.low_spec { mb(50) } else { mb(200) }),
            r.max_download == (if r.low_spec { mb(2) } else { mb(8) }),
            r.animate == !r.low_spec,
            r.animation_budget == (if r.low_spec { 0 } else { mb(48) }),
    {
        let low = match low_spec {
            Some(forced) => forced,
            None => height < LOW_SPEC_HEIGHT,
        };
        if low {
            Policy {
                low_spec: true,
                thumb_width: 200,
                detail_width: 400,
                texture_budget: 24 * 0x10_0000,
                disk_budget: 50 * 0x10_0000,
                max_download: 2 * 0x10_0000,
                animate: false,
                animation_budget: 0,
            }
        } else {
            Policy {
                low_spec: false,
                thumb_width: 400,
                detail_width: 630,
                texture_budget: 96 * 0x10_0000,
                disk_budget: 200 * 0x10_0000,
                max_download: 8 * 0x10_0000,
                animate: true,
                animation_budget: 48 * 0x10_0000,
            }
        }
    }

    /// The width of a variant.
    pub open spec fn width_for(&self, variant: Variant) -> u32 {
        match variant {
            Variant::Thumb => self.thumb_width,
            Variant::Detail => self.detail_width,
        }
    }

    pub fn width(&self, variant: Variant) -> (r: u32)
        ensures
            r == self.width_for(variant),
    {
        match variant {
            Variant::Thumb => self.thumb_width,
            Variant::Detail => self.detail_width,
        }
    }

    /// The width of every variant.
    pub fn widths(&self) -> (r: Vec<u32>)
        ensures
            r@ == seq![self.thumb_width, self.detail_width],
    {
        let r = vec![self.thumb_width, self.detail_width];
        assert(r@ =~= seq![self.thumb_width, self.detail_width]);
        r
    }
}

// ---------------------------------------------------------------------------
// Textures
// ---------------------------------------------------------------------------

/// A texture that was loaded: of a cover, at a width.
#[derive(Debug, PartialEq, Eq)]
pub struct Slot<T> {
    pub url: String,
    pub width: u32,
    pub handle: T,
    pub bytes: usize,
    /// The frame that last drew it.
    pub last_used: u64,
}

/// A cover at a width that is being loaded.
#[derive(Debug, PartialEq, Eq)]
pub struct Request {
    pub url: String,
    pub width: u32,
}

/// A cover at a width that could not be loaded, and when that was.
#[derive(Debug, PartialEq, Eq)]
pub struct Failure {
    pub url: String,
    pub width: u32,
    pub at: u64,
}

/// The textures that are loaded, on their way, or failed lately.
#[derive(Debug)]
pub struct Textures<T> {
    pub ready: Vec<Slot<T>>,
    pub pending: Vec<Request>,
    pub failed: Vec<Failure>,
    /// How many bytes the loaded ones take.
    pub used: usize,
    pub frame: u64,
}

/// What a request for a picture comes to.
#[derive(Debug, PartialEq, Eq, Structural, Clone, Copy)]
pub enum Lookup {
    /// It is at hand, at this place.
    Ready(usize),
    /// It is not at hand; there is nothing to do.
    Waiting,
    /// It is not at hand; loading it is to start now.
    Start,
}

impl<T> Slot<T> {
    pub open spec fn is(&self, url: Seq<char>, width: u32) -> bool {
        self.url@ == url && self.width == width
    }
}

impl Request {
    pub open spec fn is(&self, url: Seq<char>, width: u32) -> bool {
        self.url@ == url && self.width == width
    }
}

impl Failure {
    pub open spec fn is(&self, url: Seq<char>, width: u32) -> bool {
        self.url@ == url && self.width == width
    }
}

/// The bytes of the loaded textures.
pub open spec fn bytes_of<T>(ready: Seq<Slot<T>>) -> int
    decreases ready.len(),
{
    if ready.len() == 0 {
        0
    } else {
        bytes_of(ready.drop_last()) + ready.last().bytes
    }
}

/// Whether a texture may go: it was drawn neither in this frame nor in the last.
pub open spec fn off_screen<T>(slot: Slot<T>, frame: int) -> bool {
    slot.last_used + 2 < frame
}

/// Whether one texture goes before another: the one drawn longer ago; of two drawn at the same
/// time the one whose address, and then whose width, comes first.
pub open spec fn goes_first<T>(a: Slot<T>, b: Slot<T>) -> bool {
    a.last_used < b.last_used || (a.last_used == b.last_used && (precedes(a.url@, b.url@) || (
    a.url@ == b.url@ && a.width < b.width)))
}

/// The first texture to go among the first `n`.
pub open spec fn oldest<T>(ready: Seq<Slot<T>>, frame: int, n: int) -> Option<int>
    decreases n,
{
    if n <= 0 {
        None
    } else {
        let before = oldest(ready, frame, n - 1);
        if !off_screen(ready[n - 1], frame) {
            before
        } else {
            match before {
                None => Some(n - 1),
                Some(i) => if goes_first(ready[n - 1], ready[i]) {
                    Some(n - 1)
                } else {
                    Some(i)
                },
            }
        }
    }
}

proof fn lemma_oldest<T>(ready: Seq<Slot<T>>, frame: int, n: int)
    requires
        0 <= n <= ready.len(),
    ensures
        match oldest(ready, frame, n) {
            None => forall|i: int| 0 <= i < n ==> !off_screen(#[trigger] ready[i], frame),
            Some(k) => {
                &&& 0 <= k < n
                &&& off_screen(ready[k], frame)
                &&& forall|i: int|
                    0 <= i < n && off_screen(#[trigger] ready[i], frame) ==> !goes_first(
                        ready[i],
                        ready[k],
                    )
            },
        },
    decreases n,
{
    if n > 0 {
        lemma_oldest(ready, frame, n - 1);
        if off_screen(ready[n - 1], frame) {
            lemma_goes_first_is_order(ready[n - 1], ready[n - 1], ready[n - 1]);
            if let Some(k) = oldest(ready, frame, n - 1) {
                if goes_first(ready[n - 1], ready[k]) {
                    assert forall|i: int|
                        0 <= i < n && off_screen(#[trigger] ready[i], frame) implies !goes_first(
                        ready[i],
                        ready[n - 1],
                    ) by {
                        if i < n - 1 {
                            lemma_goes_first_is_order(ready[i], ready[n - 1], ready[k]);
                        }
                    }
                }
            }
        }
    }
}

proof fn lemma_goes_first_is_order<T>(a: Slot<T>, b: Slot<T>, c: Slot<T>)
    ensures
        !goes_first(a, a),
        goes_first(a, b) && goes_first(b, c) ==> goes_first(a, c),
        goes_first(a, b) ==> !goes_first(b, a),
        !goes_first(a, b) && !goes_first(b, a) ==> a.is(b.url@, b.width),
{
    text_order_is_total(a.url@, a.url@);
    text_order_is_total(a.url@, b.url@);
    if precedes(a.url@, b.url@) && precedes(b.url@, c.url@) {
        text_order_is_transitive(a.url@, b.url@, c.url@);
    }
}

/// The loaded textures once enough of them have gone: the longest undrawn go, one by one, while
/// they take more than the budget.
pub open spec fn trimmed_to<T>(ready: Seq<Slot<T>>, frame: int, budget: int) -> Seq<Slot<T>>
    decreases ready.len(),
{
    if bytes_of(ready) <= budget {
        ready
    } else {
        match oldest(ready, frame, ready.len() as int) {
            Some(i) => if 0 <= i < ready.len() {
                trimmed_to(ready.remove(i), frame, budget)
            } else {
                ready
            },
            None => ready,
        }
    }
}

proof fn lemma_bytes_without<T>(ready: Seq<Slot<T>>, i: int)
    requires
        0 <= i < ready.len(),
    ensures
        bytes_of(ready) == bytes_of(ready.remove(i)) + ready[i].bytes,
    decreases ready.len(),
{
    if i == ready.len() - 1 {
        assert(ready.remove(i) =~= ready.drop_last());
    } else {
        lemma_bytes_without(ready.drop_last(), i);
        assert(ready.remove(i).drop_last() =~= ready.drop_last().remove(i));
        assert(ready.remove(i).last() == ready.last());
    }
}

proof fn lemma_bytes_same<T>(a: Seq<Slot<T>>, b: Seq<Slot<T>>)
    requires
        a.len() == b.len(),
        forall|i: int| 0 <= i < a.len() ==> (#[trigger] a[i]).bytes == b[i].bytes,
    ensures
        bytes_of(a) == bytes_of(b),
    decreases a.len(),
{
    if a.len() > 0 {
        lemma_bytes_same(a.drop_last(), b.drop_last());
        assert(a.last().bytes == b.last().bytes);
    }
}

proof fn lemma_bytes_positive<T>(a: Seq<Slot<T>>)
    ensures
        bytes_of(a) >= 0,
    decreases a.len(),
{
    if a.len() > 0 {
        lemma_bytes_positive(a.drop_last());
    }
}

impl<T> Textures<T> {
    /// No cover is listed twice at one width; none is both loaded and on its way; the bytes in
    /// use are those of the loaded ones.
    pub open spec fn wf(&self) -> bool {
        &&& forall|i: int, j: int|
            0 <= i < j < self.ready@.len() ==> !(#[trigger] self.ready@[i]).is(
                (#[trigger] self.ready@[j]).url@,
                self.ready@[j].width,
            )
        &&& forall|i: int, j: int|
            0 <= i < j < self.pending@.len() ==> !(#[trigger] self.pending@[i]).is(
                (#[trigger] self.pending@[j]).url@,
                self.pending@[j].width,
            )
        &&& forall|i: int, j: int|
            0 <= i < j < self.failed@.len() ==> !(#[trigger] self.failed@[i]).is(
                (#[trigger] self.failed@[j]).url@,
                self.failed@[j].width,
            )
        &&& forall|i: int, j: int|
            0 <= i < self.ready@.len() && 0 <= j < self.pending@.len()
                ==> !(#[trigger] self.ready@[i]).is(
                (#[trigger] self.pending@[j]).url@,
                self.pending@[j].width,
            )
        &&& self.used == bytes_of(self.ready@)
    }

    pub open spec fn is_ready(&self, url: Seq<char>, width: u32) -> bool {
        exists|i: int| 0 <= i < self.ready@.len() && (#[trigger] self.ready@[i]).is(url, width)
    }

    pub open spec fn is_pending(&self, url: Seq<char>, width: u32) -> bool {
        exists|i: int| 0 <= i < self.pending@.len() && (#[trigger] self.pending@[i]).is(url, width)
    }

    /// Whether loading a cover failed too short a time ago to try again.
    pub open spec fn failed_lately(&self, url: Seq<char>, width: u32, now: u64) -> bool {
        exists|i: int|
            0 <= i < self.failed@.len() && (#[trigger] self.failed@[i]).is(url, width) && now
                - self.failed@[i].at < RETRY_AFTER
    }

    pub fn new() -> (r: Self)
        ensures
            r.wf(),
            r.ready@.len() == 0,
            r.pending@.len() == 0,
            r.failed@.len() == 0,
            r.used == 0,
            r.frame == 0,
    {
        Textures { ready: Vec::new(), pending: Vec::new(), failed: Vec::new(), used: 0, frame: 0 }
    }

    fn find_ready(&self, url: &str, width: u32) -> (r: Option<usize>)
        ensures
            match r {
                Some(i) => i < self.ready@.len() && self.ready@[i as int].is(url@, width),
                None => !self.is_ready(url@, width),
            },
    {
        let mut i: usize = 0;
        while i < self.ready.len()
            invariant
                i <= self.ready@.len(),
                forall|k: int| 0 <= k < i ==> !(#[trigger] self.ready@[k]).is(url@, width),
            decreases self.ready@.len() - i,
        {
            if self.ready[i].width == width && same(self.ready[i].url.as_str(), url) {
                return Some(i);
            }
            i += 1;
        }
        None
    }

    fn find_pending(&self, url: &str, width: u32) -> (r: Option<usize>)
        ensures
            match r {
                Some(i) => i < self.pending@.len() && self.pending@[i as int].is(url@, width),
                None => !self.is_pending(url@, width),
            },
    {
        let mut i: usize = 0;
        while i < self.pending.len()
            invariant
                i <= self.pending@.len(),
                forall|k: int| 0 <= k < i ==> !(#[trigger] self.pending@[k]).is(url@, width),
            decreases self.pending@.len() - i,
        {
            if self.pending[i].width == width && same(self.pending[i].url.as_str(), url) {
                return Some(i);
            }
            i += 1;
        }
        None
    }

    fn find_failed(&self, url: &str, width: u32) -> (r: Option<usize>)
        ensures
            match r {
                Some(i) => i < self.failed@.len() && self.failed@[i as int].is(url@, width),
                None => forall|i: int|
                    0 <= i < self.failed@.len() ==> !(#[trigger] self.failed@[i]).is(url@, width),
            },
    {
        let mut i: usize = 0;
        while i < self.failed.len()
            invariant
                i <= self.failed@.len(),
                forall|k: int| 0 <= k < i ==> !(#[trigger] self.failed@[k]).is(url@, width),
            decreases self.failed@.len() - i,
        {
            if self.failed[i].width == width && same(self.failed[i].url.as_str(), url) {
                return Some(i);
            }
            i += 1;
        }
        None
    }

    /// What looking a cover up at a width does: a loaded one counts as drawn in this frame; one
    /// that is neither loaded nor on its way, and did not fail lately, is on its way from now
    /// on.
    pub open spec fn looked_up(
        pre: Self,
        url: Seq<char>,
        width: u32,
        now: u64,
        r: Lookup,
        post: Self,
    ) -> bool {
        if pre.is_ready(url, width) {
            &&& r matches Lookup::Ready(i)
            &&& i < pre.ready@.len()
            &&& pre.ready@[i as int].is(url, width)
            &&& post == (Textures { ready: post.ready, ..pre })
            &&& post.ready@ == pre.ready@.update(
                i as int,
                Slot { last_used: pre.frame, ..pre.ready@[i as int] },
            )
        } else if pre.is_pending(url, width) || pre.failed_lately(url, width, now) {
            r == Lookup::Waiting && post == pre
        } else {
            &&& r == Lookup::Start
            &&& post == (Textures { pending: post.pending, failed: post.failed, ..pre })
            &&& post.pending@.len() == pre.pending@.len() + 1
            &&& post.pending@.drop_last() == pre.pending@
            &&& post.pending@.last().is(url, width)
            &&& post.failed@ == pre.failed@.filter(|f: Failure| !f.is(url, width))
        }
    }

    /// The cover at a width, once loaded. Asking starts the work.
    pub fn look_up(&mut self, url: &str, width: u32, now: u64) -> (r: Lookup)
        requires
            old(self).wf(),
        ensures
            final(self).wf(),
            Self::looked_up(*old(self), url@, width, now, r, *final(self)),
    {
        let ghost pre = *self;
        if let Some(i) = self.find_ready(url, width) {
            let frame = self.frame;
            self.ready[i].last_used = frame;
            proof {
                lemma_bytes_same(pre.ready@, self.ready@);
            }
            return Lookup::Ready(i);
        }
        if let Some(_) = self.find_pending(url, width) {
            return Lookup::Waiting;
        }
        if let Some(i) = self.find_failed(url, width) {
            let at = self.failed[i].at;
            if now < at || now - at < RETRY_AFTER {
                return Lookup::Waiting;
            }
            proof {
                lemma_filter_one(self.failed@, i as int, url@, width);
                assert forall|k: int|
                    0 <= k < pre.failed@.len() && (#[trigger] pre.failed@[k]).is(
                        url@,
                        width,
                    ) implies k == i by {
                    if k < i {
                        assert(!pre.failed@[k].is(pre.failed@[i as int].url@, width));
                    } else if k > i {
                        assert(!pre.failed@[i as int].is(pre.failed@[k].url@, width));
                    }
                }
            }
            self.failed.remove(i);
        } else {
            proof {
                lemma_filter_none(self.failed@, url@, width);
            }
        }
        self.pending.push(Request { url: url.to_owned(), width });
        assert(self.pending@.drop_last() =~= pre.pending@);
        Lookup::Start
    }

    /// What loading a cover came to: it is no longer on its way, and either at hand, as drawn
    /// in this frame, or failed.
    pub open spec fn loaded(
        pre: Self,
        url: Seq<char>,
        width: u32,
        outcome: Option<(T, usize)>,
        now: u64,
        post: Self,
    ) -> bool {
        &&& post.pending@ == pre.pending@.filter(|p: Request| !p.is(url, width))
        &&& match outcome {
            Some((handle, bytes)) => {
                &&& post == (Textures {
                    ready: post.ready,
                    pending: post.pending,
                    used: (pre.used + bytes) as usize,
                    ..pre
                })
                &&& post.ready@.len() == pre.ready@.len() + 1
                &&& post.ready@.drop_last() == pre.ready@
                &&& post.ready@.last().is(url, width)
                &&& post.ready@.last() == (Slot {
                    url: post.ready@.last().url,
                    width,
                    handle,
                    bytes,
                    last_used: pre.frame,
                })
            },
            None => {
                &&& post == (Textures { failed: post.failed, pending: post.pending, ..pre })
                &&& post.failed@.drop_last() == pre.failed@.filter(|f: Failure| !f.is(url, width))
                &&& post.failed@.len() > 0
                &&& post.failed@.last().is(url, width)
                &&& post.failed@.last().at == now
            },
        }
    }

    /// Takes in what loading a cover came to.
    pub fn complete(&mut self, url: &str, width: u32, outcome: Option<(T, usize)>, now: u64)
        requires
            old(self).wf(),
            old(self).is_pending(url@, width),
            outcome matches Some((_, bytes)) ==> old(self).used + bytes <= usize::MAX,
        ensures
            final(self).wf(),
            Self::loaded(*old(self), url@, width, outcome, now, *final(self)),
    {
        let ghost pre = *self;
        if let Some(i) = self.find_pending(url, width) {
            proof {
                lemma_filter_request(self.pending@, i as int, url@, width);
            }
            self.pending.remove(i);
            assert forall|k: int| 0 <= k < pre.ready@.len() implies !(#[trigger] pre.ready@[k]).is(
                url@,
                width,
            ) by {
                assert(!pre.ready@[k].is(pre.pending@[i as int].url@, width));
            }
        }
        match outcome {
            Some((handle, bytes)) => {
                self.used = self.used + bytes;
                let frame = self.frame;
                self.ready.push(
                    Slot { url: url.to_owned(), width, handle, bytes, last_used: frame },
                );
                proof {
                    assert(self.ready@.drop_last() =~= pre.ready@);
                    assert forall|j: int| 0 <= j < self.pending@.len() implies !(
                    #[trigger] self.pending@[j]).is(url@, width) by {
                        let kept = pre.pending@.filter(|p: Request| !p.is(url@, width));
                        assert(kept[j] == self.pending@[j]);
                        assert(kept.contains(self.pending@[j]));
                        pre.pending@.lemma_filter_contains_rev(
                            |p: Request| !p.is(url@, width),
                            self.pending@[j],
                        );
                    }
                }
            },
            None => {
                if let Some(i) = self.find_failed(url, width) {
                    proof {
                        lemma_filter_one(self.failed@, i as int, url@, width);
                    }
                    self.failed.remove(i);
                } else {
                    proof {
                        lemma_filter_none(self.failed@, url@, width);
                    }
                }
                self.failed.push(Failure { url: url.to_owned(), width, at: now });
                assert(self.failed@.drop_last() =~= pre.failed@.filter(
                    |f: Failure| !f.is(url@, width),
                ));
            },
        }
    }

    /// Drops the least recently drawn textures until the budget holds. To be called once per
    /// frame after drawing.
    pub fn end_frame(&mut self, budget: usize)
        requires
            old(self).wf(),
            old(self).frame < u64::MAX,
        ensures
            final(self).wf(),
            final(self).frame == old(self).frame + 1,
            final(self).ready@ == trimmed_to(
                old(self).ready@,
                old(self).frame + 1,
                budget as int,
            ),
            final(self).pending == old(self).pending,
            final(self).failed == old(self).failed,
    {
        self.frame = self.frame + 1;
        let ghost pre = *self;
        while self.used > budget
            invariant
                self.wf(),
                pre.frame == old(self).frame + 1,
                pre.ready == old(self).ready,
                pre.pending == old(self).pending,
                pre.failed == old(self).failed,
                self.frame == pre.frame,
                self.pending == pre.pending,
                self.failed == pre.failed,
                trimmed_to(self.ready@, pre.frame as int, budget as int) == trimmed_to(
                    pre.ready@,
                    pre.frame as int,
                    budget as int,
                ),
            decreases self.ready@.len(),
        {
            match self.find_oldest() {
                None => {
                    return;
                },
                Some(i) => {
                    proof {
                        lemma_oldest(self.ready@, self.frame as int, self.ready@.len() as int);
                        lemma_bytes_without(self.ready@, i as int);
                        lemma_bytes_positive(self.ready@.remove(i as int));
                    }
                    let slot = self.ready.remove(i);
                    self.used = self.used - slot.bytes;
                },
            }
        }
    }

    fn find_oldest(&self) -> (r: Option<usize>)
        ensures
            match r {
                Some(i) => {
                    &&& i < self.ready@.len()
                    &&& oldest(self.ready@, self.frame as int, self.ready@.len() as int) == Some(
                        i as int,
                    )
                },
                None => oldest(self.ready@, self.frame as int, self.ready@.len() as int)
                    == None::<int>,
            },
    {
        let mut r: Option<usize> = None;
        let mut i: usize = 0;
        while i < self.ready.len()
            invariant
                i <= self.ready@.len(),
                match r {
                    Some(k) => k < i && oldest(self.ready@, self.frame as int, i as int) == Some(
                        k as int,
                    ),
                    None => oldest(self.ready@, self.frame as int, i as int) == None::<int>,
                },
            decreases self.ready@.len() - i,
        {
            let slot = &self.ready[i];
            if self.frame > 2 && slot.last_used < self.frame - 2 {
                let first = match r {
                    None => true,
                    Some(k) => {
                        let other = &self.ready[k];
                        slot.last_used < other.last_used || (slot.last_used == other.last_used && (
                        sorts_before(slot.url.as_str(), other.url.as_str()) || (slot.width
                            < other.width && same(slot.url.as_str(), other.url.as_str()))))
                    },
                };
                if first {
                    r = Some(i);
                }
            }
            i += 1;
        }
        r
    }
}

proof fn lemma_filter_one(failed: Seq<Failure>, i: int, url: Seq<char>, width: u32)
    requires
        0 <= i < failed.len(),
        failed[i].is(url, width),
        forall|a: int, b: int|
            0 <= a < b < failed.len() ==> !(#[trigger] failed[a]).is(
                (#[trigger] failed[b]).url@,
                failed[b].width,
            ),
    ensures
        failed.filter(|f: Failure| !f.is(url, width)) == failed.remove(i),
    decreases failed.len(),
{
    let keep = |f: Failure| !f.is(url, width);
    reveal(Seq::filter);
    if i == failed.len() - 1 {
        assert forall|a: int| 0 <= a < failed.len() - 1 implies keep(#[trigger] failed[a]) by {
            assert(!failed[a].is(failed[i].url@, failed[i].width));
        }
        lemma_filter_none(failed.drop_last(), url, width);
        assert(failed.remove(i) =~= failed.drop_last());
    } else {
        let rest = failed.drop_last();
        lemma_filter_one(rest, i, url, width);
        assert(!failed[i].is(failed.last().url@, failed.last().width));
        assert(failed.remove(i) =~= rest.remove(i).push(failed.last()));
    }
}

proof fn lemma_filter_none(failed: Seq<Failure>, url: Seq<char>, width: u32)
    requires
        forall|i: int| 0 <= i < failed.len() ==> !(#[trigger] failed[i]).is(url, width),
    ensures
        failed.filter(|f: Failure| !f.is(url, width)) == failed,
    decreases failed.len(),
{
    reveal(Seq::filter);
    if failed.len() > 0 {
        let rest = failed.drop_last();
        lemma_filter_none(rest, url, width);
        assert(!failed.last().is(url, width));
        assert(rest.push(failed.last()) =~= failed);
    }
}

proof fn lemma_filter_request(pending: Seq<Request>, i: int, url: Seq<char>, width: u32)
    requires
        0 <= i < pending.len(),
        pending[i].is(url, width),
        forall|a: int, b: int|
            0 <= a < b < pending.len() ==> !(#[trigger] pending[a]).is(
                (#[trigger] pending[b]).url@,
                pending[b].width,
            ),
    ensures
        pending.filter(|p: Request| !p.is(url, width)) == pending.remove(i),
    decreases pending.len(),
{
    reveal(Seq::filter);
    let rest = pending.drop_last();
    if i == pending.len() - 1 {
        assert forall|a: int| 0 <= a < rest.len() implies !(#[trigger] rest[a]).is(url, width) by {
            assert(rest[a] == pending[a]);
            assert(!pending[a].is(pending[i].url@, pending[i].width));
        }
        lemma_filter_no_request(rest, url, width);
        assert(pending.remove(i) =~= rest);
    } else {
        lemma_filter_request(rest, i, url, width);
        assert(!pending[i].is(pending.last().url@, pending.last().width));
        assert(pending.remove(i) =~= rest.remove(i).push(pending.last()));
    }
}

proof fn lemma_filter_no_request(pending: Seq<Request>, url: Seq<char>, width: u32)
    requires
        forall|i: int| 0 <= i < pending.len() ==> !(#[trigger] pending[i]).is(url, width),
    ensures
        pending.filter(|p: Request| !p.is(url, width)) == pending,
    decreases pending.len(),
{
    reveal(Seq::filter);
    if pending.len() > 0 {
        let rest = pending.drop_last();
        lemma_filter_no_request(rest, url, width);
        assert(!pending.last().is(url, width));
        assert(rest.push(pending.last()) =~= pending);
    }
}

/// At the end of a frame the textures fit their budget, or all that are left are on screen.
pub proof fn textures_fit_their_budget<T>(ready: Seq<Slot<T>>, frame: int, budget: int)
    ensures
        bytes_of(trimmed_to(ready, frame, budget)) <= budget || forall|i: int|
            0 <= i < trimmed_to(ready, frame, budget).len() ==> !off_screen(
                #[trigger] trimmed_to(ready, frame, budget)[i],
                frame,
            ),
    decreases ready.len(),
{
    lemma_oldest(ready, frame, ready.len() as int);
    if bytes_of(ready) > budget {
        if let Some(i) = oldest(ready, frame, ready.len() as int) {
            textures_fit_their_budget(ready.remove(i), frame, budget);
        }
    }
}

/// Whatever is on screen stays loaded.
pub proof fn textures_on_screen_stay<T>(ready: Seq<Slot<T>>, frame: int, budget: int, slot: Slot<T>)
    requires
        ready.contains(slot),
        !off_screen(slot, frame),
    ensures
        trimmed_to(ready, frame, budget).contains(slot),
    decreases ready.len(),
{
    lemma_oldest(ready, frame, ready.len() as int);
    if bytes_of(ready) > budget {
        if let Some(i) = oldest(ready, frame, ready.len() as int) {
            let k = choose|k: int| 0 <= k < ready.len() && ready[k] == slot;
            let rest = ready.remove(i);
            if k < i {
                assert(rest[k] == slot);
            } else {
                assert(rest[k - 1] == slot);
            }
            textures_on_screen_stay(rest, frame, budget, slot);
        }
    }
}

/// The least recently drawn go first: no texture that stays, though it is off screen, was due
/// before one that goes.
pub proof fn the_least_recently_drawn_go_first<T>(
    ready: Seq<Slot<T>>,
    frame: int,
    budget: int,
    gone: Slot<T>,
    kept: Slot<T>,
)
    requires
        ready.contains(gone),
        !trimmed_to(ready, frame, budget).contains(gone),
        trimmed_to(ready, frame, budget).contains(kept),
        off_screen(kept, frame),
    ensures
        !goes_first(kept, gone),
    decreases ready.len(),
{
    lemma_oldest(ready, frame, ready.len() as int);
    if bytes_of(ready) > budget {
        if let Some(i) = oldest(ready, frame, ready.len() as int) {
            let rest = ready.remove(i);
            if rest.contains(gone) {
                the_least_recently_drawn_go_first(rest, frame, budget, gone, kept);
            } else {
                let k = choose|k: int| 0 <= k < ready.len() && ready[k] == gone;
                if k < i {
                    assert(rest[k] == gone);
                } else if k > i {
                    assert(rest[k - 1] == gone);
                }
                assert(ready[i] == gone);
                lemma_kept_were_there(rest, frame, budget, kept);
                let j = choose|j: int| 0 <= j < rest.len() && rest[j] == kept;
                if j < i {
                    assert(ready[j] == kept);
                } else {
                    assert(ready[j + 1] == kept);
                }
            }
        }
    }
}

proof fn lemma_kept_were_there<T>(ready: Seq<Slot<T>>, frame: int, budget: int, kept: Slot<T>)
    requires
        trimmed_to(ready, frame, budget).contains(kept),
    ensures
        ready.contains(kept),
    decreases ready.len(),
{
    if bytes_of(ready) > budget {
        lemma_oldest(ready, frame, ready.len() as int);
        if let Some(i) = oldest(ready, frame, ready.len() as int) {
            let rest = ready.remove(i);
            lemma_kept_were_there(rest, frame, budget, kept);
            let j = choose|j: int| 0 <= j < rest.len() && rest[j] == kept;
            if j < i {
                assert(ready[j] == kept);
            } else {
                assert(ready[j + 1] == kept);
            }
        }
    }
}

// ---------------------------------------------------------------------------
// Animations
// ---------------------------------------------------------------------------

/// How far an animated cover is.
#[derive(Debug, PartialEq, Eq)]
pub enum Entry<A> {
    Pending,
    Ready(A),
    Failed(String),
}

/// An animated cover that was asked for.
#[derive(Debug, PartialEq, Eq)]
pub struct Animated<A> {
    pub url: String,
    pub entry: Entry<A>,
}

/// Only the focused tile animates, so this holds one finished animation at a time plus whatever
/// is being decoded.
#[derive(Debug)]
pub struct Animations<A> {
    pub entries: Vec<Animated<A>>,
}

/// What is kept when a cover is asked for: itself, and whatever is being decoded.
pub open spec fn kept_for<A>(entries: Seq<Animated<A>>, url: Seq<char>) -> Seq<Animated<A>> {
    entries.filter(stays_for(url))
}

/// Whether an animation is kept when a cover is asked for.
pub open spec fn stays_for<A>(url: Seq<char>) -> spec_fn(Animated<A>) -> bool {
    |e: Animated<A>| e.url@ == url || e.entry is Pending
}

/// The place of a cover among the first `n`; -1 if it is not there.
pub open spec fn place_of<A>(entries: Seq<Animated<A>>, url: Seq<char>, n: int) -> int
    decreases n,
{
    if n <= 0 {
        -1
    } else if entries[n - 1].url@ == url {
        n - 1
    } else {
        place_of(entries, url, n - 1)
    }
}

proof fn lemma_place<A>(entries: Seq<Animated<A>>, url: Seq<char>, n: int)
    requires
        0 <= n <= entries.len(),
    ensures
        -1 <= place_of(entries, url, n) < n,
        place_of(entries, url, n) >= 0 ==> entries[place_of(entries, url, n)].url@ == url,
        forall|i: int|
            place_of(entries, url, n) < i < n ==> (#[trigger] entries[i]).url@ != url,
    decreases n,
{
    if n > 0 {
        lemma_place(entries, url, n - 1);
    }
}

impl<A> Animations<A> {
    pub fn new() -> (r: Self)
        ensures
            r.entries@.len() == 0,
    {
        Animations { entries: Vec::new() }
    }

    fn find(&self, url: &str) -> (r: Option<usize>)
        ensures
            match r {
                Some(i) => i == place_of(self.entries@, url@, self.entries@.len() as int),
                None => place_of(self.entries@, url@, self.entries@.len() as int) == -1,
            },
    {
        let mut i: usize = self.entries.len();
        while i > 0
            invariant
                i <= self.entries@.len(),
                place_of(self.entries@, url@, i as int) == place_of(
                    self.entries@,
                    url@,
                    self.entries@.len() as int,
                ),
            decreases i,
        {
            i -= 1;
            if same(self.entries[i].url.as_str(), url) {
                return Some(i);
            }
        }
        None
    }

    /// What asking for a cover's frames does: every other finished animation is forgotten, and
    /// a cover that was not asked for before is being decoded from now on.
    pub open spec fn asked(pre: Self, url: Seq<char>, r: Lookup, post: Self) -> bool {
        let kept = kept_for(pre.entries@, url);
        let at = place_of(kept, url, kept.len() as int);
        if at < 0 {
            &&& r == Lookup::Start
            &&& post.entries@.len() == kept.len() + 1
            &&& post.entries@.drop_last() == kept
            &&& post.entries@.last().url@ == url
            &&& post.entries@.last().entry is Pending
        } else {
            &&& post.entries@ == kept
            &&& r == (if kept[at].entry is Ready {
                Lookup::Ready(at as usize)
            } else {
                Lookup::Waiting
            })
        }
    }

    /// All frames of a cover, once decoded. Asking starts the work and forgets
    /// every other finished animation, since only one plays at a time.
    pub fn ask(&mut self, url: &str) -> (r: Lookup)
        ensures
            Self::asked(*old(self), url@, r, *final(self)),
    {
        let ghost all = self.entries@;
        let ghost keep = stays_for::<A>(url@);
        let mut kept: Vec<Animated<A>> = Vec::new();
        let ghost mut n: int = 0;
        proof {
            reveal(Seq::filter);
            assert(all.take(0) =~= Seq::empty());
            assert(all.skip(0) =~= all);
        }
        while self.entries.len() > 0
            invariant
                0 <= n <= all.len(),
                self.entries@ == all.skip(n),
                keep == stays_for::<A>(url@),
                kept@ == all.take(n).filter(keep),
            decreases self.entries@.len(),
        {
            let entry = self.entries.remove(0);
            let stays = match &entry.entry {
                Entry::Pending => true,
                _ => same(entry.url.as_str(), url),
            };
            proof {
                reveal(Seq::filter);
                assert(entry == all[n]);
                assert(all.take(n + 1).drop_last() =~= all.take(n));
                assert(all.skip(n).remove(0) =~= all.skip(n + 1));
                n = n + 1;
            }
            if stays {
                kept.push(entry);
            }
        }
        assert(all.take(n) =~= all);
        self.entries = kept;
        proof {
            lemma_place(self.entries@, url@, self.entries@.len() as int);
        }
        match self.find(url) {
            Some(i) => match &self.entries[i].entry {
                Entry::Ready(_) => Lookup::Ready(i),
                _ => Lookup::Waiting,
            },
            None => {
                let ghost before = self.entries@;
                self.entries.push(Animated { url: url.to_owned(), entry: Entry::Pending });
                assert(self.entries@.drop_last() =~= before);
                Lookup::Start
            },
        }
    }

    /// Takes in what decoding a cover came to, and says whether it is still of interest: focus
    /// may have moved on, and a forgotten request stays forgotten.
    pub fn complete(&mut self, url: &str, outcome: Result<A, String>) -> (r: bool)
        ensures
            ({
                let at = place_of(old(self).entries@, url@, old(self).entries@.len() as int);
                &&& r == (at >= 0)
                &&& if r {
                    &&& final(self).entries@ == old(self).entries@.update(
                        at,
                        final(self).entries@[at],
                    )
                    &&& final(self).entries@[at].url == old(self).entries@[at].url
                    &&& final(self).entries@[at].entry == (match outcome {
                        Ok(animation) => Entry::Ready(animation),
                        Err(why) => Entry::Failed(why),
                    })
                } else {
                    *final(self) == *old(self)
                }
            }),
    {
        proof {
            lemma_place(self.entries@, url@, self.entries@.len() as int);
        }
        let ghost pre = self.entries@;
        match self.find(url) {
            Some(i) => {
                self.entries[i].entry = match outcome {
                    Ok(animation) => Entry::Ready(animation),
                    Err(why) => Entry::Failed(why),
                };
                assert(self.entries@ =~= pre.update(i as int, self.entries@[i as int]));
                true
            },
            None => false,
        }
    }
}

/// Once a cover was asked for, no other finished animation is held.
pub proof fn one_animation_is_held<A>(pre: Animations<A>, url: Seq<char>, r: Lookup, post: Animations<A>)
    requires
        Animations::asked(pre, url, r, post),
    ensures
        forall|i: int|
            0 <= i < post.entries@.len() ==> (#[trigger] post.entries@[i]).url@ == url
                || post.entries@[i].entry is Pending,
{
    let keep = stays_for::<A>(url);
    let kept = kept_for(pre.entries@, url);
    assert forall|i: int| 0 <= i < post.entries@.len() implies (#[trigger] post.entries@[i]).url@
        == url || post.entries@[i].entry is Pending by {
        if i < kept.len() {
            assert(post.entries@[i] == kept[i]) by {
                if post.entries@.len() > kept.len() {
                    assert(post.entries@.drop_last()[i] == kept[i]);
                }
            }
            assert(kept.contains(kept[i]));
            pre.entries@.lemma_filter_contains_rev(keep, kept[i]);
        }
    }
}

// ---------------------------------------------------------------------------
// The loader
// ---------------------------------------------------------------------------

/// What the covers' loader keeps track of.
#[derive(Debug)]
pub struct CoverLoader<T, A> {
    pub policy: Policy,
    pub textures: Textures<T>,
    pub animations: Animations<A>,
}

impl<T, A> CoverLoader<T, A> {
    pub fn new(policy: Policy) -> (r: Self)
        ensures
            r.textures.wf(),
            r.policy == policy,
            r.textures.ready@.len() == 0,
            r.textures.pending@.len() == 0,
            r.textures.failed@.len() == 0,
            r.textures.frame == 0,
            r.animations.entries@.len() == 0,
    {
        CoverLoader { policy, textures: Textures::new(), animations: Animations::new() }
    }

    pub fn policy(&self) -> (r: Policy)
        ensures
            r == self.policy,
    {
        self.policy
    }

    /// Changes the budgets; textures over the new budget go at the end of
    /// the frame.
    pub fn set_policy(&mut self, policy: Policy)
        ensures
            *final(self) == (CoverLoader { policy, ..*old(self) }),
    {
        self.policy = policy;
    }

    /// The cover scaled for `variant`, once loaded. Asking starts the work.
    pub fn texture(&mut self, url: &str, variant: Variant, now: u64) -> (r: Lookup)
        requires
            old(self).textures.wf(),
        ensures
            final(self).textures.wf(),
            *final(self) == (CoverLoader { textures: final(self).textures, ..*old(self) }),
            Textures::looked_up(
                old(self).textures,
                url@,
                old(self).policy.width_for(variant),
                now,
                r,
                final(self).textures,
            ),
    {
        let width = self.policy.width(variant);
        self.textures.look_up(url, width, now)
    }

    /// Drops the least recently drawn textures until the budget holds. To be called
    /// once per frame after drawing.
    pub fn end_frame(&mut self)
        requires
            old(self).textures.wf(),
            old(self).textures.frame < u64::MAX,
        ensures
            final(self).textures.wf(),
            *final(self) == (CoverLoader { textures: final(self).textures, ..*old(self) }),
            final(self).textures.frame == old(self).textures.frame + 1,
            final(self).textures.ready@ == trimmed_to(
                old(self).textures.ready@,
                old(self).textures.frame + 1,
                old(self).policy.texture_budget as int,
            ),
            final(self).textures.pending == old(self).textures.pending,
            final(self).textures.failed == old(self).textures.failed,
    {
        let budget = self.policy.texture_budget;
        self.textures.end_frame(budget)
    }

    /// All frames of `url`, once decoded. Asking starts the work and forgets
    /// every other finished animation, since only one plays at a time.
    /// Nothing comes of it when the policy does not animate.
    pub fn animation(&mut self, url: &str) -> (r: Lookup)
        ensures
            if old(self).policy.animate {
                &&& *final(self) == (CoverLoader { animations: final(self).animations, ..*old(self)
                })
                &&& Animations::asked(old(self).animations, url@, r, final(self).animations)
            } else {
                r == Lookup::Waiting && *final(self) == *old(self)
            },
    {
        if !self.policy.animate {
            return Lookup::Waiting;
        }
        self.animations.ask(url)
    }
}

/// A cover that was asked for and is on its way is not loaded a second time: asking again waits.
pub proof fn covers_load_once<T>(
    before: Textures<T>,
    url: Seq<char>,
    width: u32,
    now: u64,
    between: Textures<T>,
    later: u64,
    r: Lookup,
    after: Textures<T>,
)
    requires
        before.wf(),
        between.wf(),
        Textures::looked_up(before, url, width, now, Lookup::Start, between),
        Textures::looked_up(between, url, width, later, r, after),
    ensures
        r == Lookup::Waiting,
        after == between,
{
    assert(between.pending@.last().is(url, width));
    let last = between.pending@.len() - 1;
    assert(between.pending@[last].is(url, width));
    if between.is_ready(url, width) {
        let i = choose|i: int|
            0 <= i < between.ready@.len() && (#[trigger] between.ready@[i]).is(url, width);
        assert(!between.ready@[i].is(between.pending@[last].url@, between.pending@[last].width));
    }
}

/// A cover that was loaded is at hand the next time it is asked for; one that failed is not
/// tried again before its time.
pub proof fn loads_are_remembered<T>(
    before: Textures<T>,
    url: Seq<char>,
    width: u32,
    outcome: Option<(T, usize)>,
    now: u64,
    between: Textures<T>,
    later: u64,
    r: Lookup,
    after: Textures<T>,
)
    requires
        before.wf(),
        between.wf(),
        before.is_pending(url, width),
        Textures::loaded(before, url, width, outcome, now, between),
        Textures::looked_up(between, url, width, later, r, after),
    ensures
        outcome matches Some((handle, _)) ==> (r matches Lookup::Ready(i)
            && after.ready@[i as int].handle == handle),
        outcome is None && later - now < RETRY_AFTER ==> r == Lookup::Waiting,
        outcome is None && later - now >= RETRY_AFTER ==> r == Lookup::Start,
{
    let j = choose|j: int|
        0 <= j < before.pending@.len() && (#[trigger] before.pending@[j]).is(url, width);
    match outcome {
        Some((handle, _)) => {
            let last = between.ready@.len() - 1;
            assert(between.ready@[last].is(url, width));
            let i = r->Ready_0 as int;
            if i < last {
                assert(!between.ready@[i].is(
                    between.ready@[last].url@,
                    between.ready@[last].width,
                ));
            }
            assert(after.ready@[i].handle == handle);
        },
        None => {
            let last = between.failed@.len() - 1;
            assert(between.failed@[last].is(url, width));
            if between.is_ready(url, width) {
                let i = choose|i: int|
                    0 <= i < between.ready@.len() && (#[trigger] between.ready@[i]).is(url, width);
                assert(!before.ready@[i].is(before.pending@[j].url@, before.pending@[j].width));
            }
            if between.is_pending(url, width) {
                let keep = |p: Request| !p.is(url, width);
                let i = choose|i: int|
                    0 <= i < between.pending@.len() && (#[trigger] between.pending@[i]).is(
                        url,
                        width,
                    );
                assert(between.pending@.contains(between.pending@[i]));
                before.pending@.lemma_filter_contains_rev(keep, between.pending@[i]);
            }
            if between.failed_lately(url, width, later) {
                let i = choose|i: int|
                    0 <= i < between.failed@.len() && (#[trigger] between.failed@[i]).is(url, width)
                        && later - between.failed@[i].at < RETRY_AFTER;
                if i < last {
                    assert(!between.failed@[i].is(
                        between.failed@[last].url@,
                        between.failed@[last].width,
                    ));
                }
            }
        },
    }
}

// ---------------------------------------------------------------------------
// The cache on disk
// ---------------------------------------------------------------------------

/// A finished file of the cache.
#[derive(Debug, PartialEq, Eq)]
pub struct CacheFile {
    /// When it was last used, in nanoseconds.
    pub modified: u64,
    pub len: u64,
    pub path: String,
}

/// Whether one file goes before another: the one used longer ago; then the smaller; then the
/// one whose path comes first.
pub open spec fn file_before(a: CacheFile, b: CacheFile) -> bool {
    a.modified < b.modified || (a.modified == b.modified && (a.len < b.len || (a.len == b.len
        && precedes(a.path@, b.path@))))
}

impl SortKey for CacheFile {
    open spec fn before(a: Self, b: Self) -> bool {
        file_before(a, b)
    }

    proof fn is_order(a: Self, b: Self, c: Self) {
        text_order_is_total(a.path@, a.path@);
        text_order_is_total(a.path@, b.path@);
        text_order_is_total(b.path@, c.path@);
        text_order_is_total(a.path@, c.path@);
        if precedes(a.path@, b.path@) && precedes(b.path@, c.path@) {
            text_order_is_transitive(a.path@, b.path@, c.path@);
        }
        if precedes(c.path@, b.path@) && precedes(b.path@, a.path@) {
            text_order_is_transitive(c.path@, b.path@, a.path@);
        }
    }

    fn goes_before(&self, other: &Self) -> (r: bool) {
        self.modified < other.modified || (self.modified == other.modified && (self.len < other.len
            || (self.len == other.len && sorts_before(self.path.as_str(), other.path.as_str()))))
    }
}

/// Whether a file of the cache is finished: a file being written has the extension `part`.
pub fn is_finished(path: &str) -> (r: bool)
    ensures
        r == (extension_of(path@) != Some("part"@)),
{
    match extension(path) {
        Some(ext) => !same(ext.as_str(), "part"),
        None => true,
    }
}

/// The bytes of the cache's files.
pub open spec fn total_of(files: Seq<CacheFile>) -> int
    decreases files.len(),
{
    if files.len() == 0 {
        0
    } else {
        total_of(files.drop_last()) + files.last().len
    }
}

proof fn lemma_total_grows(files: Seq<CacheFile>, n: int)
    requires
        0 <= n <= files.len(),
    ensures
        0 <= total_of(files.take(n)) <= total_of(files),
    decreases files.len() - n,
{
    if n < files.len() {
        lemma_total_grows(files, n + 1);
        assert(files.take(n + 1).drop_last() =~= files.take(n));
        if n == 0 {
            assert(files.take(0) =~= Seq::empty());
        } else {
            lemma_total_positive(files.take(n));
        }
    } else {
        assert(files.take(n) =~= files);
        lemma_total_positive(files);
    }
}

proof fn lemma_total_positive(files: Seq<CacheFile>)
    ensures
        total_of(files) >= 0,
    decreases files.len(),
{
    if files.len() > 0 {
        lemma_total_positive(files.drop_last());
    }
}

/// How many bytes the cache's files take.
pub fn total(files: &Vec<CacheFile>) -> (r: u64)
    requires
        total_of(files@) <= u64::MAX,
    ensures
        r == total_of(files@),
{
    let mut r: u64 = 0;
    let mut i: usize = 0;
    assert(files@.take(0) =~= Seq::empty());
    while i < files.len()
        invariant
            i <= files@.len(),
            total_of(files@) <= u64::MAX,
            r == total_of(files@.take(i as int)),
        decreases files@.len() - i,
    {
        proof {
            lemma_total_grows(files@, i + 1);
            assert(files@.take(i + 1).drop_last() =~= files@.take(i as int));
        }
        r = r + files[i].len;
        i += 1;
    }
    assert(files@.take(i as int) =~= files@);
    r
}

/// A prune under way: the files by age, how many were tried, and what is left.
#[derive(Debug)]
pub struct Prune {
    pub files: Vec<CacheFile>,
    pub order: Vec<usize>,
    pub tried: usize,
    pub total: u64,
    pub target: u64,
    pub removed: u64,
}

/// The bytes of the files that an order lists from `from` on.
pub open spec fn total_from(files: Seq<CacheFile>, order: Seq<int>, from: int) -> int
    decreases order.len() - from,
{
    if from >= order.len() {
        0
    } else {
        files[order[from]].len + total_from(files, order, from + 1)
    }
}

proof fn lemma_total_from_positive(files: Seq<CacheFile>, order: Seq<int>, from: int)
    ensures
        total_from(files, order, from) >= 0,
    decreases order.len() - from,
{
    if from < order.len() {
        lemma_total_from_positive(files, order, from + 1);
    }
}

proof fn lemma_total_from_insert(files: Seq<CacheFile>, order: Seq<int>, at: int, n: int, from: int)
    requires
        0 <= at <= order.len(),
        0 <= from <= order.len() + 1,
    ensures
        total_from(files, order.insert(at, n), from) == if from <= at {
            total_from(files, order, from) + files[n].len
        } else {
            total_from(files, order, from - 1)
        },
    decreases order.len() + 1 - from,
{
    let more = order.insert(at, n);
    if from <= order.len() {
        lemma_total_from_insert(files, order, at, n, from + 1);
        if from < at {
            assert(more[from] == order[from]);
        } else if from == at {
            assert(more[from] == n);
        } else {
            assert(more[from] == order[from - 1]);
        }
    }
}

proof fn lemma_total_from_prefix(files: Seq<CacheFile>, order: Seq<int>, from: int)
    requires
        files.len() > 0,
        0 <= from,
        forall|i: int| 0 <= i < order.len() ==> 0 <= (#[trigger] order[i]) < files.len() - 1,
    ensures
        total_from(files, order, from) == total_from(files.drop_last(), order, from),
    decreases order.len() - from,
{
    if from < order.len() {
        lemma_total_from_prefix(files, order, from + 1);
        assert(files.drop_last()[order[from]] == files[order[from]]);
    }
}

proof fn lemma_totals_agree(files: Seq<CacheFile>)
    ensures
        total_from(files, stable_order(files), 0) == total_of(files),
    decreases files.len(),
{
    if files.len() > 0 {
        let rest = files.drop_last();
        let order = stable_order(rest);
        lemma_totals_agree(rest);
        sorting_is_stable(rest);
        sorting_is_stable(files);
        lemma_total_from_prefix(files, order, 0);
        let at = slot(order, files, files.last());
        lemma_slot_within(order, files, files.last());
        lemma_total_from_insert(files, order, at, files.len() - 1, 0);
    }
}

proof fn lemma_slot_within(order: Seq<int>, files: Seq<CacheFile>, file: CacheFile)
    ensures
        0 <= slot(order, files, file) <= order.len(),
    decreases order.len(),
{
    if order.len() > 0 {
        lemma_slot_within(order.drop_last(), files, file);
    }
}

impl Prune {
    /// The order in which the files are tried.
    pub open spec fn by_age(&self) -> Seq<int> {
        self.order@.map_values(|i: usize| i as int)
    }

    /// The files that are yet to be tried are among those that are left; as long as every
    /// deletion went through, they are all that is left.
    pub open spec fn wf(&self) -> bool {
        &&& self.by_age() == stable_order(self.files@)
        &&& self.tried <= self.order@.len()
        &&& self.removed <= self.tried
        &&& total_from(self.files@, self.by_age(), self.tried as int) <= self.total
        &&& self.removed == self.tried ==> total_from(
            self.files@,
            self.by_age(),
            self.tried as int,
        ) == self.total
    }

    /// The file to delete next, if the cache is not yet well under budget.
    pub open spec fn next_file(&self) -> Option<Seq<char>> {
        if self.total <= self.target || self.tried >= self.order@.len() {
            None
        } else {
            Some(self.files@[self.by_age()[self.tried as int]].path@)
        }
    }

    /// Starts to prune: the least recently used files go until the cache is well under
    /// budget, so pruning does not run again on the next write.
    pub fn new(files: Vec<CacheFile>, budget: u64) -> (r: Self)
        requires
            total_of(files@) <= u64::MAX,
        ensures
            r.wf(),
            r.files == files,
            r.tried == 0,
            r.removed == 0,
            r.total == total_of(files@),
            r.target == budget / 10 * 9,
    {
        let total = total(&files);
        let order = sorted(&files);
        proof {
            lemma_totals_agree(files@);
        }
        Prune { files, order, tried: 0, total, target: budget / 10 * 9, removed: 0 }
    }

    /// The file to delete next; none once the cache is well under budget.
    pub fn next(&self) -> (r: Option<&str>)
        requires
            self.wf(),
        ensures
            match r {
                Some(path) => self.next_file() == Some(path@),
                None => self.next_file() is None,
            },
    {
        if self.total <= self.target || self.tried >= self.order.len() {
            return None;
        }
        proof {
            sorting_is_stable(self.files@);
            assert(self.by_age()[self.tried as int] == self.order@[self.tried as int]);
        }
        let at = self.order[self.tried];
        Some(self.files[at].path.as_str())
    }

    /// Takes in whether that file was deleted.
    pub fn note(&mut self, deleted: bool)
        requires
            old(self).wf(),
            old(self).next_file() is Some,
        ensures
            final(self).wf(),
            final(self).tried == old(self).tried + 1,
            final(self).total == old(self).total - (if deleted {
                old(self).files@[old(self).by_age()[old(self).tried as int]].len as int
            } else {
                0
            }),
            final(self).removed == old(self).removed + (if deleted {
                1int
            } else {
                0
            }),
            *final(self) == (Prune {
                tried: final(self).tried,
                total: final(self).total,
                removed: final(self).removed,
                ..*old(self)
            }),
    {
        proof {
            sorting_is_stable(self.files@);
            assert(self.by_age()[self.tried as int] == self.order@[self.tried as int]);
            lemma_total_from_positive(self.files@, self.by_age(), self.tried + 1);
        }
        let count = self.order.len();
        let at = self.order[self.tried];
        if deleted {
            self.total = self.total - self.files[at].len;
            self.removed = self.removed + 1;
        }
        self.tried = self.tried + 1;
    }
}

/// A prune of which every deletion went through ends well under the budget.
pub proof fn pruning_ends_under_budget(prune: Prune)
    requires
        prune.wf(),
        prune.next_file() is None,
        prune.removed == prune.tried,
    ensures
        prune.total <= prune.target,
{
}

/// A prune tries every file once, and none before one that was used longer ago.
pub proof fn pruning_goes_by_age(prune: Prune, i: int, j: int)
    requires
        prune.wf(),
        0 <= i < j < prune.order@.len(),
    ensures
        prune.order@.len() == prune.files@.len(),
        prune.by_age()[i] != prune.by_age()[j],
        prune.files@[prune.by_age()[i]].modified <= prune.files@[prune.by_age()[j]].modified,
{
    sorting_is_stable(prune.files@);
    assert(prune.by_age().len() == prune.order@.len());
    let a = stable_order(prune.files@)[i];
    let b = stable_order(prune.files@)[j];
    assert(!CacheFile::before(prune.files@[b], prune.files@[a]));
}

/// The bytes on disk once a file was written over another, in arithmetic that wraps round.
pub fn after_write(used: u64, replaced: u64, written: u64) -> (r: u64)
    ensures
        r == (used - replaced + written) % 0x1_0000_0000_0000_0000,
{
    used.wrapping_sub(replaced).wrapping_add(written)
}

/// The bytes on disk once a file was deleted, in arithmetic that wraps round.
pub fn after_remove(used: u64, removed: u64) -> (r: u64)
    ensures
        r == (used - removed) % 0x1_0000_0000_0000_0000,
{
    used.wrapping_sub(removed)
}

/// Whether the cache has outgrown its budget.
pub fn over_budget(used: u64, policy: &Policy) -> (r: bool)
    ensures
        r == (used > policy.disk_budget),
{
    used > policy.disk_budget
}

// ---------------------------------------------------------------------------
// File names
// ---------------------------------------------------------------------------

/// What std's default hasher makes of an address.
pub open spec fn hash_number(url: Seq<char>) -> u64 {
    DefaultHasher::spec_finish(
        seq![vstd::utf8::encode_utf8(url), seq![0xffu8]],
    )
}

/// The bytes of a number, the highest first.
pub open spec fn high_first(n: u64) -> Seq<u8> {
    seq![
        (n / 0x100_0000_0000_0000 % 256) as u8,
        (n / 0x1_0000_0000_0000 % 256) as u8,
        (n / 0x100_0000_0000 % 256) as u8,
        (n / 0x1_0000_0000 % 256) as u8,
        (n / 0x100_0000 % 256) as u8,
        (n / 0x1_0000 % 256) as u8,
        (n / 0x100 % 256) as u8,
        (n % 256) as u8,
    ]
}

/// The hash of an address as sixteen digits in base sixteen.
pub open spec fn hash_of(url: Seq<char>) -> Seq<char> {
    hex(high_first(hash_number(url)))
}

fn hash(url: &str) -> (r: String)
    ensures
        r@ == hash_of(url@),
{
    let mut hasher = DefaultHasher::new();
    hasher.write(url.as_bytes());
    let end: [u8; 1] = [0xff];
    hasher.write(&end);
    assert(end@ =~= seq![0xffu8]);
    assert(hasher@ =~= seq![vstd::utf8::encode_utf8(url@), seq![0xffu8]]);
    let n = hasher.finish();
    let bytes = vec![
        (n / 0x100_0000_0000_0000 % 256) as u8,
        (n / 0x1_0000_0000_0000 % 256) as u8,
        (n / 0x100_0000_0000 % 256) as u8,
        (n / 0x1_0000_0000 % 256) as u8,
        (n / 0x100_0000 % 256) as u8,
        (n / 0x1_0000 % 256) as u8,
        (n / 0x100 % 256) as u8,
        (n % 256) as u8,
    ];
    assert(bytes@ =~= high_first(n));
    hex_text(&bytes)
}

/// A letter or a digit of ASCII.
pub open spec fn is_alphanumeric(c: char) -> bool {
    ('0' <= c <= '9') || ('a' <= c <= 'z') || ('A' <= c <= 'Z')
}

/// What follows the last dot of an address; all of it if there is none.
pub open spec fn after_last_dot(url: Seq<char>) -> Seq<char>
    decreases url.len(),
{
    if url.len() == 0 || url.last() == '.' {
        Seq::empty()
    } else {
        after_last_dot(url.drop_last()).push(url.last())
    }
}

/// The extension of an original's file: that of its address if it is short and plain.
pub open spec fn cache_extension(url: Seq<char>) -> Seq<char> {
    let ext = after_last_dot(url);
    if ext.len() <= 4 && forall|i: int| 0 <= i < ext.len() ==> is_alphanumeric(#[trigger] ext[i]) {
        ext
    } else {
        "img"@
    }
}

/// A filename for an original that is unique to the URL and safe everywhere.
pub fn cache_name(url: &str) -> (r: String)
    ensures
        r@ == hash_of(url@) + "."@ + cache_extension(url@),
{
    let chars = characters(url);
    let mut from: usize = chars.len();
    let mut plain = true;
    assert(chars@.skip(from as int) =~= Seq::empty());
    assert(chars@.take(from as int) =~= chars@);
    while from > 0 && chars[from - 1] != '.'
        invariant
            from <= chars@.len(),
            chars@ == url@,
            plain == (forall|i: int|
                from <= i < chars@.len() ==> is_alphanumeric(#[trigger] chars@[i])),
            after_last_dot(chars@) == after_last_dot(chars@.take(from as int)) + chars@.skip(
                from as int,
            ),
        decreases from,
    {
        let c = chars[from - 1];
        let good = ('0' <= c && c <= '9') || ('a' <= c && c <= 'z') || ('A' <= c && c <= 'Z');
        proof {
            assert(chars@.take(from as int).drop_last() =~= chars@.take(from - 1));
            assert(after_last_dot(chars@.take(from - 1)).push(c) + chars@.skip(from as int)
                =~= after_last_dot(chars@.take(from - 1)) + chars@.skip(from - 1));
            assert(good == is_alphanumeric(chars@[from - 1]));
        }
        from -= 1;
        plain = plain && good;
    }
    proof {
        assert(after_last_dot(chars@.take(from as int)) =~= Seq::empty());
        assert(after_last_dot(url@) =~= chars@.skip(from as int));
        let ext = after_last_dot(url@);
        assert(plain == (forall|i: int| 0 <= i < ext.len() ==> is_alphanumeric(#[trigger] ext[i])))
            by {
            if plain {
                assert forall|i: int| 0 <= i < ext.len() implies is_alphanumeric(
                    #[trigger] ext[i],
                ) by {
                    assert(ext[i] == chars@[from + i]);
                }
            } else {
                let k = choose|k: int|
                    from <= k < chars@.len() && !is_alphanumeric(#[trigger] chars@[k]);
                assert(ext[k - from] == chars@[k]);
            }
        }
    }
    let name = hash(url);
    if chars.len() - from <= 4 && plain {
        let ext = piece(&chars, from, chars.len());
        assert(chars@.subrange(from as int, chars@.len() as int) =~= chars@.skip(from as int));
        joined3(name.as_str(), ".", ext.as_str())
    } else {
        joined3(name.as_str(), ".", "img")
    }
}

/// The file of a cover's copy at a width.
pub fn variant_name(url: &str, width: u32) -> (r: String)
    ensures
        r@ == "v2-"@ + hash_of(url@) + "-w"@ + (decimal(width as nat) + ".jpg"@),
{
    let name = hash(url);
    let head = joined3("v2-", name.as_str(), "-w");
    let number = number_text(width as u64);
    joined3(head.as_str(), number.as_str(), ".jpg")
}

// ---------------------------------------------------------------------------
// What holds of the covers as a whole
// ---------------------------------------------------------------------------

/// What was drawn in the last two frames stays, whatever it costs; of the rest, what was drawn
/// longer ago goes before what was drawn since.
pub proof fn covers_drawn_longest_ago_go_first<T>(
    ready: Seq<Slot<T>>,
    frame: int,
    budget: int,
    gone: Slot<T>,
    kept: Slot<T>,
)
    requires
        ready.contains(gone),
        !trimmed_to(ready, frame, budget).contains(gone),
        trimmed_to(ready, frame, budget).contains(kept),
    ensures
        gone.last_used + 2 < frame,
        kept.last_used + 2 < frame ==> gone.last_used <= kept.last_used,
{
    if gone.last_used + 2 >= frame {
        textures_on_screen_stay(ready, frame, budget, gone);
    }
    if kept.last_used + 2 < frame {
        the_least_recently_drawn_go_first(ready, frame, budget, gone, kept);
    }
}

/// Nothing goes while everything fits.
pub proof fn covers_stay_while_they_fit<T>(ready: Seq<Slot<T>>, frame: int, budget: int)
    requires
        bytes_of(ready) <= budget,
    ensures
        trimmed_to(ready, frame, budget) == ready,
{
}

/// A cover that could not be had is asked for again after a minute, not before.
pub proof fn failed_covers_are_tried_after_a_minute<T>(
    textures: Textures<T>,
    i: int,
    url: Seq<char>,
    width: u32,
    now: u64,
    r: Lookup,
    post: Textures<T>,
)
    requires
        textures.wf(),
        0 <= i < textures.failed@.len(),
        textures.failed@[i].url@ == url && textures.failed@[i].width == width,
        !textures.is_ready(url, width),
        !textures.is_pending(url, width),
        Textures::looked_up(textures, url, width, now, r, post),
    ensures
        now - textures.failed@[i].at < 60_000_000_000 ==> r == Lookup::Waiting && post == textures,
        now - textures.failed@[i].at >= 60_000_000_000 ==> r == Lookup::Start && post.is_pending(
            url,
            width,
        ),
{
    assert(textures.failed@[i].is(url, width));
    if now - textures.failed@[i].at >= 60_000_000_000 {
        assert(!textures.failed_lately(url, width, now)) by {
            if textures.failed_lately(url, width, now) {
                let j = choose|j: int|
                    0 <= j < textures.failed@.len() && (#[trigger] textures.failed@[j]).is(url, width)
                        && now - textures.failed@[j].at < RETRY_AFTER;
                if j < i {
                    assert(!textures.failed@[j].is(textures.failed@[i].url@, textures.failed@[i].width));
                } else if i < j {
                    assert(!textures.failed@[i].is(textures.failed@[j].url@, textures.failed@[j].width));
                }
            }
        }
        let last = post.pending@.len() - 1;
        assert(post.pending@[last].is(url, width));
    } else {
        assert(textures.failed_lately(url, width, now));
    }
}

/// An animation is loaded when it is first asked for and waited for until it is there; asking
/// for another lets go of it.
pub proof fn animations_are_loaded_when_asked_for<A>(
    pre: Animations<A>,
    url: Seq<char>,
    r: Lookup,
    post: Animations<A>,
)
    requires
        Animations::asked(pre, url, r, post),
    ensures
        (forall|i: int| 0 <= i < pre.entries@.len() ==> (#[trigger] pre.entries@[i]).url@ != url)
            ==> r == Lookup::Start && post.entries@.last().url@ == url
            && post.entries@.last().entry is Pending,
        r matches Lookup::Ready(i) ==> i < post.entries@.len() && post.entries@[i as int].url@ == url
            && post.entries@[i as int].entry is Ready,
        (exists|i: int| 0 <= i < pre.entries@.len() && (#[trigger] pre.entries@[i]).url@ == url) ==> r
            != Lookup::Start,
{
    let keep = stays_for::<A>(url);
    let kept = kept_for(pre.entries@, url);
    crate::lists::filtering_keeps_what_passes(pre.entries@, keep);
    let at = place_of(kept, url, kept.len() as int);
    lemma_place(kept, url, kept.len() as int);
    assert(post.entries.len() <= usize::MAX);
    if forall|i: int| 0 <= i < pre.entries@.len() ==> (#[trigger] pre.entries@[i]).url@ != url {
        if at >= 0 {
            assert(kept.contains(kept[at]));
            assert(pre.entries@.contains(kept[at]));
            let i = choose|i: int| 0 <= i < pre.entries@.len() && pre.entries@[i] == kept[at];
            assert(pre.entries@[i].url@ == url);
        }
    }
    if exists|i: int| 0 <= i < pre.entries@.len() && (#[trigger] pre.entries@[i]).url@ == url {
        let i = choose|i: int| 0 <= i < pre.entries@.len() && (#[trigger] pre.entries@[i]).url@ == url;
        assert(pre.entries@.contains(pre.entries@[i]));
        assert(keep(pre.entries@[i]));
        assert(kept.contains(pre.entries@[i]));
        let k = choose|k: int| 0 <= k < kept.len() && kept[k] == pre.entries@[i];
        assert(kept[k].url@ == url);
    }
}

/// The cache is pruned from the oldest file on, until nine tenths of the budget are used at most.
pub proof fn pruning_takes_the_oldest_that_is_left(prune: Prune)
    requires
        prune.wf(),
    ensures
        prune.total <= prune.target ==> prune.next_file() is None,
        prune.total > prune.target && prune.tried < prune.order@.len() ==> (
        prune.next_file() matches Some(path) && path
            == prune.files@[prune.order@[prune.tried as int] as int].path@ && forall|k: int|
            prune.tried < k < prune.order@.len() ==> prune.files@[prune.order@[prune.tried as int] as int].modified
                <= prune.files@[#[trigger] prune.order@[k] as int].modified),
{
    if prune.total > prune.target && prune.tried < prune.order@.len() {
        assert forall|k: int| prune.tried < k < prune.order@.len() implies prune.files@[prune.order@[prune.tried as int] as int].modified
            <= prune.files@[#[trigger] prune.order@[k] as int].modified by {
            pruning_goes_by_age(prune, prune.tried as int, k);
            assert(prune.by_age()[k] == prune.order@[k]);
            assert(prune.by_age()[prune.tried as int] == prune.order@[prune.tried as int]);
        }
    }
}

/// A file in the cache keeps the extension of its address, where that is a short one of letters
/// and digits; any other address gets a plain one.
pub proof fn cached_files_keep_short_extensions(stem: Seq<char>, ext: Seq<char>)
    requires
        !ext.contains('.'),
    ensures
        after_last_dot(stem.push('.') + ext) == ext,
        ext.len() <= 4 && (forall|i: int| 0 <= i < ext.len() ==> is_alphanumeric(#[trigger] ext[i]))
            ==> cache_extension(stem.push('.') + ext) == ext,
        ext.len() > 4 ==> cache_extension(stem.push('.') + ext) == "img"@,
        ext.contains('/') ==> cache_extension(stem.push('.') + ext) == "img"@,
    decreases ext.len(),
{
    lemma_after_dot(stem, ext);
    if ext.contains('/') {
        let k = choose|k: int| 0 <= k < ext.len() && ext[k] == '/';
        assert(!is_alphanumeric(ext[k]));
    }
}

proof fn lemma_after_dot(stem: Seq<char>, ext: Seq<char>)
    requires
        !ext.contains('.'),
    ensures
        after_last_dot(stem.push('.') + ext) == ext,
    decreases ext.len(),
{
    let all = stem.push('.') + ext;
    if ext.len() == 0 {
        assert(all =~= stem.push('.'));
        assert(ext =~= Seq::empty());
    } else {
        let rest = ext.drop_last();
        assert(!rest.contains('.')) by {
            if rest.contains('.') {
                let k = choose|k: int| 0 <= k < rest.len() && rest[k] == '.';
                assert(ext[k] == '.');
            }
        }
        lemma_after_dot(stem, rest);
        assert(all.drop_last() =~= stem.push('.') + rest);
        assert(all.last() == ext[ext.len() - 1]);
        assert(rest.push(ext.last()) =~= ext);
    }
}

} // verus!
