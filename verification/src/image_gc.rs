//! Which images are deleted when the disk fills up.
//!
//! Once the disk is used beyond the high threshold, images are deleted until it
//! is used up to the low threshold: those that were not used for the longest
//! time go first, and images that are in use or were used a short time ago stay.
use crate::lists::{lemma_stable_order_distinct, sort_indices, stable_order, SortKey};
use crate::strmap::{distinct_keys, lemma_map_of_value, StrMap};
use crate::text::texts;
use crate::types::Timestamp;
use vstd::prelude::*;

verus! {

/// An image on disk.
#[derive(Debug)]
pub struct ImageInfo {
    pub id: String,
    pub repo_tags: Vec<String>,
    pub repo_digests: Vec<String>,
    pub size_bytes: u64,
}

/// An image and how it was used.
#[derive(Debug)]
pub struct TrackedImage {
    pub info: ImageInfo,
    /// When a container was last started from the image.
    pub last_used: Timestamp,
    /// Whether a running container uses the image.
    pub in_use: bool,
}

/// A part of a whole.
#[derive(Debug, Clone, Copy, PartialEq, Eq, Structural)]
pub struct Fraction {
    pub numerator: u64,
    pub denominator: u64,
}

/// When images are deleted.
#[derive(Debug, Clone, Copy, PartialEq, Eq, Structural)]
pub struct ImageGcConfig {
    /// The part of the disk beyond which images are deleted.
    pub high_threshold: Fraction,
    /// The part of the disk that may stay used.
    pub low_threshold: Fraction,
    /// For how many nanoseconds an image stays after it was used.
    pub min_age_ns: i128,
}

impl ImageGcConfig {
    pub open spec fn wf(self) -> bool {
        self.high_threshold.denominator > 0 && self.low_threshold.denominator > 0
    }
}

impl Default for ImageGcConfig {
    fn default() -> (r: Self)
        ensures
            r.wf(),
            r == (ImageGcConfig {
                high_threshold: Fraction { numerator: 85, denominator: 100 },
                low_threshold: Fraction { numerator: 80, denominator: 100 },
                min_age_ns: 120_000_000_000,
            }),
    {
        ImageGcConfig {
            high_threshold: Fraction { numerator: 85, denominator: 100 },
            low_threshold: Fraction { numerator: 80, denominator: 100 },
            min_age_ns: 120_000_000_000,
        }
    }
}

/// Which images to delete, in order, and how many bytes that is to free.
#[derive(Debug)]
pub struct GcPlan {
    pub to_delete: Vec<String>,
    pub bytes_to_free: u64,
}

impl GcPlan {
    pub fn is_empty(&self) -> (r: bool)
        ensures
            r == (self.to_delete@.len() == 0),
    {
        self.to_delete.len() == 0
    }
}

/// Decides which images are deleted.
#[derive(Debug)]
pub struct ImageGcManager {
    pub config: ImageGcConfig,
    pub images: StrMap<TrackedImage>,
    /// The images that running containers use.
    pub pinned: StrMap<()>,
}

/// Whether more than a part of the disk is used.
pub open spec fn beyond(used: u64, total: u64, part: Fraction) -> bool {
    used * part.denominator > total * part.numerator
}

/// A part of the disk in bytes, rounded up.
pub open spec fn part_of_disk(total: u64, part: Fraction) -> int {
    (total * part.numerator + part.denominator - 1) / (part.denominator as int)
}

/// How many bytes are used beyond a part of the disk, rounded down.
pub open spec fn excess(used: u64, total: u64, part: Fraction) -> int {
    if used > part_of_disk(total, part) {
        used - part_of_disk(total, part)
    } else {
        0
    }
}

/// Whether an image may be deleted: it is not pinned and was not used within
/// the minimum age.
pub open spec fn deletable(
    image: TrackedImage,
    pinned: Map<Seq<char>, ()>,
    min_age_ns: i128,
    now: int,
) -> bool {
    !pinned.contains_key(image.info.id@) && now - image.last_used.ns() > min_age_ns
}

/// The positions of the images that may be deleted.
pub open spec fn eligible(
    pairs: Seq<(Seq<char>, TrackedImage)>,
    pinned: Map<Seq<char>, ()>,
    min_age_ns: i128,
    now: int,
) -> Seq<int>
    decreases pairs.len(),
{
    if pairs.len() == 0 {
        Seq::empty()
    } else {
        let front = eligible(pairs.drop_last(), pinned, min_age_ns, now);
        if deletable(pairs.last().1, pinned, min_age_ns, now) {
            front.push(pairs.len() - 1)
        } else {
            front
        }
    }
}

/// The keys by which the images at `at` are put in order: by last use.
pub open spec fn age_keys(pairs: Seq<(Seq<char>, TrackedImage)>, at: Seq<int>) -> Seq<SortKey> {
    at.map_values(|i: int| (pairs[i].1.last_used.ns() as i128, 0i128))
}

/// The images at `at`, in the given order.
pub open spec fn arranged(
    pairs: Seq<(Seq<char>, TrackedImage)>,
    at: Seq<int>,
    order: Seq<usize>,
) -> Seq<TrackedImage> {
    Seq::new(order.len(), |i: int| pairs[at[order[i] as int]].1)
}

/// The sizes of some images together.
pub open spec fn sizes(images: Seq<TrackedImage>) -> nat
    decreases images.len(),
{
    if images.len() == 0 {
        0
    } else {
        sizes(images.drop_last()) + images.last().info.size_bytes as nat
    }
}

/// The shortest beginning of `images` that is large enough; all of them where
/// none is.
pub open spec fn enough(images: Seq<TrackedImage>, need: int, n: int) -> bool {
    &&& 0 <= n <= images.len()
    &&& sizes(images.take(n)) >= need || n == images.len()
    &&& forall|m: int| 0 <= m < n ==> sizes(#[trigger] images.take(m)) < need
}

pub open spec fn image_ids(images: Seq<TrackedImage>) -> Seq<Seq<char>> {
    images.map_values(|t: TrackedImage| t.info.id@)
}

/// What is deleted: the images that were not used for the longest time, as many
/// as are needed.
pub open spec fn plan_is(
    m: ImageGcManager,
    used: u64,
    total: u64,
    now: int,
    order: Seq<usize>,
    n: int,
    plan: GcPlan,
) -> bool {
    let pairs = m.images.pairs();
    let at = eligible(pairs, m.pinned@, m.config.min_age_ns, now);
    let images = arranged(pairs, at, order);
    &&& stable_order(age_keys(pairs, at), order)
    &&& plan.bytes_to_free == excess(used, total, m.config.low_threshold)
    &&& enough(images, plan.bytes_to_free as int, n)
    &&& texts(plan.to_delete@) == image_ids(images.take(n))
}

proof fn lemma_eligible_bounds(
    pairs: Seq<(Seq<char>, TrackedImage)>,
    pinned: Map<Seq<char>, ()>,
    min_age_ns: i128,
    now: int,
)
    ensures
        forall|k: int|
            0 <= k < eligible(pairs, pinned, min_age_ns, now).len() ==> 0 <= (#[trigger] eligible(
                pairs,
                pinned,
                min_age_ns,
                now,
            )[k]) < pairs.len() && deletable(
                pairs[eligible(pairs, pinned, min_age_ns, now)[k]].1,
                pinned,
                min_age_ns,
                now,
            ),
    decreases pairs.len(),
{
    if pairs.len() > 0 {
        lemma_eligible_bounds(pairs.drop_last(), pinned, min_age_ns, now);
        let front = eligible(pairs.drop_last(), pinned, min_age_ns, now);
        let all = eligible(pairs, pinned, min_age_ns, now);
        assert forall|k: int| 0 <= k < all.len() implies 0 <= (#[trigger] all[k]) < pairs.len()
            && deletable(pairs[all[k]].1, pinned, min_age_ns, now) by {
            if k < front.len() {
                assert(all[k] == front[k]);
                assert(pairs[front[k]] == pairs.drop_last()[front[k]]);
            }
        }
    }
}

/// The size of all images together.
pub open spec fn all_sizes(pairs: Seq<(Seq<char>, TrackedImage)>) -> nat
    decreases pairs.len(),
{
    if pairs.len() == 0 {
        0
    } else {
        all_sizes(pairs.drop_last()) + pairs.last().1.info.size_bytes as nat
    }
}

proof fn lemma_all_sizes_mono(pairs: Seq<(Seq<char>, TrackedImage)>, i: int)
    requires
        0 <= i <= pairs.len(),
    ensures
        all_sizes(pairs.take(i)) <= all_sizes(pairs),
    decreases pairs.len() - i,
{
    if i < pairs.len() {
        lemma_all_sizes_mono(pairs, i + 1);
        assert(pairs.take(i + 1).drop_last() =~= pairs.take(i));
    } else {
        assert(pairs.take(i) =~= pairs);
    }
}

/// An image that was tracked just now.
pub open spec fn newly_tracked(t: TrackedImage, info: ImageInfo, now: Timestamp) -> bool {
    t.info == info && t.last_used == now && !t.in_use
}

/// The first of `available` with the given identifier.
pub open spec fn first_with(available: Seq<ImageInfo>, id: Seq<char>) -> Option<ImageInfo>
    decreases available.len(),
{
    if available.len() == 0 {
        None
    } else {
        match first_with(available.drop_last(), id) {
            Some(i) => Some(i),
            None => if available.last().id@ == id {
                Some(available.last())
            } else {
                None
            },
        }
    }
}

/// The tracked images after some became available: those that were tracked
/// already stay as they are.
pub open spec fn tracked_after(
    before: Map<Seq<char>, TrackedImage>,
    available: Seq<ImageInfo>,
    now: Timestamp,
    after: Map<Seq<char>, TrackedImage>,
) -> bool {
    forall|k: Seq<char>|
        if before.contains_key(k) {
            (#[trigger] after.contains_key(k)) && after[k] == before[k]
        } else {
            match first_with(available, k) {
                Some(i) => after.contains_key(k) && newly_tracked(after[k], i, now),
                None => !after.contains_key(k),
            }
        }
}

/// The tracked images that are among `available`.
pub open spec fn still_there(
    before: Map<Seq<char>, TrackedImage>,
    available: Seq<ImageInfo>,
    after: Map<Seq<char>, TrackedImage>,
) -> bool {
    forall|k: Seq<char>|
        if before.contains_key(k) && first_with(available, k) is Some {
            (#[trigger] after.contains_key(k)) && after[k] == before[k]
        } else {
            !after.contains_key(k)
        }
}

pub open spec fn info_ids(v: Seq<ImageInfo>) -> Seq<Seq<char>> {
    v.map_values(|i: ImageInfo| i.id@)
}

proof fn lemma_first_with(available: Seq<ImageInfo>, id: Seq<char>)
    ensures
        first_with(available, id) is Some <==> info_ids(available).contains(id),
    decreases available.len(),
{
    let ids = info_ids(available);
    if available.len() > 0 {
        let front = available.drop_last();
        lemma_first_with(front, id);
        assert(info_ids(front) =~= ids.drop_last());
        if ids.contains(id) {
            let x = choose|x: int| 0 <= x < ids.len() && ids[x] == id;
            if x < front.len() {
                assert(info_ids(front)[x] == id);
            }
        }
        if info_ids(front).contains(id) {
            let x = choose|x: int| 0 <= x < front.len() && info_ids(front)[x] == id;
            assert(ids[x] == id);
        }
        assert(ids[available.len() - 1] == available.last().id@);
    }
}

/// The tracked images are those that are available; one that was tracked before
/// stays as it was.
pub open spec fn synced(
    before: Map<Seq<char>, TrackedImage>,
    available: Seq<ImageInfo>,
    now: Timestamp,
    after: Map<Seq<char>, TrackedImage>,
) -> bool {
    forall|k: Seq<char>|
        match first_with(available, k) {
            Some(i) => (#[trigger] after.contains_key(k)) && if before.contains_key(k) {
                after[k] == before[k]
            } else {
                newly_tracked(after[k], i, now)
            },
            None => !after.contains_key(k),
        }
}

proof fn lemma_sync(
    before: Map<Seq<char>, TrackedImage>,
    available: Seq<ImageInfo>,
    now: Timestamp,
    kept: Map<Seq<char>, TrackedImage>,
    after: Map<Seq<char>, TrackedImage>,
)
    requires
        still_there(before, available, kept),
        tracked_after(kept, available, now, after),
    ensures
        synced(before, available, now, after),
{
    assert forall|k: Seq<char>|
        match first_with(available, k) {
            Some(i) => (#[trigger] after.contains_key(k)) && if before.contains_key(k) {
                after[k] == before[k]
            } else {
                newly_tracked(after[k], i, now)
            },
            None => !after.contains_key(k),
        } by {
        assert(kept.contains_key(k) == (before.contains_key(k) && first_with(available, k)
            is Some));
        match first_with(available, k) {
            Some(i) => {
                assert(after.contains_key(k));
                if before.contains_key(k) {
                    assert(kept[k] == before[k]);
                    assert(after[k] == kept[k]);
                } else {
                    assert(!kept.contains_key(k));
                    assert(newly_tracked(after[k], i, now));
                }
            },
            None => {
                assert(!after.contains_key(k));
            },
        }
    }
}

impl ImageGcManager {
    /// Each image is kept under its own identifier.
    pub open spec fn wf(self) -> bool {
        forall|k: Seq<char>| #[trigger]
            self.images@.contains_key(k) ==> self.images@[k].info.id@ == k
    }

    pub fn new(config: ImageGcConfig) -> (r: Self)
        ensures
            r.wf(),
            r.config == config,
            r.images@ == Map::<Seq<char>, TrackedImage>::empty(),
            r.pinned@ == Map::<Seq<char>, ()>::empty(),
    {
        ImageGcManager { config, images: StrMap::new(), pinned: StrMap::new() }
    }

    /// Tracks an image that is available; one that is tracked already stays as
    /// it is.
    pub fn track_image(&mut self, info: ImageInfo, now: Timestamp)
        ensures
            old(self).wf() ==> final(self).wf(),
            final(self).config == old(self).config,
            final(self).pinned == old(self).pinned,
            tracked_after(old(self).images@, seq![info], now, final(self).images@),
    {
        let id = info.id.clone();
        proof {
            let one = seq![info];
            assert(one.drop_last() =~= Seq::<ImageInfo>::empty());
            assert forall|k: Seq<char>| #[trigger] first_with(one, k) == (if info.id@ == k {
                Some(info)
            } else {
                None
            }) by {
                assert(first_with(one.drop_last(), k) is None);
            }
        }
        if !self.images.contains_key(id.as_str()) {
            self.images.insert(id, TrackedImage { info, last_used: now, in_use: false });
        }
    }

    /// Pins an image that a container uses from now on.
    pub fn mark_in_use(&mut self, image_id: &str, now: Timestamp)
        ensures
            old(self).wf() ==> final(self).wf(),
            final(self).config == old(self).config,
            final(self).pinned@ == old(self).pinned@.insert(image_id@, ()),
            final(self).images@ == if old(self).images@.contains_key(image_id@) {
                old(self).images@.insert(
                    image_id@,
                    TrackedImage {
                        last_used: now,
                        in_use: true,
                        ..old(self).images@[image_id@]
                    },
                )
            } else {
                old(self).images@
            },
    {
        let ghost before = self.images@;
        self.pinned.insert(image_id.to_owned(), ());
        if let Some(t) = self.images.remove(image_id) {
            let next = TrackedImage { info: t.info, last_used: now, in_use: true };
            self.images.insert(image_id.to_owned(), next);
            assert(self.images@ =~= before.insert(image_id@, next));
        } else {
            assert(self.images@ =~= before);
        }
    }

    /// Unpins an image that no container uses any more.
    pub fn mark_not_in_use(&mut self, image_id: &str)
        ensures
            old(self).wf() ==> final(self).wf(),
            final(self).config == old(self).config,
            final(self).pinned@ == old(self).pinned@.remove(image_id@),
            final(self).images@ == if old(self).images@.contains_key(image_id@) {
                old(self).images@.insert(
                    image_id@,
                    TrackedImage { in_use: false, ..old(self).images@[image_id@] },
                )
            } else {
                old(self).images@
            },
    {
        let ghost before = self.images@;
        let _ = self.pinned.remove(image_id);
        if let Some(t) = self.images.remove(image_id) {
            let next = TrackedImage { info: t.info, last_used: t.last_used, in_use: false };
            self.images.insert(image_id.to_owned(), next);
            assert(self.images@ =~= before.insert(image_id@, next));
        } else {
            assert(self.images@ =~= before);
        }
    }

    /// Forgets an image that was deleted.
    pub fn remove_image(&mut self, image_id: &str)
        ensures
            old(self).wf() ==> final(self).wf(),
            final(self).config == old(self).config,
            final(self).images@ == old(self).images@.remove(image_id@),
            final(self).pinned@ == old(self).pinned@.remove(image_id@),
    {
        let _ = self.images.remove(image_id);
        let _ = self.pinned.remove(image_id);
    }

    /// Brings the tracked images in line with those on disk: those that are
    /// gone are forgotten and new ones tracked.
    pub fn sync(&mut self, available: Vec<ImageInfo>, now: Timestamp)
        ensures
            old(self).wf() ==> final(self).wf(),
            final(self).config == old(self).config,
            final(self).pinned == old(self).pinned,
            synced(old(self).images@, available@, now, final(self).images@),
    {
        let ghost start = self.images@;
        let ghost all = available@;
        let mut ids: Vec<String> = Vec::new();
        let mut i: usize = 0;
        while i < available.len()
            invariant
                i <= available@.len(),
                available@ == all,
                texts(ids@) == info_ids(all).take(i as int),
            decreases available@.len() - i,
        {
            let ghost before = texts(ids@);
            ids.push(available[i].id.clone());
            i = i + 1;
            assert(texts(ids@) =~= before.push(all[i - 1].id@));
            assert(texts(ids@) =~= info_ids(all).take(i as int));
        }
        assert(texts(ids@) =~= info_ids(all));
        self.images.retain_keys(&ids);
        let ghost kept = self.images@;
        assert(still_there(start, all, kept)) by {
            assert forall|k: Seq<char>|
                if start.contains_key(k) && first_with(all, k) is Some {
                    (#[trigger] kept.contains_key(k)) && kept[k] == start[k]
                } else {
                    !kept.contains_key(k)
                } by {
                lemma_first_with(all, k);
            }
        }
        let mut rest = available;
        let ghost mut n: int = 0;
        while rest.len() > 0
            invariant
                0 <= n <= all.len(),
                rest@ == all.skip(n),
                self.config == old(self).config,
                self.pinned == old(self).pinned,
                old(self).wf() ==> self.wf(),
                tracked_after(kept, all.take(n), now, self.images@),
            decreases rest@.len(),
        {
            let ghost mid = self.images@;
            let info = rest.remove(0);
            assert(info == all[n]);
            assert(rest@ =~= all.skip(n + 1));
            assert(all.take(n + 1).drop_last() =~= all.take(n));
            self.track_image(info, now);
            proof {
                let one = seq![info];
                assert(one.drop_last() =~= Seq::<ImageInfo>::empty());
                assert forall|k: Seq<char>|
                    if kept.contains_key(k) {
                        (#[trigger] self.images@.contains_key(k)) && self.images@[k] == kept[k]
                    } else {
                        match first_with(all.take(n + 1), k) {
                            Some(i) => self.images@.contains_key(k) && newly_tracked(
                                self.images@[k],
                                i,
                                now,
                            ),
                            None => !self.images@.contains_key(k),
                        }
                    } by {
                    assert(mid.contains_key(k) || !mid.contains_key(k));
                    assert(first_with(one.drop_last(), k) is None);
                    assert(first_with(one, k) == (if info.id@ == k {
                        Some(info)
                    } else {
                        None
                    }));
                    assert(all.take(n + 1).last() == info);
                    assert(self.images@.contains_key(k) || !self.images@.contains_key(k));
                    let before = first_with(all.take(n), k);
                    assert(first_with(all.take(n + 1), k) == (if before is Some {
                        before
                    } else if info.id@ == k {
                        Some(info)
                    } else {
                        None
                    }));
                }
                n = n + 1;
            }
        }
        proof {
            assert(all.take(n) =~= all);
            lemma_sync(start, all, now, kept, self.images@);
        }
    }

    /// Says which images to delete for the given use of the disk: none up to
    /// the high threshold.
    pub fn gc_candidates(&self, disk_used_bytes: u64, disk_total_bytes: u64, now: Timestamp) -> (r:
        GcPlan)
        requires
            self.config.wf(),
        ensures
            if beyond(disk_used_bytes, disk_total_bytes, self.config.high_threshold) {
                exists|order: Seq<usize>, n: int|
                    plan_is(*self, disk_used_bytes, disk_total_bytes, now.ns(), order, n, r)
            } else {
                r.to_delete@.len() == 0 && r.bytes_to_free == 0
            },
    {
        let high = self.config.high_threshold;
        let low = self.config.low_threshold;
        proof {
            lemma_product_bound(disk_used_bytes, high.denominator);
            lemma_product_bound(disk_total_bytes, high.numerator);
            lemma_product_bound(disk_total_bytes, low.numerator);
        }
        let used_part: u128 = disk_used_bytes as u128 * high.denominator as u128;
        let high_part: u128 = disk_total_bytes as u128 * high.numerator as u128;
        if used_part <= high_part {
            return GcPlan { to_delete: Vec::new(), bytes_to_free: 0 };
        }
        let allowed: u128 = (disk_total_bytes as u128 * low.numerator as u128 + (low.denominator
            - 1) as u128) / low.denominator as u128;
        let bytes_to_free: u64 = if disk_used_bytes as u128 > allowed {
            (disk_used_bytes as u128 - allowed) as u64
        } else {
            0
        };
        let min_age_ns: i128 = self.config.min_age_ns;
        let now_ns: i128 = now.as_nanos();
        let n: usize = self.images.len();
        let ghost pairs = self.images.pairs();
        let ghost at = eligible(pairs, self.pinned@, min_age_ns, now.ns());
        let mut found: Vec<usize> = Vec::new();
        let mut keys: Vec<SortKey> = Vec::new();
        let mut i: usize = 0;
        while i < n
            invariant
                i <= n == pairs.len(),
                pairs == self.images.pairs(),
                now_ns == now.ns(),
                min_age_ns == self.config.min_age_ns,
                ({
                    let part = eligible(pairs.take(i as int), self.pinned@, min_age_ns, now.ns());
                    &&& found@.len() == part.len()
                    &&& keys@.len() == part.len()
                    &&& forall|k: int|
                        0 <= k < part.len() ==> (#[trigger] found@[k]) == part[k] && found@[k] < i
                    &&& forall|k: int|
                        0 <= k < part.len() ==> (#[trigger] keys@[k]) == (
                            pairs[part[k]].1.last_used.ns() as i128,
                            0i128,
                        )
                }),
            decreases n - i,
        {
            let t = self.images.value_at(i);
            let ghost part = eligible(pairs.take(i as int), self.pinned@, min_age_ns, now.ns());
            assert(pairs.take(i + 1).drop_last() =~= pairs.take(i as int));
            let pinned = self.pinned.contains_key(t.info.id.as_str());
            let used_ns: i128 = t.last_used.as_nanos();
            if !pinned && now_ns - used_ns > min_age_ns {
                found.push(i);
                keys.push((used_ns, 0));
                assert(eligible(pairs.take(i + 1), self.pinned@, min_age_ns, now.ns()) == part.push(
                    i as int,
                ));
            }
            i = i + 1;
        }
        assert(pairs.take(i as int) =~= pairs);
        assert(keys@ =~= age_keys(pairs, at));
        let order = sort_indices(&keys);
        let ghost images = arranged(pairs, at, order@);
        proof {
            lemma_eligible_bounds(pairs, self.pinned@, min_age_ns, now.ns());
        }
        let mut to_delete: Vec<String> = Vec::new();
        let mut freed: u128 = 0;
        let mut k: usize = 0;
        assert(texts(to_delete@) =~= image_ids(images.take(0)));
        while k < order.len() && freed < bytes_to_free as u128
            invariant
                k <= order@.len(),
                order@.len() == images.len() == at.len() == found@.len(),
                n == pairs.len(),
                pairs == self.images.pairs(),
                images == arranged(pairs, at, order@),
                stable_order(age_keys(pairs, at), order@),
                forall|x: int|
                    0 <= x < at.len() ==> (#[trigger] found@[x]) == at[x] && found@[x] < n,
                freed == sizes(images.take(k as int)),
                k > 0 ==> sizes(images.take(k - 1)) < bytes_to_free,
                freed <= k * 0xffff_ffff_ffff_ffff,
                forall|m: int| 0 <= m < k ==> sizes(#[trigger] images.take(m)) < bytes_to_free,
                texts(to_delete@) == image_ids(images.take(k as int)),
            decreases order@.len() - k,
        {
            let ghost before = texts(to_delete@);
            assert(order@[k as int] < at.len());
            let slot: usize = order[k];
            assert(found@[slot as int] == at[slot as int]);
            let image = self.images.value_at(found[slot]);
            assert(*image == images[k as int]);
            assert(images.take(k + 1).drop_last() =~= images.take(k as int));
            assert(images.take(k + 1).last() == *image);
            freed = freed + image.info.size_bytes as u128;
            to_delete.push(image.info.id.clone());
            k = k + 1;
            assert(texts(to_delete@) =~= before.push(image.info.id@));
            assert(image_ids(images.take(k as int)) =~= image_ids(images.take(k - 1)).push(
                image.info.id@,
            ));
        }
        let r = GcPlan { to_delete, bytes_to_free };
        proof {
            assert(enough(images, bytes_to_free as int, k as int));
            assert(plan_is(
                *self,
                disk_used_bytes,
                disk_total_bytes,
                now.ns(),
                order@,
                k as int,
                r,
            ));
        }
        r
    }

    /// The size of all tracked images together.
    pub fn total_image_bytes(&self) -> (r: u64)
        requires
            all_sizes(self.images.pairs()) <= u64::MAX,
        ensures
            r == all_sizes(self.images.pairs()),
    {
        let n: usize = self.images.len();
        let ghost pairs = self.images.pairs();
        let mut sum: u64 = 0;
        let mut i: usize = 0;
        while i < n
            invariant
                i <= n == pairs.len(),
                pairs == self.images.pairs(),
                all_sizes(pairs) <= u64::MAX,
                sum == all_sizes(pairs.take(i as int)),
            decreases n - i,
        {
            proof {
                assert(pairs.take(i + 1).drop_last() =~= pairs.take(i as int));
                lemma_all_sizes_mono(pairs, i + 1);
            }
            sum = sum + self.images.value_at(i).info.size_bytes;
            i = i + 1;
        }
        assert(pairs.take(i as int) =~= pairs);
        sum
    }

    pub fn image_count(&self) -> (r: usize)
        ensures
            r == self.images@.len(),
    {
        self.images.len()
    }

    pub fn pinned_count(&self) -> (r: usize)
        ensures
            r == self.pinned@.len(),
    {
        self.pinned.len()
    }
}

proof fn lemma_product_bound(a: u64, b: u64)
    ensures
        0 <= a * b <= 0xffff_ffff_ffff_ffff * 0xffff_ffff_ffff_ffff,
{
    assert(0 <= a * b <= 0xffff_ffff_ffff_ffff * 0xffff_ffff_ffff_ffff) by (nonlinear_arith)
        requires
            0 <= a <= 0xffff_ffff_ffff_ffff,
            0 <= b <= 0xffff_ffff_ffff_ffff,
    ;
}

/// No plan names an image that is in use or was used within the minimum age.
pub proof fn law_used_images_stay(
    m: ImageGcManager,
    used: u64,
    total: u64,
    now: int,
    order: Seq<usize>,
    n: int,
    plan: GcPlan,
    i: int,
)
    requires
        plan_is(m, used, total, now, order, n, plan),
        0 <= i < plan.to_delete@.len(),
    ensures
        !m.pinned@.contains_key(plan.to_delete@[i]@),
        exists|k: int|
            0 <= k < m.images.pairs().len() && (#[trigger] m.images.pairs()[k]).1.info.id@
                == plan.to_delete@[i]@ && now - m.images.pairs()[k].1.last_used.ns()
                > m.config.min_age_ns,
{
    let pairs = m.images.pairs();
    let at = eligible(pairs, m.pinned@, m.config.min_age_ns, now);
    lemma_eligible_bounds(pairs, m.pinned@, m.config.min_age_ns, now);
    let images = arranged(pairs, at, order);
    assert(texts(plan.to_delete@).len() == plan.to_delete@.len());
    assert(image_ids(images.take(n)).len() == n);
    assert(i < order.len());
    assert(texts(plan.to_delete@)[i] == image_ids(images.take(n))[i]);
    assert(order[i] < age_keys(pairs, at).len());
    let k = at[order[i] as int];
    assert(pairs[k].1 == images[i]);
}

/// An image that is deleted was not used later than any other that might have
/// been deleted in its place.
pub proof fn law_oldest_images_go_first(
    m: ImageGcManager,
    used: u64,
    total: u64,
    now: int,
    order: Seq<usize>,
    n: int,
    plan: GcPlan,
    i: int,
    j: int,
)
    requires
        plan_is(m, used, total, now, order, n, plan),
        0 <= i < j < order.len(),
    ensures
        ({
            let pairs = m.images.pairs();
            let at = eligible(pairs, m.pinned@, m.config.min_age_ns, now);
            pairs[at[order[i] as int]].1.last_used.ns() as i128
                <= pairs[at[order[j] as int]].1.last_used.ns() as i128
        }),
{
    let pairs = m.images.pairs();
    let at = eligible(pairs, m.pinned@, m.config.min_age_ns, now);
    let keys = age_keys(pairs, at);
    assert(order[i] < keys.len() && order[j] < keys.len());
    assert(crate::lists::comes_before(keys, order[i] as int, order[j] as int));
}

proof fn lemma_eligible_increases(
    pairs: Seq<(Seq<char>, TrackedImage)>,
    pinned: Map<Seq<char>, ()>,
    min_age_ns: i128,
    now: int,
)
    ensures
        ({
            let at = eligible(pairs, pinned, min_age_ns, now);
            forall|i: int, j: int| 0 <= i < j < at.len() ==> #[trigger] at[i] < #[trigger] at[j]
        }),
    decreases pairs.len(),
{
    if pairs.len() > 0 {
        lemma_eligible_increases(pairs.drop_last(), pinned, min_age_ns, now);
        lemma_eligible_bounds(pairs.drop_last(), pinned, min_age_ns, now);
        let front = eligible(pairs.drop_last(), pinned, min_age_ns, now);
        let at = eligible(pairs, pinned, min_age_ns, now);
        assert forall|i: int, j: int| 0 <= i < j < at.len() implies #[trigger] at[i]
            < #[trigger] at[j] by {
            assert(at[i] == front[i]);
            if j < front.len() {
                assert(at[j] == front[j]);
            }
        }
    }
}

/// A plan names tracked images only, and none of them twice.
pub proof fn law_plan_names_each_image_once(
    m: ImageGcManager,
    used: u64,
    total: u64,
    now: int,
    order: Seq<usize>,
    n: int,
    plan: GcPlan,
)
    requires
        m.wf(),
        distinct_keys(m.images.pairs()),
        plan_is(m, used, total, now, order, n, plan),
    ensures
        texts(plan.to_delete@).no_duplicates(),
        forall|i: int|
            0 <= i < plan.to_delete@.len() ==> m.images@.contains_key(
                (#[trigger] plan.to_delete@[i])@,
            ),
{
    let pairs = m.images.pairs();
    let at = eligible(pairs, m.pinned@, m.config.min_age_ns, now);
    let images = arranged(pairs, at, order);
    let ids = texts(plan.to_delete@);
    lemma_eligible_bounds(pairs, m.pinned@, m.config.min_age_ns, now);
    lemma_eligible_increases(pairs, m.pinned@, m.config.min_age_ns, now);
    lemma_stable_order_distinct(age_keys(pairs, at), order);
    assert(ids.len() == n);
    assert forall|i: int| 0 <= i < ids.len() implies order[i] < at.len() && ids[i]
        == pairs[at[(#[trigger] order[i]) as int]].0 && m.images@.contains_key(ids[i]) by {
        assert(order[i] < age_keys(pairs, at).len());
        let x = at[order[i] as int];
        assert(ids[i] == image_ids(images.take(n))[i]);
        assert(images.take(n)[i] == pairs[x].1);
        lemma_map_of_value(pairs, x);
        assert(m.images@.contains_key(pairs[x].0));
        assert(m.images@[pairs[x].0] == pairs[x].1);
    }
    assert forall|i: int, j: int| 0 <= i < ids.len() && 0 <= j < ids.len() && i != j implies ids[i]
        != ids[j] by {
        assert(order[i] != order[j]);
        let x = at[order[i] as int];
        let y = at[order[j] as int];
        assert(x != y);
        assert(pairs[x].0 != pairs[y].0);
    }
    assert forall|i: int| 0 <= i < plan.to_delete@.len() implies m.images@.contains_key(
        (#[trigger] plan.to_delete@[i])@,
    ) by {
        assert(ids[i] == plan.to_delete@[i]@);
        assert(order[i] < at.len());
    }
}

/// Deleting what a plan names brings the use of the disk down to the low
/// threshold, as far as there are images that may be deleted: else the plan
/// names every one of them.
pub proof fn law_collection_reaches_the_low_threshold(
    m: ImageGcManager,
    used: u64,
    total: u64,
    now: int,
    order: Seq<usize>,
    n: int,
    plan: GcPlan,
)
    requires
        plan_is(m, used, total, now, order, n, plan),
    ensures
        ({
            let at = eligible(m.images.pairs(), m.pinned@, m.config.min_age_ns, now);
            let gone = arranged(m.images.pairs(), at, order).take(n);
            &&& texts(plan.to_delete@) == image_ids(gone)
            &&& used - sizes(gone) <= part_of_disk(total, m.config.low_threshold) || gone.len()
                == at.len()
        }),
{
}

/// A threshold is a part of the disk: with thresholds in hundredths, images are
/// deleted once more than that many hundredths are used, and as much as lies
/// beyond the lower one is to be freed.
pub proof fn law_thresholds_are_parts_of_the_disk(used: u64, hundredth: u64, percent: u64)
    requires
        hundredth * 100 <= u64::MAX,
        percent <= 100,
    ensures
        ({
            let total = (hundredth * 100) as u64;
            let part = Fraction { numerator: percent, denominator: 100 };
            &&& beyond(used, total, part) <==> used > hundredth * percent
            &&& part_of_disk(total, part) == hundredth * percent
            &&& used > hundredth * percent ==> excess(used, total, part) == used - hundredth
                * percent
            &&& used <= hundredth * percent ==> excess(used, total, part) == 0
        }),
{
    let total = (hundredth * 100) as u64;
    let part = Fraction { numerator: percent, denominator: 100 };
    let x: int = hundredth * percent;
    assert(total * percent == 100 * x) by (nonlinear_arith)
        requires
            total == hundredth * 100,
            x == hundredth * percent,
    ;
    assert(part_of_disk(total, part) == (100 * x + 99) / 100);
}

/// The larger the part, the later it is exceeded.
pub proof fn law_larger_parts_are_exceeded_later(used: u64, total: u64, a: u64, b: u64, d: u64)
    requires
        a <= b,
        d > 0,
        beyond(used, total, Fraction { numerator: b, denominator: d }),
    ensures
        beyond(used, total, Fraction { numerator: a, denominator: d }),
{
    assert(total * a <= total * b) by (nonlinear_arith)
        requires
            a <= b,
    ;
}

/// An image may go exactly where no running container uses it and it has not
/// been used for longer than the least age.
pub proof fn law_old_unused_images_may_go(
    pairs: Seq<(Seq<char>, TrackedImage)>,
    pinned: Map<Seq<char>, ()>,
    min_age_ns: i128,
    now: int,
    i: int,
)
    ensures
        eligible(pairs, pinned, min_age_ns, now).contains(i) <==> 0 <= i < pairs.len()
            && !pinned.contains_key(pairs[i].1.info.id@) && now - pairs[i].1.last_used.ns()
            > min_age_ns,
    decreases pairs.len(),
{
    if pairs.len() > 0 {
        let front = pairs.drop_last();
        let f = eligible(front, pinned, min_age_ns, now);
        let all = eligible(pairs, pinned, min_age_ns, now);
        let n = pairs.len() - 1;
        law_old_unused_images_may_go(front, pinned, min_age_ns, now, i);
        if 0 <= i < n {
            assert(front[i] == pairs[i]);
        }
        if f.contains(i) {
            let j = choose|j: int| 0 <= j < f.len() && f[j] == i;
            assert(all[j] == i);
        }
        if deletable(pairs[n].1, pinned, min_age_ns, now) {
            assert(all[f.len() as int] == n);
        }
        if all.contains(i) && !f.contains(i) {
            let j = choose|j: int| 0 <= j < all.len() && all[j] == i;
            if j < f.len() {
                assert(f[j] == i);
            }
        }
    }
}

/// No more images go than are needed: without the last one, too little would
/// be freed.
pub proof fn law_no_image_goes_in_vain(
    m: ImageGcManager,
    used: u64,
    total: u64,
    now: int,
    order: Seq<usize>,
    n: int,
    plan: GcPlan,
)
    requires
        plan_is(m, used, total, now, order, n, plan),
        n > 0,
    ensures
        ({
            let at = eligible(m.images.pairs(), m.pinned@, m.config.min_age_ns, now);
            sizes(arranged(m.images.pairs(), at, order).take(n - 1)) < plan.bytes_to_free
        }),
        plan.to_delete@.len() == n,
{
    let at = eligible(m.images.pairs(), m.pinned@, m.config.min_age_ns, now);
    let images = arranged(m.images.pairs(), at, order);
    assert(sizes(images.take(n - 1)) < plan.bytes_to_free);
    assert(texts(plan.to_delete@).len() == plan.to_delete@.len());
    assert(image_ids(images.take(n)).len() == n);
}

/// After a synchronisation just the images that there are are known; those that
/// were known keep when they were last used, and new ones count as used now.
pub proof fn law_just_the_present_images_are_known(
    before: Map<Seq<char>, TrackedImage>,
    available: Seq<ImageInfo>,
    now: Timestamp,
    after: Map<Seq<char>, TrackedImage>,
    k: Seq<char>,
)
    requires
        synced(before, available, now, after),
    ensures
        after.contains_key(k) <==> exists|i: int|
            0 <= i < available.len() && (#[trigger] available[i]).id@ == k,
        after.contains_key(k) && before.contains_key(k) ==> after[k] == before[k],
        after.contains_key(k) && !before.contains_key(k) ==> after[k].last_used == now
            && !after[k].in_use && after[k].info.id@ == k,
{
    lemma_first_with_id(available, k);
}

proof fn lemma_first_with_id(available: Seq<ImageInfo>, id: Seq<char>)
    ensures
        first_with(available, id) is Some <==> exists|i: int|
            0 <= i < available.len() && (#[trigger] available[i]).id@ == id,
        first_with(available, id) matches Some(x) ==> x.id@ == id,
    decreases available.len(),
{
    if available.len() > 0 {
        let front = available.drop_last();
        let n = available.len() - 1;
        lemma_first_with_id(front, id);
        if exists|i: int| 0 <= i < front.len() && (#[trigger] front[i]).id@ == id {
            let i = choose|i: int| 0 <= i < front.len() && (#[trigger] front[i]).id@ == id;
            assert(available[i].id@ == id);
        }
        if exists|i: int| 0 <= i < available.len() && (#[trigger] available[i]).id@ == id {
            let i = choose|i: int| 0 <= i < available.len() && (#[trigger] available[i]).id@ == id;
            if i < n {
                assert(front[i].id@ == id);
            }
        }
        if available[n].id@ == id {
            assert(first_with(available, id) is Some);
        }
    }
}

/// The size of all images is the sum of their sizes.
pub proof fn law_each_image_counts(pairs: Seq<(Seq<char>, TrackedImage)>, p: (
    Seq<char>,
    TrackedImage,
))
    ensures
        all_sizes(pairs.push(p)) == all_sizes(pairs) + p.1.info.size_bytes,
        all_sizes(Seq::<(Seq<char>, TrackedImage)>::empty()) == 0,
{
    assert(pairs.push(p).drop_last() =~= pairs);
}

/// An image that is tracked anew counts as used now and by no container; one
/// that is known stays as it is, and so do the others.
pub proof fn law_tracked_images_are_known(
    before: Map<Seq<char>, TrackedImage>,
    info: ImageInfo,
    now: Timestamp,
    after: Map<Seq<char>, TrackedImage>,
    other: Seq<char>,
)
    requires
        tracked_after(before, seq![info], now, after),
    ensures
        after.contains_key(info.id@),
        !before.contains_key(info.id@) ==> after[info.id@].info == info && after[info.id@].last_used
            == now && !after[info.id@].in_use,
        before.contains_key(other) ==> after.contains_key(other) && after[other] == before[other],
        other != info.id@ && !before.contains_key(other) ==> !after.contains_key(other),
{
    let one = seq![info];
    assert(one.drop_last() =~= Seq::<ImageInfo>::empty());
    assert(one.last() == info);
    assert(first_with(one.drop_last(), info.id@) is None);
    assert(first_with(one, info.id@) == Some(info));
    assert(first_with(one.drop_last(), other) is None);
    if before.contains_key(info.id@) {
        assert(after.contains_key(info.id@));
    }
    if before.contains_key(other) {
        assert(after.contains_key(other));
    }
}

/// A part of the disk is the least number of bytes that makes it up.
pub proof fn law_parts_of_the_disk_are_rounded_up(total: u64, part: Fraction)
    requires
        part.denominator > 0,
    ensures
        part_of_disk(total, part) * part.denominator >= total * part.numerator,
        (part_of_disk(total, part) - 1) * part.denominator < total * part.numerator,
{
    let x = total * part.numerator;
    let d = part.denominator as int;
    let q = (x + d - 1) / d;
    assert(q * d >= x && (q - 1) * d < x) by (nonlinear_arith)
        requires
            d > 0,
            q == (x + d - 1) / d,
    ;
}

/// An image may go once it is older than the least age, and not while it is
/// pinned.
pub proof fn law_pinned_and_young_images_stay(
    image: TrackedImage,
    pinned: Map<Seq<char>, ()>,
    min_age_ns: i128,
    now: int,
)
    ensures
        deletable(image, pinned, min_age_ns, now) <==> !pinned.contains_key(image.info.id@) && now
            > image.last_used.ns() + min_age_ns,
{
}

} // verus!
