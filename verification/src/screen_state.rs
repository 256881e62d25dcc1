//! Per-screen rotation state: which photo of the album is shown, and until when.

use rand::rngs::StdRng;
use rand::seq::SliceRandom;
use rand::{Rng, SeedableRng};
use vstd::prelude::*;

use crate::config::ScreenConfig;
use crate::schedule::{
    cron_trigger, instant, listed_instant, may_be_next, next_cron, next_natural, utc_offset, Rotate,
    Timezone,
};
use crate::time::{representable, DateTime, TimeDelta, MAX_SECS, MIN_SECS};

verus! {

/// The order in which a screen with the shuffle seed `seed` shows an album of `n`
/// photos.
pub uninterp spec fn shuffle_order(seed: u64, n: nat) -> Seq<usize>;

/// Whether `order` lists each of the first `n` indices exactly once.
pub open spec fn is_order(order: Seq<usize>, n: nat) -> bool {
    &&& order.len() == n
    &&& forall|i: int| 0 <= i < n ==> #[trigger] order[i] < n
    &&& order.no_duplicates()
}

/// Whether a vector of `n` indices can be held in memory, and the album is not
/// empty.
pub open spec fn album_size(n: usize) -> bool {
    0 < n && n * (usize::BITS / 8) <= isize::MAX
}

/// The places of an album can be counted with a signed number.
proof fn album_fits(n: usize)
    requires
        album_size(n),
    ensures
        n <= i64::MAX,
{
    assert(n <= n * (usize::BITS / 8)) by (nonlinear_arith)
        requires
            usize::BITS / 8 >= 1,
    ;
}

/// `SliceRandom::shuffle` of the indices in ascending order by a `StdRng` seeded with
/// `seed`: it only swaps elements, so each index stays listed once, and the
/// generator's output is fixed by its seed.
#[verifier::external_body]
fn shuffle(seed: u64, ascending: Vec<usize>) -> (r: Vec<usize>)
    requires
        forall|i: int| 0 <= i < ascending@.len() ==> #[trigger] ascending@[i] == i,
    ensures
        r@ == shuffle_order(seed, ascending@.len()),
        is_order(r@, ascending@.len()),
{
    let mut order = ascending;
    order.shuffle(&mut StdRng::seed_from_u64(seed));
    order
}

/// The indices below `n`, shuffled by `seed`.
fn shuffled_indices(seed: u64, n: usize) -> (r: Vec<usize>)
    requires
        album_size(n),
    ensures
        r@ == shuffle_order(seed, n as nat),
        is_order(r@, n as nat),
{
    let mut ascending: Vec<usize> = Vec::new();
    let mut i: usize = 0;
    while i < n
        invariant
            i <= n,
            ascending@.len() == i,
            forall|j: int| 0 <= j < i ==> #[trigger] ascending@[j] == j,
        decreases n - i,
    {
        ascending.push(i);
        i = i + 1;
    }
    shuffle(seed, ascending)
}

/// `Rng::random` on the thread's generator: any number.
#[verifier::external_body]
fn random_seed() -> u64 {
    rand::rng().random()
}

/// `v` as a 64-bit signed number, two's complement.
pub open spec fn wrapped(v: int) -> int {
    if v > i64::MAX {
        v - 0x1_0000_0000_0000_0000
    } else if v < i64::MIN {
        v + 0x1_0000_0000_0000_0000
    } else {
        v
    }
}

/// The photo at the place `cursor` of the shuffled album, counted cyclically.
pub open spec fn index_at(seed: u64, cursor: int, n: nat) -> usize {
    shuffle_order(seed, n)[cursor % (n as int)]
}

/// The photo `i` places on from `cursor`.
pub open spec fn index_from(seed: u64, cursor: int, i: int, n: nat) -> usize {
    index_at(seed, wrapped(cursor + i), n)
}

/// The least offset from `cursor`, at least `from` and below `n`, at which the
/// shuffled album shows one of the photos `new`.
pub open spec fn first_landing(
    seed: u64,
    cursor: int,
    new: Seq<usize>,
    n: nat,
    from: nat,
) -> Option<nat>
    decreases n - from,
{
    if from >= n {
        None
    } else if new.contains(index_from(seed, cursor, from as int, n)) {
        Some(from)
    } else {
        first_landing(seed, cursor, new, n, from + 1)
    }
}

/// Where the cursor goes from `cursor` to show one of the photos `new`: as few
/// places on as will do, and nowhere if no place within one round will.
pub open spec fn snapped(seed: u64, cursor: int, new: Seq<usize>, n: nat) -> int {
    match first_landing(seed, cursor, new, n, 0) {
        Some(offset) => wrapped(cursor + offset),
        None => cursor,
    }
}

/// The state of a screen: shuffle seed, place in the shuffled album, the moment of
/// the next rotation if there is to be one, and the schedule and time zone that
/// decide it.
pub struct Rotation {
    pub seed: u64,
    pub cursor: int,
    pub next: Option<int>,
    pub rotate: Option<Rotate>,
    pub tz: Timezone,
}

impl Rotation {
    /// Whether a rotation is due at `now`.
    pub open spec fn due(self, now: int) -> bool {
        self.next is Some && self.next->0 <= now
    }

    /// Whether the schedule can be asked for the trigger after `now`: a cron
    /// schedule needs the second after it to exist.
    pub open spec fn can_ask(self, now: int) -> bool {
        self.due(now) && self.rotate is Some && self.rotate->0 is Cron ==> now < MAX_SECS
            * 1_000_000_000
    }

    /// Whether `next` is what the schedule says of the rotation after `now`. A
    /// natural-language schedule answers as of the system clock, with the offset
    /// that the zone has at `now`.
    pub open spec fn follows(self, now: int, next: Option<int>) -> bool {
        match self.rotate {
            None => next is None,
            Some(Rotate::Cron(e)) => next == next_cron(e@, now, self.tz@),
            Some(Rotate::Natural(e)) => next_natural(e@, utc_offset(self.tz@, now), next),
        }
    }

    /// The state after a rotation.
    pub open spec fn rotated(self, seed: u64, next: Option<int>) -> Rotation {
        Rotation { seed, cursor: 0, next, ..self }
    }
}

/// Per-screen rotation state.
pub struct ScreenState {
    seed: u64,
    cursor: i64,
    next_rotation: Option<DateTime>,
    rotate: Option<Rotate>,
    tz: Timezone,
}

impl View for ScreenState {
    type V = Rotation;

    closed spec fn view(&self) -> Rotation {
        Rotation {
            seed: self.seed,
            cursor: self.cursor as int,
            next: instant(self.next_rotation),
            rotate: self.rotate,
            tz: self.tz,
        }
    }
}

impl ScreenState {
    /// The state of a screen that has not shown anything yet: a rotation is due at
    /// once, whatever the schedule.
    pub fn new(config: &ScreenConfig) -> (r: ScreenState)
        ensures
            r@ == (Rotation {
                seed: 0,
                cursor: 0,
                next: Some(MIN_SECS * 1_000_000_000),
                rotate: config.rotate,
                tz: config.timezone,
            }),
    {
        let rotate = match &config.rotate {
            Some(r) => Some(r.clone()),
            None => None,
        };
        ScreenState {
            seed: 0,
            cursor: 0,
            next_rotation: Some(DateTime::min_utc()),
            rotate,
            tz: config.timezone.clone(),
        }
    }

    /// The shuffle seed.
    pub fn seed(&self) -> (r: u64)
        ensures
            r == self@.seed,
    {
        self.seed
    }

    /// The place in the shuffled album.
    pub fn cursor(&self) -> (r: i64)
        ensures
            r == self@.cursor,
    {
        self.cursor
    }

    /// The moment at which the next rotation falls due, if one is to.
    pub fn next_rotation(&self) -> (r: Option<DateTime>)
        ensures
            instant(r) == self@.next,
    {
        self.next_rotation
    }

    /// Moves the cursor by `delta` places.
    pub fn advance(&mut self, delta: i64)
        ensures
            final(self)@ == (Rotation { cursor: wrapped(old(self)@.cursor + delta), ..old(self)@ }),
    {
        self.cursor = self.cursor.wrapping_add(delta);
    }

    /// The next scheduled rotation as seen at `now`: one that is already due counts
    /// as due now.
    pub fn next_scheduled_rotation(&self, now: DateTime) -> (r: Option<DateTime>)
        ensures
            r is Some <==> self@.next is Some,
            r is Some ==> r->0@ == (if self@.next->0 <= now@ {
                now@
            } else {
                self@.next->0
            }),
    {
        match self.next_rotation {
            Some(t) => Some(t.max(now)),
            None => None,
        }
    }

    /// Reshuffles: takes the new seed, goes back to the first place and waits for
    /// `next`.
    pub fn rotate_to(&mut self, seed: u64, next: Option<DateTime>)
        ensures
            final(self)@ == old(self)@.rotated(seed, instant(next)),
    {
        self.seed = seed;
        self.cursor = 0;
        self.next_rotation = next;
    }

    /// Rotates if a rotation is due at `now`, and tells whether it did. The new
    /// seed is random.
    pub fn maybe_rotate(&mut self, now: DateTime) -> (r: bool)
        requires
            old(self)@.can_ask(now@),
        ensures
            r == old(self)@.due(now@),
            !r ==> final(self)@ == old(self)@,
            r ==> final(self)@ == old(self)@.rotated(final(self)@.seed, final(self)@.next),
            r ==> old(self)@.follows(now@, final(self)@.next),
    {
        match self.next_rotation {
            None => false,
            Some(next) => {
                if now.is_before(next) {
                    return false;
                }
                let following = match &self.rotate {
                    Some(r) => r.next_after(now, &self.tz),
                    None => None,
                };
                self.rotate_to(random_seed(), following);
                true
            },
        }
    }

    /// Moves the cursor on to the nearest place, within one round, that shows one
    /// of the photos `new`.
    pub fn snap(&mut self, new: &[usize], n: usize)
        requires
            album_size(n),
        ensures
            final(self)@ == (Rotation {
                cursor: snapped(old(self)@.seed, old(self)@.cursor, new@, n as nat),
                ..old(self)@
            }),
    {
        let order = shuffled_indices(self.seed, n);
        let wanted = membership(new, n);
        proof {
            album_fits(n);
        }
        let mut offset: usize = 0;
        while offset < n
            invariant
                0 < n <= i64::MAX,
                offset <= n,
                *self == *old(self),
                order@ == shuffle_order(self.seed, n as nat),
                is_order(order@, n as nat),
                wanted@.len() == n,
                forall|i: int| 0 <= i < n ==> #[trigger] wanted@[i] == new@.contains(i as usize),
                first_landing(self@.seed, self@.cursor, new@, n as nat, 0) == first_landing(
                    self@.seed,
                    self@.cursor,
                    new@,
                    n as nat,
                    offset as nat,
                ),
            decreases n - offset,
        {
            let place: i64 = self.cursor.wrapping_add(offset as i64);
            let idx: usize = place_in(&order, place);
            if wanted[idx] {
                self.advance(offset as i64);
                return ;
            }
            offset = offset + 1;
        }
    }

    /// Applies a due rotation, then the navigation step `advance`, and returns the
    /// index of the photo to show. After a rotation, a refresh (`fresh`) or a step,
    /// the cursor also moves on to a photo that is among the `new` ones, if there
    /// are any; plain polling leaves it where it is.
    pub fn pick_index(
        &mut self,
        now: DateTime,
        advance: i64,
        fresh: bool,
        new: &[usize],
        n: usize,
    ) -> (r: usize)
        requires
            old(self)@.can_ask(now@),
            album_size(n),
        ensures
            ({
                let before = old(self)@;
                let after = final(self)@;
                let rotated = before.due(now@);
                let place = wrapped((if rotated { 0 } else { before.cursor }) + advance);
                let snap = (rotated || fresh || advance != 0) && new@.len() > 0;
                &&& after.rotate == before.rotate
                &&& after.tz == before.tz
                &&& !rotated ==> after.seed == before.seed && after.next == before.next
                &&& rotated ==> before.follows(now@, after.next)
                &&& after.cursor == (if snap {
                    snapped(after.seed, place, new@, n as nat)
                } else {
                    place
                })
                &&& r == index_at(after.seed, after.cursor, n as nat)
            }),
            !old(self)@.due(now@) && !fresh && advance == 0 ==> final(self)@ == old(self)@,
            r < n,
            is_order(shuffle_order(final(self)@.seed, n as nat), n as nat),
    {
        let rotated = self.maybe_rotate(now);
        self.advance(advance);
        if (rotated || fresh || advance != 0) && new.len() > 0 {
            self.snap(new, n);
        }
        resolve_index(self.seed, self.cursor, n)
    }
}

/// For each index below `n`, whether `items` holds it.
fn membership(items: &[usize], n: usize) -> (r: Vec<bool>)
    ensures
        r@.len() == n,
        forall|i: int| 0 <= i < n ==> #[trigger] r@[i] == items@.contains(i as usize),
{
    let mut table: Vec<bool> = Vec::new();
    let mut i: usize = 0;
    while i < n
        invariant
            i <= n,
            table@.len() == i,
            forall|j: int| 0 <= j < i ==> !(#[trigger] table@[j]),
        decreases n - i,
    {
        table.push(false);
        i = i + 1;
    }
    let mut k: usize = 0;
    while k < items.len()
        invariant
            k <= items.len(),
            table@.len() == n,
            forall|j: int|
                0 <= j < n ==> #[trigger] table@[j] == items@.take(k as int).contains(j as usize),
        decreases items.len() - k,
    {
        let item: usize = items[k];
        let ghost before = table@;
        if item < n {
            table.set(item, true);
        }
        assert forall|j: int| 0 <= j < n implies #[trigger] table@[j] == items@.take(
            k + 1,
        ).contains(j as usize) by {
            let a = items@.take(k as int);
            let b = items@.take(k + 1);
            assert(b =~= a.push(item));
            if b.contains(j as usize) {
                let w = choose|w: int| 0 <= w < b.len() && b[w] == j as usize;
                if w < k {
                    assert(a[w] == j as usize);
                }
            }
            if a.contains(j as usize) {
                let w = choose|w: int| 0 <= w < a.len() && a[w] == j as usize;
                assert(b[w] == j as usize);
            }
            assert(b[k as int] == item);
            assert(before[j] == a.contains(j as usize));
        }
        k = k + 1;
    }
    assert(items@.take(items@.len() as int) =~= items@);
    table
}

/// The entry of `order` at the place `cursor`, counted cyclically.
fn place_in(order: &Vec<usize>, cursor: i64) -> (r: usize)
    requires
        0 < order@.len() <= i64::MAX,
    ensures
        r == order@[cursor as int % order@.len() as int],
{
    let n: i64 = order.len() as i64;
    proof {
        vstd::arithmetic::div_mod::lemma_mod_bound(cursor as int, n as int);
    }
    match cursor.checked_rem_euclid(n) {
        Some(place) => order[place as usize],
        None => 0,
    }
}

/// The index of the photo at the place `cursor` of an album of `n` photos shuffled
/// by `seed`, counted cyclically.
pub fn resolve_index(seed: u64, cursor: i64, n: usize) -> (r: usize)
    requires
        album_size(n),
    ensures
        r == index_at(seed, cursor as int, n as nat),
        r < n,
        is_order(shuffle_order(seed, n as nat), n as nat),
{
    let order = shuffled_indices(seed, n);
    proof {
        album_fits(n);
        vstd::arithmetic::div_mod::lemma_mod_bound(cursor as int, n as int);
    }
    place_in(&order, cursor)
}

/// Seconds from `now` to `target`, rounded up, or zero for a target in the past.
pub open spec fn whole_seconds(target: int, now: int) -> int {
    if target <= now {
        0
    } else {
        (target - now + 999_999_999) / 1_000_000_000
    }
}

/// Seconds in a span, rounded up; a span back in time has none.
pub fn seconds_in(td: TimeDelta) -> (r: u64)
    ensures
        r == whole_seconds(td@, 0),
{
    let whole: i64 = td.num_seconds();
    let secs: u64 = if whole > 0 {
        whole as u64
    } else {
        0
    };
    let extra: u64 = if td.subsec_nanos() > 0 {
        1
    } else {
        0
    };
    secs.saturating_add(extra)
}

/// Seconds from `now` to `target`, rounded up; a target in the past is zero seconds
/// away.
pub fn seconds_until(target: DateTime, now: DateTime) -> (r: u64)
    ensures
        r == whole_seconds(target@, now@),
{
    seconds_in(target.signed_duration_since(now))
}

/// `error_refresh` from `now`, or the normal next fetch if that comes first.
pub open spec fn error_refresh_time(
    error_refresh: int,
    wake_delay: int,
    next_rotation: Option<int>,
    now: int,
) -> int {
    match next_rotation {
        Some(n) if n + wake_delay < now + error_refresh => n + wake_delay,
        _ => now + error_refresh,
    }
}

/// The moment at which a failed response asks the device to come back: after
/// `error_refresh`, but not later than the device's normal next fetch at
/// `next_rotation + wake_delay`.
pub fn calculate_error_refresh_time(
    error_refresh: TimeDelta,
    wake_delay: TimeDelta,
    next_rotation: Option<DateTime>,
    now: DateTime,
) -> (r: DateTime)
    requires
        representable(now@ + error_refresh@),
        next_rotation is Some ==> representable(next_rotation->0@ + wake_delay@),
    ensures
        r@ == error_refresh_time(error_refresh@, wake_delay@, instant(next_rotation), now@),
        r@ <= now@ + error_refresh@,
        next_rotation is Some ==> r@ <= next_rotation->0@ + wake_delay@,
{
    let base = now.plus(error_refresh);
    match next_rotation {
        Some(n) => base.min(n.plus(wake_delay)),
        None => base,
    }
}

/// Whether a round of `n` places from `cursor` on counts through all of them: the
/// cursor stays within its 64 bits, or wraps around to where it would have been.
pub open spec fn full_round(cursor: int, n: nat) -> bool {
    &&& i64::MIN <= cursor <= i64::MAX
    &&& cursor + n - 1 <= i64::MAX || 0x1_0000_0000_0000_0000int % (n as int) == 0
}

/// Two different numbers less than `n` apart leave different remainders.
proof fn lemma_distinct_places(a: int, b: int, n: int)
    requires
        0 < b - a < n,
    ensures
        a % n != b % n,
{
    if a % n == b % n {
        vstd::arithmetic::div_mod::lemma_mod_equivalence(b, a, n);
        vstd::arithmetic::div_mod::lemma_small_mod((b - a) as nat, n as nat);
    }
}

/// In a full round the wrapped cursor counts like the unbounded one.
proof fn lemma_round_place(cursor: int, i: int, n: nat)
    requires
        0 <= i < n,
        full_round(cursor, n),
        n <= i64::MAX,
    ensures
        wrapped(cursor + i) % (n as int) == (cursor + i) % (n as int),
{
    if cursor + i > i64::MAX {
        let m = 0x1_0000_0000_0000_0000int;
        assert((cursor + i) - (cursor + i - m) == m);
        vstd::arithmetic::div_mod::lemma_mod_equivalence(cursor + i, cursor + i - m, n as int);
    }
}

/// A list of `n` different indices below `n` lists each of them.
proof fn lemma_order_complete(order: Seq<usize>, n: nat, photo: usize)
    requires
        is_order(order, n),
        photo < n,
    ensures
        order.contains(photo),
{
    let ints = order.map_values(|x: usize| x as int);
    assert(ints.no_duplicates());
    ints.unique_seq_to_set();
    let all = vstd::set_lib::set_int_range(0, n as int);
    vstd::set_lib::lemma_int_range(0, n as int);
    assert(ints.to_set().subset_of(all)) by {
        assert forall|v: int| ints.to_set().contains(v) implies all.contains(v) by {
            let k = choose|k: int| 0 <= k < ints.len() && ints[k] == v;
            assert(order[k] < n);
        }
    }
    vstd::set_lib::lemma_subset_equality(ints.to_set(), all);
    assert(all.contains(photo as int));
    let k = choose|k: int| 0 <= k < ints.len() && ints[k] == photo as int;
    assert(order[k] == photo);
}

/// Every photo of the album has a place in a full round.
proof fn lemma_photo_has_place(seed: u64, cursor: int, n: nat, photo: usize) -> (i: int)
    requires
        0 < n <= i64::MAX,
        is_order(shuffle_order(seed, n), n),
        full_round(cursor, n),
        photo < n,
    ensures
        0 <= i < n,
        index_from(seed, cursor, i, n) == photo,
{
    let order = shuffle_order(seed, n);
    lemma_order_complete(order, n, photo);
    let p = choose|p: int| 0 <= p < order.len() && order[p] == photo;
    let m = n as int;
    let i = (p - cursor) % m;
    vstd::arithmetic::div_mod::lemma_mod_bound(p - cursor, m);
    vstd::arithmetic::div_mod::lemma_add_mod_noop(cursor, p - cursor, m);
    vstd::arithmetic::div_mod::lemma_add_mod_noop(cursor, i, m);
    vstd::arithmetic::div_mod::lemma_mod_twice(p - cursor, m);
    assert((cursor + i) % m == (cursor + (p - cursor)) % m);
    vstd::arithmetic::div_mod::lemma_small_mod(p as nat, n);
    lemma_round_place(cursor, i, n);
    i
}

/// Whether one of the `n` places from `cursor` on shows `photo`.
pub open spec fn shown_in_round(seed: u64, cursor: int, n: nat, photo: usize) -> bool {
    exists|i: int| 0 <= i < n && #[trigger] index_from(seed, cursor, i, n) == photo
}

/// Stepping through a full round shows every photo of the album exactly once.
pub proof fn law_round_shows_each_photo_once(seed: u64, cursor: int, n: nat)
    requires
        0 < n <= i64::MAX,
        is_order(shuffle_order(seed, n), n),
        full_round(cursor, n),
    ensures
        forall|i: int, j: int|
            0 <= i < j < n ==> #[trigger] index_from(seed, cursor, i, n)
                != #[trigger] index_from(seed, cursor, j, n),
        forall|photo: usize| photo < n ==> #[trigger] shown_in_round(seed, cursor, n, photo),
{
    assert forall|i: int, j: int| 0 <= i < j < n implies #[trigger] index_from(seed, cursor, i, n)
        != #[trigger] index_from(seed, cursor, j, n) by {
        lemma_round_place(cursor, i, n);
        lemma_round_place(cursor, j, n);
        lemma_distinct_places(cursor + i, cursor + j, n as int);
        vstd::arithmetic::div_mod::lemma_mod_bound(cursor + i, n as int);
        vstd::arithmetic::div_mod::lemma_mod_bound(cursor + j, n as int);
    }
    assert forall|photo: usize| photo < n implies #[trigger] shown_in_round(
        seed,
        cursor,
        n,
        photo,
    ) by {
        let i = lemma_photo_has_place(seed, cursor, n, photo);
    }
}

/// The album is cyclic: a whole round later the same photo is shown, before the
/// first place as well as after it.
pub proof fn law_album_is_cyclic(seed: u64, cursor: int, n: nat)
    requires
        0 < n,
    ensures
        index_at(seed, cursor + n, n) == index_at(seed, cursor, n),
        index_at(seed, cursor - n, n) == index_at(seed, cursor, n),
{
    vstd::arithmetic::div_mod::lemma_mod_add_multiples_vanish(cursor, n as int);
    vstd::arithmetic::div_mod::lemma_mod_sub_multiples_vanish(cursor, n as int);
}

/// The landing found from `from` on is a landing, and none is skipped.
proof fn lemma_first_landing(seed: u64, cursor: int, new: Seq<usize>, n: nat, from: nat, k: nat)
    requires
        from <= k < n,
        new.contains(index_from(seed, cursor, k as int, n)),
    ensures
        first_landing(seed, cursor, new, n, from) is Some,
        from <= first_landing(seed, cursor, new, n, from)->0 <= k,
        new.contains(
            index_from(seed, cursor, first_landing(seed, cursor, new, n, from)->0 as int, n),
        ),
    decreases n - from,
{
    if !new.contains(index_from(seed, cursor, from as int, n)) {
        lemma_first_landing(seed, cursor, new, n, from + 1, k);
    }
}

/// Snapping shows a new photo whenever the album holds one.
pub proof fn law_snap_shows_a_new_photo(seed: u64, cursor: int, new: Seq<usize>, n: nat)
    requires
        0 < n <= i64::MAX,
        is_order(shuffle_order(seed, n), n),
        full_round(cursor, n),
        exists|k: int| 0 <= k < new.len() && #[trigger] new[k] < n,
    ensures
        new.contains(index_at(seed, snapped(seed, cursor, new, n), n)),
{
    let k = choose|k: int| 0 <= k < new.len() && #[trigger] new[k] < n;
    let i = lemma_photo_has_place(seed, cursor, n, new[k]);
    lemma_first_landing(seed, cursor, new, n, 0, i as nat);
}

/// A cursor that already shows a new photo stays where it is: snapping persists.
pub proof fn law_snap_is_stable(seed: u64, cursor: int, new: Seq<usize>, n: nat)
    requires
        0 < n,
        i64::MIN <= cursor <= i64::MAX,
        new.contains(index_at(seed, cursor, n)),
    ensures
        snapped(seed, cursor, new, n) == cursor,
{
}

/// One step on and one step back end where they began.
pub proof fn law_previous_undoes_next(cursor: int)
    requires
        i64::MIN <= cursor <= i64::MAX,
    ensures
        wrapped(wrapped(cursor + 1) - 1) == cursor,
        wrapped(wrapped(cursor - 1) + 1) == cursor,
{
}

/// A screen that has not shown anything yet rotates on its first request, with or
/// without a schedule.
pub proof fn law_first_request_rotates(state: Rotation, now: int)
    requires
        state.next == Some(MIN_SECS * 1_000_000_000),
        representable(now),
    ensures
        state.due(now),
{
}

/// Without a schedule no rotation follows the first.
pub proof fn law_no_schedule_no_rotation(
    state: Rotation,
    now: int,
    seed: u64,
    next: Option<int>,
    later: int,
)
    requires
        state.rotate is None,
        state.follows(now, next),
    ensures
        !state.rotated(seed, next).due(later),
{
}

/// A cron schedule does not fire twice for one moment: after a rotation at `now`
/// none is due until a later moment.
pub proof fn law_cron_rotates_once(
    state: Rotation,
    now: int,
    seed: u64,
    next: Option<int>,
    later: int,
)
    requires
        state.rotate is Some,
        state.rotate->0 is Cron,
        state.follows(now, next),
        state.rotated(seed, next).due(later),
    ensures
        later > now,
{
}

/// Waiting for the seconds until a target reaches it, and waiting for fewer does
/// not.
pub proof fn law_seconds_until_is_least(target: int, now: int, secs: int)
    requires
        secs >= 0,
    ensures
        now + secs * 1_000_000_000 >= target <==> secs >= whole_seconds(target, now),
{
}

/// No place before the landing that is found shows a new photo, and if none is found no
/// place does; a landing that is found does.
pub(crate) proof fn lemma_landing_is_first(
    seed: u64,
    cursor: int,
    new: Seq<usize>,
    n: nat,
    from: nat,
)
    ensures
        first_landing(seed, cursor, new, n, from) matches Some(k) ==> from <= k < n && new.contains(
            index_from(seed, cursor, k as int, n),
        ) && forall|j: int|
            from <= j < k ==> !new.contains(#[trigger] index_from(seed, cursor, j, n)),
        first_landing(seed, cursor, new, n, from) is None ==> forall|j: int|
            from <= j < n ==> !new.contains(#[trigger] index_from(seed, cursor, j, n)),
    decreases n - from,
{
    if from < n && !new.contains(index_from(seed, cursor, from as int, n)) {
        lemma_landing_is_first(seed, cursor, new, n, from + 1);
    }
}

/// Where snapping goes from `place`: on to a new photo, past none, and nowhere if there
/// is none within a round.
pub(crate) proof fn lemma_nearest_landing(seed: u64, place: int, new: Seq<usize>, n: nat)
    requires
        0 < n <= i64::MAX,
        i64::MIN <= place <= i64::MAX,
    ensures
        ({
            let end = snapped(seed, place, new, n);
            let order = shuffle_order(seed, n);
            let k = if end >= place {
                end - place
            } else {
                end - place + 0x1_0000_0000_0000_0000
            };
            &&& i64::MIN <= end <= i64::MAX
            &&& 0 <= k < n
            &&& forall|p: int|
                i64::MIN <= p <= i64::MAX && (0 <= p - place < k || 0 <= p - place
                    + 0x1_0000_0000_0000_0000 < k) ==> !new.contains(
                    #[trigger] order[p % (n as int)],
                )
            &&& k == 0 || new.contains(order[end % (n as int)])
            &&& new.contains(order[end % (n as int)]) || forall|p: int|
                i64::MIN <= p <= i64::MAX && (0 <= p - place < n || 0 <= p - place
                    + 0x1_0000_0000_0000_0000 < n) ==> !new.contains(
                    #[trigger] order[p % (n as int)],
                )
        }),
{
    let end = snapped(seed, place, new, n);
    let order = shuffle_order(seed, n);
    lemma_landing_is_first(seed, place, new, n, 0);
    let found = first_landing(seed, place, new, n, 0);
    let bound: int = if found is Some {
        found->0 as int
    } else {
        n as int
    };
    assert forall|p: int|
        i64::MIN <= p <= i64::MAX && (0 <= p - place < bound || 0 <= p - place
            + 0x1_0000_0000_0000_0000 < bound) implies !new.contains(
        #[trigger] order[p % (n as int)],
    ) by {
        let j = if p >= place {
            p - place
        } else {
            p - place + 0x1_0000_0000_0000_0000
        };
        assert(index_from(seed, place, j, n) == order[p % (n as int)]);
    }
    if found is Some {
        assert(index_from(seed, place, found->0 as int, n) == order[end % (n as int)]);
    }
}

/// A new screen is at the first place, goes by the configured schedule and time zone,
/// and waits for a rotation at the first moment there is.
pub proof fn law_new_screen_is_due(config: &ScreenConfig, r: ScreenState)
    requires
        call_ensures(ScreenState::new, (config,), r),
    ensures
        r@.cursor == 0,
        r@.next is Some,
        forall|now: DateTime| representable(#[trigger] now@) ==> r@.next->0 <= now@,
        r@.rotate == config.rotate,
        r@.tz == config.timezone,
{
}

/// Nothing rotates before the moment that is waited for, and at that moment or after it
/// the screen always does: to the first place, and to the next moment that its schedule
/// gives.
pub proof fn law_rotation_comes_when_due(state: &mut ScreenState, now: DateTime, r: bool)
    requires
        call_ensures(ScreenState::maybe_rotate, (state, now), r),
    ensures
        r <==> (*old(state))@.next is Some && (*old(state))@.next->0 <= now@,
        !r ==> (*final(state))@ == (*old(state))@,
        r ==> (*final(state))@.cursor == 0,
        (*final(state))@.rotate == (*old(state))@.rotate,
        (*final(state))@.tz == (*old(state))@.tz,
        r && (*old(state))@.rotate is None ==> (*final(state))@.next is None,
        r ==> ((*old(state))@.rotate matches Some(Rotate::Cron(_)) ==> (
        (*final(state))@.next is Some ==> (*final(state))@.next->0 > now@)),
        r ==> ((*old(state))@.rotate matches Some(Rotate::Cron(e)) ==> ({
            let first = cron_trigger(e@, now@, (*old(state))@.tz@, 0);
            let second = cron_trigger(e@, now@, (*old(state))@.tz@, 1);
            &&& first is Some && first->0 > now@ ==> (*final(state))@.next == first
            &&& first is Some && first->0 <= now@ && second is Some && second->0 > now@
                ==> (*final(state))@.next == second
            &&& (*final(state))@.next is Some ==> (*final(state))@.next == first
                || (*final(state))@.next == second
        })),
        r ==> ((*old(state))@.rotate matches Some(Rotate::Natural(e)) ==> (
        (*final(state))@.next is Some ==> exists|secs: i64, nanos: u32| #[trigger]
            may_be_next(e@, utc_offset((*old(state))@.tz@, now@), Some((secs, nanos)))
                && (*final(state))@.next->0 == secs * 1_000_000_000 + nanos)),
        r ==> ((*old(state))@.rotate matches Some(Rotate::Natural(e)) ==> (
        (*final(state))@.next is None ==> may_be_next(
            e@,
            utc_offset((*old(state))@.tz@, now@),
            None,
        ) || exists|secs: i64, nanos: u32| #[trigger]
            may_be_next(e@, utc_offset((*old(state))@.tz@, now@), Some((secs, nanos))) && !(nanos
                < 1_000_000_000 && MIN_SECS <= secs <= MAX_SECS))),
{
    let before = (*old(state))@;
    let after = (*final(state))@;
    if r {
        assert(before.follows(now@, after.next));
        if let Some(Rotate::Natural(e)) = before.rotate {
            let offset = utc_offset(before.tz@, now@);
            let item = choose|item: Option<(i64, u32)>| #[trigger]
                may_be_next(e@, offset, item) && after.next == listed_instant(item);
            if let Some((secs, nanos)) = item {
                assert(may_be_next(e@, offset, Some((secs, nanos))));
            }
        }
    }
}

/// A rotation takes the new seed and the new moment, and goes back to the first place.
pub proof fn law_rotation_takes_what_it_is_given(
    state: &mut ScreenState,
    seed: u64,
    next: Option<DateTime>,
    r: (),
)
    requires
        call_ensures(ScreenState::rotate_to, (state, seed, next), r),
    ensures
        (*final(state))@.seed == seed,
        (*final(state))@.cursor == 0,
        next is Some <==> (*final(state))@.next is Some,
        next is Some ==> (*final(state))@.next->0 == next->0@,
        (*final(state))@.rotate == (*old(state))@.rotate,
        (*final(state))@.tz == (*old(state))@.tz,
{
}

/// A step moves the cursor by as many places, and changes nothing else. Beyond the last
/// place of all it goes on from the very first.
pub proof fn law_step_moves_the_cursor(state: &mut ScreenState, delta: i64, r: ())
    requires
        call_ensures(ScreenState::advance, (state, delta), r),
    ensures
        i64::MIN <= (*old(state))@.cursor + delta <= i64::MAX ==> (*final(state))@.cursor
            == (*old(state))@.cursor + delta,
        (*final(state))@ == (Rotation { cursor: (*final(state))@.cursor, ..(*old(state))@ }),
        (*final(state))@.cursor == (*old(state))@.cursor + delta || (*final(state))@.cursor
            == (*old(state))@.cursor + delta - 0x1_0000_0000_0000_0000 || (*final(state))@.cursor
            == (*old(state))@.cursor + delta + 0x1_0000_0000_0000_0000,
{
}

/// The next rotation as seen at a moment is the later of the two.
pub proof fn law_past_rotation_is_due_now(state: &ScreenState, now: DateTime, r: Option<DateTime>)
    requires
        call_ensures(ScreenState::next_scheduled_rotation, (state, now), r),
    ensures
        r is Some <==> state@.next is Some,
        r is Some ==> r->0@ >= now@ && r->0@ >= state@.next->0 && (r->0@ == now@ || r->0@
            == state@.next->0),
{
}

/// Snapping moves to the nearest place, within one round, that shows a new photo, and
/// nowhere if there is none. Beyond the last place of all the round goes on from the very
/// first.
pub proof fn law_snap_is_to_the_nearest(
    state: &mut ScreenState,
    new: &[usize],
    n: usize,
    r: (),
)
    requires
        call_ensures(ScreenState::snap, (state, new, n), r),
        0 < n <= i64::MAX,
        i64::MIN <= (*old(state))@.cursor <= i64::MAX,
    ensures
        ({
            let before = (*old(state))@;
            let after = (*final(state))@;
            let order = shuffle_order(before.seed, n as nat);
            let k = if after.cursor >= before.cursor {
                after.cursor - before.cursor
            } else {
                after.cursor - before.cursor + 0x1_0000_0000_0000_0000
            };
            &&& after == (Rotation { cursor: after.cursor, ..before })
            &&& 0 <= k < n
            &&& forall|p: int|
                i64::MIN <= p <= i64::MAX && (0 <= p - before.cursor < k || 0 <= p - before.cursor
                    + 0x1_0000_0000_0000_0000 < k) ==> !new@.contains(
                    #[trigger] order[p % (n as int)],
                )
            &&& k == 0 || new@.contains(order[after.cursor % (n as int)])
            &&& new@.contains(order[after.cursor % (n as int)]) || forall|p: int|
                i64::MIN <= p <= i64::MAX && (0 <= p - before.cursor < n || 0 <= p - before.cursor
                    + 0x1_0000_0000_0000_0000 < n) ==> !new@.contains(
                    #[trigger] order[p % (n as int)],
                )
        }),
{
    let before = (*old(state))@;
    lemma_nearest_landing(before.seed, before.cursor, new@, n as nat);
}

/// A place counts cyclically: places that are a multiple of the album's length apart show
/// the same photo, and places less than that apart different ones.
pub proof fn law_places_count_cyclically(
    seed: u64,
    a: i64,
    b: i64,
    n: usize,
    r: usize,
    s: usize,
)
    requires
        call_ensures(resolve_index, (seed, a, n), r),
        call_ensures(resolve_index, (seed, b, n), s),
        0 < n,
    ensures
        r < n,
        r == shuffle_order(seed, n as nat)[a as int % n as int],
        (b - a) % (n as int) == 0 <==> r == s,
{
    let m = n as int;
    let order = shuffle_order(seed, n as nat);
    vstd::arithmetic::div_mod::lemma_mod_bound(a as int, m);
    vstd::arithmetic::div_mod::lemma_mod_bound(b as int, m);
    vstd::arithmetic::div_mod::lemma_mod_equivalence(b as int, a as int, m);
    assert(is_order(order, n as nat));
    if a as int % m != b as int % m {
        assert(order[a as int % m] != order[b as int % m]);
    }
}

/// A span takes the least number of whole seconds that reaches its end.
pub proof fn law_seconds_are_rounded_up(td: TimeDelta, r: u64)
    requires
        call_ensures(seconds_in, (td,), r),
    ensures
        r * 1_000_000_000 >= td@,
        r > 0 ==> (r - 1) * 1_000_000_000 < td@,
{
}

/// Waiting for the seconds until a moment reaches it, and waiting for one less does not.
pub proof fn law_seconds_until_reach_the_target(target: DateTime, now: DateTime, r: u64)
    requires
        call_ensures(seconds_until, (target, now), r),
    ensures
        now@ + r * 1_000_000_000 >= target@,
        r > 0 ==> now@ + (r - 1) * 1_000_000_000 < target@,
{
}

/// A failed request is repeated after the error refresh time, or after the next rotation
/// and its delay, whichever comes first.
pub proof fn law_failure_is_repeated_at_the_earlier_time(
    error_refresh: TimeDelta,
    wake_delay: TimeDelta,
    next_rotation: Option<DateTime>,
    now: DateTime,
    r: DateTime,
)
    requires
        call_ensures(
            calculate_error_refresh_time,
            (error_refresh, wake_delay, next_rotation, now),
            r,
        ),
    ensures
        r@ <= now@ + error_refresh@,
        next_rotation is Some ==> r@ <= next_rotation->0@ + wake_delay@,
        next_rotation is None ==> r@ == now@ + error_refresh@,
        r@ == now@ + error_refresh@ || (next_rotation is Some && r@ == next_rotation->0@
            + wake_delay@),
{
}

/// The photo that is picked stands at the place where the screen is left, and polling
/// between rotations leaves it where it was.
pub proof fn law_picked_photo_is_at_the_cursor(
    state: &mut ScreenState,
    now: DateTime,
    advance: i64,
    fresh: bool,
    new: &[usize],
    n: usize,
    r: usize,
)
    requires
        call_ensures(ScreenState::pick_index, (state, now, advance, fresh, new, n), r),
    ensures
        r < n,
        r == shuffle_order((*final(state))@.seed, n as nat)[(*final(state))@.cursor % (n as int)],
        ((*old(state))@.next is None || (*old(state))@.next->0 > now@) && !fresh && advance == 0
            ==> (*final(state))@ == (*old(state))@,
        ((*old(state))@.next is None || (*old(state))@.next->0 > now@) && new@.len() == 0
            && i64::MIN <= (*old(state))@.cursor + advance <= i64::MAX ==> (*final(state))@.cursor
            == (*old(state))@.cursor + advance && (*final(state))@.seed == (*old(state))@.seed,
        (*old(state))@.next is Some && (*old(state))@.next->0 <= now@ && new@.len() == 0
            ==> (*final(state))@.cursor == advance,
{
}

} // verus!
