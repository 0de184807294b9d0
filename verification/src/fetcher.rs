//! When feeds are fetched: the delay before each fetch, the queue of feeds
//! that wait for theirs, and the throttle that spreads fetches over time.

use vstd::prelude::*;

use crate::data::feed_views;
use crate::data::Feed;
use crate::model::FeedView;
use crate::text::contains;
use crate::text::text_contains;

verus! {

/// A description of a failed send says that the target is out of reach for
/// good: it speaks of being forbidden, of a chat that was not found, or of
/// missing rights.
pub open spec fn spec_chat_is_unavailable(description: Seq<char>) -> bool {
    ||| text_contains(description, "Forbidden"@)
    ||| text_contains(description, "chat not found"@)
    ||| text_contains(description, "have no rights"@)
    ||| text_contains(description, "need administrator rights"@)
}

/// Whether the channel's description `s` of a failed send says that the
/// target is out of reach for good.
pub fn chat_is_unavailable(s: &str) -> (gone: bool)
    ensures
        gone == spec_chat_is_unavailable(s@),
{
    contains(s, "Forbidden") || contains(s, "chat not found") || contains(s, "have no rights")
        || contains(s, "need administrator rights")
}

/// The seconds between two fetches of a feed: its refresh hint in seconds,
/// raised to `min_interval` and then cut to `max_interval`. A feed without
/// a hint gets `min_interval`, cut likewise.
pub open spec fn fetch_interval(ttl: Option<u32>, min_interval: u32, max_interval: u32) -> int {
    let wanted = match ttl {
        Some(minutes) => minutes * 60,
        None => 0,
    };
    let raised = if wanted < min_interval {
        min_interval as int
    } else {
        wanted
    };
    if raised > max_interval {
        max_interval as int
    } else {
        raised
    }
}

/// Whether a feed with these figures can be scheduled: the interval
/// between its fetches is a second at least.
pub fn can_schedule(ttl: Option<u32>, min_interval: u32, max_interval: u32) -> (ok: bool)
    ensures
        ok == (fetch_interval(ttl, min_interval, max_interval) >= 1),
{
    let hinted = match ttl {
        Some(minutes) => minutes > 0,
        None => false,
    };
    max_interval >= 1 && (min_interval >= 1 || hinted)
}

/// The seconds to wait before the next fetch of a feed: one less than the
/// interval between its fetches, so that the fetch is due just before the
/// rescan that follows.
pub fn fetch_delay(ttl: Option<u32>, min_interval: u32, max_interval: u32) -> (secs: u64)
    requires
        fetch_interval(ttl, min_interval, max_interval) >= 1,
    ensures
        secs == fetch_interval(ttl, min_interval, max_interval) - 1,
{
    let wanted: u64 = match ttl {
        Some(minutes) => minutes as u64 * 60,
        None => 0,
    };
    let raised: u64 = if wanted < min_interval as u64 {
        min_interval as u64
    } else {
        wanted
    };
    let interval: u64 = if raised > max_interval as u64 {
        max_interval as u64
    } else {
        raised
    };
    interval - 1
}

/// A turn handed out by a [`Throttle`]: the holder waits `n` seconds and
/// then does its work.
#[must_use]
pub struct Opportunity {
    n: usize,
}

impl Opportunity {
    /// The seconds the holder waits.
    pub closed spec fn delay(&self) -> nat {
        self.n as nat
    }

    /// The seconds the holder waits before it does its work.
    pub fn delay_secs(&self) -> (secs: u64)
        ensures
            secs == self.delay(),
    {
        self.n as u64
    }
}

/// Spreads work over a window of `pieces` seconds: turns are handed out
/// round robin, each with a delay of so many seconds as turns are out,
/// counted modulo `pieces`.
pub struct Throttle {
    pieces: usize,
    counter: usize,
}

/// The counter after one more turn is out. It wraps around at the end of
/// its range.
pub open spec fn counter_up(counter: usize) -> usize {
    if counter == usize::MAX {
        0
    } else {
        (counter + 1) as usize
    }
}

/// The counter after one turn has come back. It wraps around at zero.
pub open spec fn counter_down(counter: usize) -> usize {
    if counter == 0 {
        usize::MAX
    } else {
        (counter - 1) as usize
    }
}

impl Throttle {
    #[verifier::type_invariant]
    spec fn inv(self) -> bool {
        self.pieces > 0
    }

    /// The length of the window in seconds.
    pub closed spec fn pieces(&self) -> usize {
        self.pieces
    }

    /// The number of turns that are out.
    pub closed spec fn counter(&self) -> usize {
        self.counter
    }

    /// A throttle over a window of `pieces` seconds, with no turn out.
    pub fn new(pieces: usize) -> (throttle: Throttle)
        requires
            pieces > 0,
        ensures
            throttle.pieces() == pieces,
            throttle.counter() == 0,
    {
        Throttle { pieces, counter: 0 }
    }

    /// The number of turns that are out.
    pub fn outstanding(&self) -> (turns: usize)
        ensures
            turns == self.counter(),
    {
        self.counter
    }

    /// Hands out the next turn: its delay is the number of turns that were
    /// out, modulo the window.
    pub fn acquire(&mut self) -> (turn: Opportunity)
        ensures
            turn.delay() == old(self).counter() % old(self).pieces(),
            turn.delay() < old(self).pieces(),
            final(self).counter() == counter_up(old(self).counter()),
            final(self).pieces() == old(self).pieces(),
    {
        proof {
            use_type_invariant(&*self);
        }
        let n = self.counter % self.pieces;
        self.counter = self.counter.wrapping_add(1);
        Opportunity { n }
    }

    /// Takes a turn back, once its work is over, however it ended.
    pub fn release(&mut self, turn: Opportunity)
        ensures
            final(self).counter() == counter_down(old(self).counter()),
            final(self).pieces() == old(self).pieces(),
    {
        proof {
            use_type_invariant(&*self);
        }
        self.counter = self.counter.wrapping_sub(1);
    }
}

/// A turn that comes back leaves as many turns out as there were before it
/// was handed out.
pub proof fn law_release_undoes_acquire(counter: usize)
    ensures
        counter_down(counter_up(counter)) == counter,
        counter_up(counter_down(counter)) == counter,
{
}

/// The delays of turns handed out one after the other go round the window:
/// the turn handed out when `k` more turns are out waits `k` seconds more,
/// modulo the window.
pub proof fn law_round_robin(counter: usize, pieces: usize)
    requires
        pieces > 0,
        counter < usize::MAX,
    ensures
        counter_up(counter) % pieces == (counter % pieces + 1) % (pieces as int),
{
    let c = counter as int;
    let p = pieces as int;
    assert((c + 1) % p == (c % p + 1) % p) by (nonlinear_arith)
        requires
            p > 0,
            c >= 0,
    ;
}

/// `link` is the link of one of `feeds`.
pub open spec fn has_link(feeds: Seq<FeedView>, link: Seq<char>) -> bool {
    exists|i: int| 0 <= i < feeds.len() && (#[trigger] feeds[i]).link == link
}

/// No two of `feeds` have the same link.
pub open spec fn distinct_links(feeds: Seq<FeedView>) -> bool {
    forall|i: int, j: int|
        0 <= i < j < feeds.len() ==> (#[trigger] feeds[i]).link != (#[trigger] feeds[j]).link
}

/// The feeds that wait for their fetch, at most one for each link, in the
/// order in which they were queued.
pub struct FetchQueue {
    feeds: Vec<Feed>,
}

impl View for FetchQueue {
    type V = Seq<FeedView>;

    closed spec fn view(&self) -> Seq<FeedView> {
        feed_views(self.feeds@)
    }
}

impl FetchQueue {
    #[verifier::type_invariant]
    spec fn inv(self) -> bool {
        distinct_links(self@)
    }

    /// A queue in which nothing waits.
    pub fn new() -> (queue: FetchQueue)
        ensures
            queue@ == Seq::<FeedView>::empty(),
    {
        let queue = FetchQueue { feeds: Vec::new() };
        assert(queue@ =~= Seq::<FeedView>::empty());
        queue
    }

    /// The place of the feed with `link` in the queue, if it waits there.
    fn position(&self, link: &String) -> (at: Option<usize>)
        ensures
            match at {
                Some(at) => at < self@.len() && self@[at as int].link == link@,
                None => !has_link(self@, link@),
            },
    {
        let mut i: usize = 0;
        while i < self.feeds.len()
            invariant
                i <= self.feeds.len(),
                self@ == feed_views(self.feeds@),
                forall|j: int| 0 <= j < i ==> (#[trigger] self@[j]).link != link@,
            decreases self.feeds.len() - i,
        {
            if self.feeds[i].link == *link {
                return Some(i);
            }
            i += 1;
        }
        None
    }

    /// Queues `feed` for a fetch, unless a feed with its link waits
    /// already: then the queue stays as it is and the first request
    /// stands. Returns whether the feed was queued; only then is a timer
    /// to be set for it.
    pub fn enqueue(&mut self, feed: Feed) -> (queued: bool)
        ensures
            queued == !has_link(old(self)@, feed@.link),
            final(self)@ == (if queued {
                old(self)@.push(feed@)
            } else {
                old(self)@
            }),
            distinct_links(final(self)@),
    {
        proof {
            use_type_invariant(&*self);
        }
        if self.position(&feed.link).is_some() {
            return false;
        }
        let mut taken = FetchQueue::new();
        std::mem::swap(&mut taken, self);
        let FetchQueue { mut feeds } = taken;
        feeds.push(feed);
        assert(feed_views(feeds@) =~= old(self)@.push(feed@));
        *self = FetchQueue { feeds };
        true
    }

    /// Takes the feed with `link` out of the queue, when its timer has run
    /// out. Returns `None`, leaving the queue as it is, where no such feed
    /// waits.
    pub fn take(&mut self, link: &str) -> (due: Option<Feed>)
        ensures
            match due {
                Some(feed) => exists|at: int|
                    0 <= at < old(self)@.len() && #[trigger] old(self)@[at] == feed@ && feed@.link
                        == link@ && final(self)@ == old(self)@.remove(at),
                None => !has_link(old(self)@, link@) && final(self)@ == old(self)@,
            },
            distinct_links(final(self)@),
            !has_link(final(self)@, link@),
    {
        proof {
            use_type_invariant(&*self);
        }
        let wanted = link.to_owned();
        let at = match self.position(&wanted) {
            Some(at) => at,
            None => {
                return None;
            },
        };
        let mut taken = FetchQueue::new();
        std::mem::swap(&mut taken, self);
        let FetchQueue { mut feeds } = taken;
        let feed = feeds.remove(at);
        proof {
            assert(feed_views(feeds@) =~= old(self)@.remove(at as int));
            let rest = old(self)@.remove(at as int);
            assert forall|i: int, j: int| 0 <= i < j < rest.len() implies (#[trigger] rest[i]).link
                != (#[trigger] rest[j]).link by {
                let oi = if i < at { i } else { i + 1 };
                let oj = if j < at { j } else { j + 1 };
                assert(old(self)@[oi].link != old(self)@[oj].link);
            }
            assert forall|i: int| 0 <= i < rest.len() implies (#[trigger] rest[i]).link
                != link@ by {
                let oi = if i < at { i } else { i + 1 };
                if oi < at {
                    assert(old(self)@[oi].link != old(self)@[at as int].link);
                } else {
                    assert(old(self)@[at as int].link != old(self)@[oi].link);
                }
            }
            assert(old(self)@[at as int] == feed@);
        }
        *self = FetchQueue { feeds };
        Some(feed)
    }

    /// How many feeds wait.
    pub fn len(&self) -> (count: usize)
        ensures
            count == self@.len(),
    {
        self.feeds.len()
    }
}

/// A timer to be set: the feed at `link` is due in `delay_secs` seconds.
#[derive(Debug)]
pub struct Timer {
    pub link: String,
    pub delay_secs: u64,
}

/// What a [`Timer`] holds.
pub struct TimerView {
    pub link: Seq<char>,
    pub delay_secs: u64,
}

impl View for Timer {
    type V = TimerView;

    open spec fn view(&self) -> TimerView {
        TimerView { link: self.link@, delay_secs: self.delay_secs }
    }
}

/// The views of a sequence of timers, in order.
pub open spec fn timer_views(timers: Seq<Timer>) -> Seq<TimerView> {
    timers.map_values(|timer: Timer| timer@)
}

/// The queue after a rescan over `feeds`: each feed whose link does not
/// wait already is queued, in the order of the scan.
pub open spec fn rescanned(queue: Seq<FeedView>, feeds: Seq<FeedView>) -> Seq<FeedView>
    decreases feeds.len(),
{
    if feeds.len() == 0 {
        queue
    } else {
        let before = rescanned(queue, feeds.drop_last());
        if has_link(before, feeds.last().link) {
            before
        } else {
            before.push(feeds.last())
        }
    }
}

/// The timers that a rescan over `feeds` asks for: one for each feed that
/// it queues, with the delay that the feed's refresh hint gives.
pub open spec fn rescan_timers(
    queue: Seq<FeedView>,
    feeds: Seq<FeedView>,
    min_interval: u32,
    max_interval: u32,
) -> Seq<TimerView>
    decreases feeds.len(),
{
    if feeds.len() == 0 {
        Seq::empty()
    } else {
        let before = rescan_timers(queue, feeds.drop_last(), min_interval, max_interval);
        if has_link(rescanned(queue, feeds.drop_last()), feeds.last().link) {
            before
        } else {
            before.push(
                TimerView {
                    link: feeds.last().link,
                    delay_secs: (fetch_interval(feeds.last().ttl, min_interval, max_interval)
                        - 1) as u64,
                },
            )
        }
    }
}

/// A rescan takes nothing out of the queue: a link that waits goes on
/// waiting, and every scanned feed has its link waiting afterwards.
pub proof fn lemma_rescan_keeps_links(queue: Seq<FeedView>, feeds: Seq<FeedView>)
    ensures
        forall|link: Seq<char>| has_link(queue, link) ==> has_link(rescanned(queue, feeds), link),
        forall|i: int|
            0 <= i < feeds.len() ==> has_link(rescanned(queue, feeds), (#[trigger] feeds[i]).link),
    decreases feeds.len(),
{
    if feeds.len() > 0 {
        let head = feeds.drop_last();
        let before = rescanned(queue, head);
        let after = rescanned(queue, feeds);
        lemma_rescan_keeps_links(queue, head);
        assert forall|link: Seq<char>| has_link(before, link) implies has_link(after, link) by {
            let at = choose|at: int| 0 <= at < before.len() && (#[trigger] before[at]).link == link;
            assert(after[at].link == link);
        }
        assert forall|i: int| 0 <= i < feeds.len() implies has_link(
            after,
            (#[trigger] feeds[i]).link,
        ) by {
            if i < head.len() {
                assert(has_link(before, head[i].link));
            } else if !has_link(before, feeds.last().link) {
                assert(after[after.len() - 1].link == feeds[i].link);
            }
        }
    }
}

/// A rescan over feeds whose links all wait already changes nothing and
/// asks for no timer.
pub proof fn lemma_rescan_of_waiting(
    queue: Seq<FeedView>,
    feeds: Seq<FeedView>,
    min_interval: u32,
    max_interval: u32,
)
    requires
        forall|i: int| 0 <= i < feeds.len() ==> has_link(queue, (#[trigger] feeds[i]).link),
    ensures
        rescanned(queue, feeds) == queue,
        rescan_timers(queue, feeds, min_interval, max_interval) == Seq::<TimerView>::empty(),
    decreases feeds.len(),
{
    if feeds.len() > 0 {
        let head = feeds.drop_last();
        assert forall|i: int| 0 <= i < head.len() implies has_link(
            queue,
            (#[trigger] head[i]).link,
        ) by {
            assert(has_link(queue, feeds[i].link));
        }
        lemma_rescan_of_waiting(queue, head, min_interval, max_interval);
        assert(has_link(queue, feeds[feeds.len() - 1].link));
    }
}

/// A rescan repeated before any feed has come due queues nothing and asks
/// for no timer: for each link the first request stands.
pub proof fn law_rescan_idempotent(
    queue: Seq<FeedView>,
    feeds: Seq<FeedView>,
    min_interval: u32,
    max_interval: u32,
)
    ensures
        rescanned(rescanned(queue, feeds), feeds) == rescanned(queue, feeds),
        rescan_timers(rescanned(queue, feeds), feeds, min_interval, max_interval) == Seq::<
            TimerView,
        >::empty(),
{
    lemma_rescan_keeps_links(queue, feeds);
    lemma_rescan_of_waiting(rescanned(queue, feeds), feeds, min_interval, max_interval);
}

/// Whether each of `feeds` can be scheduled with these intervals.
pub fn can_schedule_all(feeds: &Vec<Feed>, min_interval: u32, max_interval: u32) -> (ok: bool)
    ensures
        ok == (forall|i: int|
            0 <= i < feeds.len() ==> fetch_interval(
                (#[trigger] feeds[i]).ttl,
                min_interval,
                max_interval,
            ) >= 1),
{
    let mut i: usize = 0;
    while i < feeds.len()
        invariant
            i <= feeds.len(),
            forall|j: int|
                0 <= j < i ==> fetch_interval(
                    (#[trigger] feeds[j]).ttl,
                    min_interval,
                    max_interval,
                ) >= 1,
        decreases feeds.len() - i,
    {
        if !can_schedule(feeds[i].ttl, min_interval, max_interval) {
            return false;
        }
        i += 1;
    }
    true
}

/// The periodic rescan: queues each of `feeds`, the stored feeds, unless a
/// feed with its link waits already, and returns the timers to be set for
/// those it queued, in the order of the scan.
pub fn rescan(queue: &mut FetchQueue, feeds: Vec<Feed>, min_interval: u32, max_interval: u32) -> (timers:
    Vec<Timer>)
    requires
        forall|i: int|
            0 <= i < feeds.len() ==> fetch_interval(
                (#[trigger] feeds[i]).ttl,
                min_interval,
                max_interval,
            ) >= 1,
    ensures
        final(queue)@ == rescanned(old(queue)@, feed_views(feeds@)),
        timer_views(timers@) == rescan_timers(
            old(queue)@,
            feed_views(feeds@),
            min_interval,
            max_interval,
        ),
        distinct_links(final(queue)@),
{
    let ghost all = feeds@;
    let ghost views = feed_views(feeds@);
    let ghost start = queue@;
    let mut timers: Vec<Timer> = Vec::new();
    proof {
        assert(views.take(0) =~= Seq::<FeedView>::empty());
        assert(timer_views(timers@) =~= Seq::<TimerView>::empty());
        use_type_invariant(&*queue);
    }
    for feed in it: feeds
        invariant
            it.seq() == all,
            views == feed_views(all),
            forall|i: int|
                0 <= i < all.len() ==> fetch_interval(
                    (#[trigger] all[i]).ttl,
                    min_interval,
                    max_interval,
                ) >= 1,
            queue@ == rescanned(start, views.take(it.index() as int)),
            timer_views(timers@) == rescan_timers(
                start,
                views.take(it.index() as int),
                min_interval,
                max_interval,
            ),
            distinct_links(queue@),
    {
        let ghost n = it.index() as int;
        let ghost before = timer_views(timers@);
        proof {
            assert(views[n] == feed@);
            assert(all[n] == feed);
            assert(views.take(n + 1).drop_last() =~= views.take(n));
            assert(views.take(n + 1).last() == feed@);
        }
        let link = feed.link.clone();
        let delay_secs = fetch_delay(feed.ttl, min_interval, max_interval);
        if queue.enqueue(feed) {
            let timer = Timer { link, delay_secs };
            timers.push(timer);
            assert(timer_views(timers@) =~= before.push(timer@));
        }
    }
    assert(views.take(views.len() as int) =~= views);
    timers
}

} // verus!
