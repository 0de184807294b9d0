//! What to do after a fetch failed or a send came back: the decisions of
//! one fetch-and-notify cycle. The caller fetches, sends and waits; each
//! outcome is handed to these functions, which change the store where the
//! outcome calls for it and say what comes next.

use vstd::prelude::*;

use crate::clock::Elapsed;
use crate::clock::Timestamp;
use crate::data::Database;
use crate::data::Feed;
use crate::data::SubscriberId;
use crate::feed::Item;
use crate::fetcher::chat_is_unavailable;
use crate::fetcher::spec_chat_is_unavailable;

verus! {

/// A feed that has been failing for longer than this many seconds is
/// reported to its subscribers: five days.
pub const DOWN_NOTICE_AFTER_SECS: u128 = 432_000;

/// How many times a message is sent to one subscriber at most.
pub const MAX_ATTEMPTS: u8 = 3;

/// What follows a failed fetch.
#[derive(Debug, Clone, Copy, PartialEq, Eq, Structural)]
pub enum FailureAction {
    /// The feed is no longer stored: nothing is to be done.
    Abort,
    /// The failure is noted; no one is told yet.
    Wait,
    /// The feed has been failing for too long: its subscribers are told
    /// once, and the count of its down time starts again.
    Notify,
}

/// Whether a down time is long enough to tell the subscribers.
pub open spec fn spec_overdue(down: Elapsed) -> bool {
    down.spec_as_secs() > DOWN_NOTICE_AFTER_SECS
}

/// Whether a down time is long enough to tell the subscribers: more than
/// five days in whole seconds.
#[verifier::when_used_as_spec(spec_overdue)]
pub fn overdue(down: Elapsed) -> (late: bool)
    ensures
        late == spec_overdue(down),
{
    down.as_secs() > DOWN_NOTICE_AFTER_SECS
}

/// Notes in `db` that fetching the feed at `rss_link` failed at `now`, and
/// says what follows. A feed that is not stored any more is passed over. A
/// feed that has been failing for more than five days is marked as up
/// again, so that the next failure starts a new count, and its subscribers
/// are to be told. Any other failure is noted and no more.
pub fn on_fetch_failure(db: &mut Database, rss_link: &str, now: Timestamp) -> (action:
    FailureAction)
    ensures
        final(db)@.wf(),
        match old(db)@.down_time(rss_link@, now) {
            None => action == FailureAction::Abort && final(db)@ == old(db)@,
            Some(down) => if overdue(down) {
                action == FailureAction::Notify && final(db)@ == old(db)@.mark_down(
                    rss_link@,
                    now,
                ).reset_down_time(rss_link@)
            } else {
                action == FailureAction::Wait && final(db)@ == old(db)@.mark_down(rss_link@, now)
            },
        },
{
    match db.get_or_update_down_time(rss_link, now) {
        None => FailureAction::Abort,
        Some(down) => {
            if overdue(down) {
                db.reset_down_time(rss_link);
                FailureAction::Notify
            } else {
                FailureAction::Wait
            }
        },
    }
}

/// Why a send failed, as far as it matters for what comes next.
#[derive(Debug, Clone, Copy, PartialEq, Eq, Structural)]
pub enum SendFailure {
    /// The target is out of reach for good.
    Unavailable,
    /// The target has a new identifier.
    Migrated(SubscriberId),
    /// Too many messages: the channel asks for a pause of so many seconds.
    RateLimited(u64),
    /// Anything else.
    Other,
}

/// How a send ended.
#[derive(Debug, Clone, Copy, PartialEq, Eq, Structural)]
pub enum SendOutcome {
    Delivered,
    Failed(SendFailure),
}

/// The kind of failure that a channel's answer stands for. An answer that
/// describes an unreachable target counts as that, whatever else it holds;
/// a new identifier comes before a pause.
pub open spec fn spec_classify_failure(
    description: Seq<char>,
    migrate_to: Option<SubscriberId>,
    retry_after: Option<u64>,
) -> SendFailure {
    if spec_chat_is_unavailable(description) {
        SendFailure::Unavailable
    } else {
        match migrate_to {
            Some(target) => SendFailure::Migrated(target),
            None => match retry_after {
                Some(secs) => SendFailure::RateLimited(secs),
                None => SendFailure::Other,
            },
        }
    }
}

/// The kind of failure that a channel's answer stands for, from the
/// answer's description, the new identifier it names, if any, and the
/// pause it asks for, if any.
pub fn classify_failure(
    description: &str,
    migrate_to: Option<SubscriberId>,
    retry_after: Option<u64>,
) -> (failure: SendFailure)
    ensures
        failure == spec_classify_failure(description@, migrate_to, retry_after),
{
    if chat_is_unavailable(description) {
        SendFailure::Unavailable
    } else {
        match migrate_to {
            Some(target) => SendFailure::Migrated(target),
            None => match retry_after {
                Some(secs) => SendFailure::RateLimited(secs),
                None => SendFailure::Other,
            },
        }
    }
}

/// What follows a send.
#[derive(Debug, Clone, Copy, PartialEq, Eq, Structural)]
pub enum Verdict {
    /// The message arrived.
    Done,
    /// The subscriber is gone and has been removed: no more sends to it.
    Dropped,
    /// Try again, at the target that the delivery now names.
    Again,
    /// Wait so many seconds, then try again.
    AgainAfter(u64),
    /// The failure goes to the caller: the cycle of this feed ends.
    Failed,
}

/// The sending of one message to one subscriber: whom to send to, and how
/// many times it has been tried.
#[derive(Debug, Clone, Copy, PartialEq, Eq, Structural)]
pub struct Delivery {
    pub target: SubscriberId,
    pub attempts: u8,
}

impl Delivery {
    /// The delivery after `outcome` of a send to its target.
    pub open spec fn spec_settle(self, outcome: SendOutcome) -> Delivery {
        match outcome {
            SendOutcome::Failed(SendFailure::Migrated(target)) => Delivery { target, ..self },
            _ => self,
        }
    }

    /// What follows `outcome`.
    pub open spec fn spec_verdict(outcome: SendOutcome) -> Verdict {
        match outcome {
            SendOutcome::Delivered => Verdict::Done,
            SendOutcome::Failed(SendFailure::Unavailable) => Verdict::Dropped,
            SendOutcome::Failed(SendFailure::Migrated(_)) => Verdict::Again,
            SendOutcome::Failed(SendFailure::RateLimited(secs)) => Verdict::AgainAfter(secs),
            SendOutcome::Failed(SendFailure::Other) => Verdict::Failed,
        }
    }

    /// The store after `outcome` of a send to `target`: a subscriber that
    /// is out of reach is removed, one with a new identifier is renamed.
    pub open spec fn spec_store_after(
        store: crate::model::DatabaseView,
        target: SubscriberId,
        outcome: SendOutcome,
    ) -> crate::model::DatabaseView {
        match outcome {
            SendOutcome::Failed(SendFailure::Unavailable) => store.delete_subscriber(target),
            SendOutcome::Failed(SendFailure::Migrated(renamed)) => store.migrate(target, renamed),
            _ => store,
        }
    }

    /// A delivery to `subscriber` that has not been tried yet.
    pub fn new(subscriber: SubscriberId) -> (delivery: Delivery)
        ensures
            delivery == (Delivery { target: subscriber, attempts: 0 }),
    {
        Delivery { target: subscriber, attempts: 0 }
    }

    /// Starts the next attempt: returns the target to send to, or `None`
    /// once the message has been sent three times, after which the last
    /// failure goes to the caller.
    pub fn next_attempt(&mut self) -> (target: Option<SubscriberId>)
        ensures
            old(self).attempts < MAX_ATTEMPTS ==> target == Some(old(self).target) && *final(self)
                == (Delivery { attempts: (old(self).attempts + 1) as u8, ..*old(self) }),
            old(self).attempts >= MAX_ATTEMPTS ==> target is None && *final(self) == *old(self),
    {
        if self.attempts < MAX_ATTEMPTS {
            self.attempts = self.attempts + 1;
            Some(self.target)
        } else {
            None
        }
    }

    /// Whether the delivery ends in failure after a send that asked for
    /// another attempt: it does once every attempt has been made. The last
    /// failure then goes to the caller.
    pub fn gave_up(&self, last: Verdict) -> (failed: bool)
        ensures
            failed == (self.attempts >= MAX_ATTEMPTS && (last is Again || last is AgainAfter)),
    {
        let asks_again = match last {
            Verdict::Again => true,
            Verdict::AgainAfter(_) => true,
            _ => false,
        };
        self.attempts >= MAX_ATTEMPTS && asks_again
    }

    /// Takes in how the send to the current target ended. A subscriber out
    /// of reach is removed from `db`, with all its subscriptions. One with
    /// a new identifier is renamed in `db`, and the delivery goes on to
    /// the new identifier. Nothing else changes the store.
    pub fn settle(&mut self, db: &mut Database, outcome: SendOutcome) -> (verdict: Verdict)
        ensures
            verdict == Delivery::spec_verdict(outcome),
            *final(self) == old(self).spec_settle(outcome),
            final(db)@ == Delivery::spec_store_after(old(db)@, old(self).target, outcome),
            final(db)@.wf(),
    {
        proof {
            use_type_invariant(&*db);
        }
        match outcome {
            SendOutcome::Delivered => Verdict::Done,
            SendOutcome::Failed(failure) => match failure {
                SendFailure::Unavailable => {
                    db.delete_subscriber(self.target);
                    Verdict::Dropped
                },
                SendFailure::Migrated(target) => {
                    db.update_subscriber(self.target, target);
                    self.target = target;
                    Verdict::Again
                },
                SendFailure::RateLimited(secs) => {
                    Verdict::AgainAfter(secs)
                },
                SendFailure::Other => {
                    Verdict::Failed
                },
            },
        }
    }
}

/// The title and the link under which an item is announced: its own, and
/// where it has none, those of its feed.
pub fn line_parts(item: &Item, feed: &Feed) -> (parts: (String, String))
    ensures
        parts.0@ == (match item@.title {
            Some(title) => title,
            None => feed@.title,
        }),
        parts.1@ == (match item@.link {
            Some(link) => link,
            None => feed@.link,
        }),
{
    let title = match &item.title {
        Some(title) => title.clone(),
        None => feed.title.clone(),
    };
    let link = match &item.link {
        Some(link) => link.clone(),
        None => feed.link.clone(),
    };
    (title, link)
}

} // verus!
