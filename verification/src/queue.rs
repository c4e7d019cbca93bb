//! Queue business rules: the active/waitlist partition, operation results,
//! milestone notifications, and the queue manager that applies them to the
//! store.

use vstd::prelude::*;
use crate::store::QueueStore;
use crate::store::RecordModel;
use crate::store::add_user_model;
use crate::store::clear_notification_id_model;
use crate::store::members_of;
use crate::store::message_id_of;
use crate::store::notification_id_of;
use crate::store::queue_exists_model;
use crate::store::remove_user_model;
use crate::store::set_message_id_model;
use crate::store::set_notification_id_model;

verus! {

/// Queue size threshold for the "one more needed" notification.
pub const QUEUE_ALMOST_FULL: usize = 4;

/// Maximum size of the active queue before users go to the waitlist.
pub const QUEUE_FULL: usize = 5;

/// The active set: the first `QUEUE_FULL` members, in join order.
pub open spec fn active_of(members: Seq<Seq<char>>) -> Seq<Seq<char>> {
    if members.len() > QUEUE_FULL {
        members.take(QUEUE_FULL as int)
    } else {
        members
    }
}

/// The waitlist: every member beyond position `QUEUE_FULL`, in join order.
pub open spec fn waitlist_of(members: Seq<Seq<char>>) -> Seq<Seq<char>> {
    if members.len() > QUEUE_FULL {
        members.skip(QUEUE_FULL as int)
    } else {
        Seq::empty()
    }
}

/// The membership list holds no identifier twice.
pub open spec fn no_duplicates(members: Seq<Seq<char>>) -> bool {
    forall|i: int, j: int| 0 <= i < j < members.len() ==> members[i] != members[j]
}

/// The partition is a pure function of the membership list: the active set
/// never exceeds `QUEUE_FULL`, the waitlist is non-empty only when the active
/// set is full, and active set followed by waitlist is the whole list.
pub proof fn lemma_partition_invariant(members: Seq<Seq<char>>)
    ensures
        active_of(members).len() <= QUEUE_FULL,
        waitlist_of(members).len() > 0 ==> active_of(members).len() == QUEUE_FULL,
        active_of(members) + waitlist_of(members) =~= members,
{
}

/// Result of a queue operation with updated state.
#[derive(Debug)]
pub enum QueueOperationResult {
    Success {
        /// Users in the active queue (the first `QUEUE_FULL` positions).
        users: Vec<String>,
        /// Users in the waitlist (positions beyond `QUEUE_FULL`).
        waitlist: Vec<String>,
        /// Optional notification to post to the channel.
        notification: Option<QueueNotification>,
        /// User that moved from the waitlist into the active queue, if any.
        promoted_user: Option<String>,
    },
    /// User attempted to join but is already in the queue.
    AlreadyInQueue,
    /// User attempted to leave but is not in the queue.
    NotInQueue,
    /// Operation failed with an error message.
    Error(String),
}

/// Notifications posted to the channel on queue milestones.
#[derive(Debug, Clone)]
pub enum QueueNotification {
    /// Queue has `QUEUE_ALMOST_FULL` users, one more needed.
    OneMore,
    /// Queue is full with `QUEUE_FULL` users, ready to play.
    Ready { users: Vec<String> },
}

/// The rendered text of a notification.
pub open spec fn notification_message(n: QueueNotification) -> Seq<char> {
    match n {
        QueueNotification::OneMore => "One more"@,
        QueueNotification::Ready { users } => "There are enough users for a game!\n"@
            + crate::messages::mention_list(users.deep_view(), ", "@),
    }
}

impl QueueNotification {
    /// Converts the notification to the chat message text.
    pub fn to_message(&self) -> (r: String)
        ensures
            r@ == notification_message(*self),
    {
        match self {
            QueueNotification::OneMore => "One more".to_owned(),
            QueueNotification::Ready { users } => {
                let mentions = crate::messages::join_mentions(users, ", ");
                let mut r = "There are enough users for a game!\n".to_owned();
                r.append(mentions.as_str());
                r
            },
        }
    }
}

/// What `join_queue` reports right after a successful join, as a function
/// of the resulting membership list: `OneMore` when the fourth member
/// arrives, `Ready` exactly when the queue fills, and nothing on any later
/// join while the queue stays full.
pub open spec fn join_notification_ok(after: Seq<Seq<char>>, n: Option<QueueNotification>) -> bool {
    if after.len() == QUEUE_ALMOST_FULL {
        n matches Some(QueueNotification::OneMore)
    } else if after.len() == QUEUE_FULL {
        n matches Some(QueueNotification::Ready { users }) && users.deep_view() == after
    } else {
        n is None
    }
}

/// What `leave_queue` reports right after a successful departure, as a
/// function of the resulting active set.
pub open spec fn leave_notification_ok(active: Seq<Seq<char>>, n: Option<QueueNotification>) -> bool {
    if active.len() == QUEUE_ALMOST_FULL {
        n matches Some(QueueNotification::OneMore)
    } else {
        n is None
    }
}

/// The membership list after a join: unchanged when the user is already
/// present, otherwise the user is appended.
pub open spec fn members_after_join(before: Seq<Seq<char>>, user: Seq<char>) -> Seq<Seq<char>> {
    if before.contains(user) {
        before
    } else {
        before.push(user)
    }
}

/// The membership list after a departure: every occurrence of the user is
/// removed, order otherwise kept.
pub open spec fn members_after_leave(before: Seq<Seq<char>>, user: Seq<char>) -> Seq<Seq<char>> {
    before.filter(|x: Seq<char>| x != user)
}

/// Who moves into the active set when this user leaves: if the user held an
/// active position, the queue was full and someone was waiting, the member
/// now holding the last active slot was promoted.
pub open spec fn promoted_after_leave(before: Seq<Seq<char>>, user: Seq<char>) -> Option<
    Seq<char>,
> {
    let after = members_after_leave(before, user);
    match before.index_of_first(user) {
        Some(pos) => if pos < QUEUE_FULL && after.len() >= QUEUE_FULL && before.len()
            > QUEUE_FULL {
            Some(after[QUEUE_FULL - 1])
        } else {
            None
        },
        None => None,
    }
}

/// The last-action annotation after a join.
pub open spec fn joined_action(user: Seq<char>) -> Seq<char> {
    "<@"@ + user + "> joined!"@
}

/// The last-action annotation after a departure.
pub open spec fn left_action(user: Seq<char>) -> Seq<char> {
    "<@"@ + user + "> left!"@
}

/// The reported promotion matches the promotion rule.
pub open spec fn promoted_ok(
    before: Seq<Seq<char>>,
    user: Seq<char>,
    p: Option<String>,
) -> bool {
    match promoted_after_leave(before, user) {
        Some(t) => p matches Some(s) && s@ == t,
        None => p is None,
    }
}

/// Joins keep the membership list duplicate-free, and a join by a user who
/// is already present leaves the list unchanged. Together with
/// `join_outcome_ok`, which answers such a join with `AlreadyInQueue`, this
/// is the no-duplicates law: however many joins are applied to an initially
/// empty list, every identifier appears at most once.
pub proof fn lemma_join_no_duplicates(before: Seq<Seq<char>>, user: Seq<char>)
    requires
        no_duplicates(before),
    ensures
        no_duplicates(members_after_join(before, user)),
        before.contains(user) ==> members_after_join(before, user) == before,
{
    if !before.contains(user) {
        let after = before.push(user);
        assert forall|i: int, j: int| 0 <= i < j < after.len() implies after[i] != after[j] by {
            if j == after.len() - 1 {
                assert(before[i] != user);
            }
        }
    }
}

proof fn lemma_leave_by_absent_user(s: Seq<Seq<char>>, user: Seq<char>)
    requires
        forall|k: int| 0 <= k < s.len() ==> #[trigger] s[k] != user,
    ensures
        members_after_leave(s, user) == s,
    decreases s.len(),
{
    reveal(Seq::filter);
    if s.len() > 0 {
        lemma_leave_by_absent_user(s.drop_last(), user);
        assert(s.drop_last().push(s.last()) =~= s);
    }
}

/// The engine-wide no-duplicates invariant: in a well-formed manager —
/// which `new` establishes and every operation preserves — every queue's
/// membership list holds each identifier at most once.
pub proof fn lemma_wf_members_duplicate_free(
    m: QueueManager,
    guild: Seq<char>,
    channel: Seq<char>,
)
    requires
        m.wf(),
    ensures
        no_duplicates(m.members_view(guild, channel)),
{
}

proof fn lemma_leave_keeps_only_members(s: Seq<Seq<char>>, user: Seq<char>, x: Seq<char>)
    requires
        members_after_leave(s, user).contains(x),
    ensures
        s.contains(x),
    decreases s.len(),
{
    reveal(Seq::filter);
    if s.len() > 0 {
        let f = members_after_leave(s, user);
        let fd = members_after_leave(s.drop_last(), user);
        if s.last() != user {
            assert(f == fd.push(s.last()));
            let i = choose|i: int| 0 <= i < f.len() && f[i] == x;
            if i < fd.len() {
                assert(fd[i] == x);
                assert(fd.contains(x));
                lemma_leave_keeps_only_members(s.drop_last(), user, x);
                let j = choose|j: int| 0 <= j < s.drop_last().len() && s.drop_last()[j] == x;
                assert(s[j] == x);
            } else {
                assert(x == s.last());
                assert(s[s.len() - 1] == x);
            }
        } else {
            assert(f == fd);
            lemma_leave_keeps_only_members(s.drop_last(), user, x);
            let j = choose|j: int| 0 <= j < s.drop_last().len() && s.drop_last()[j] == x;
            assert(s[j] == x);
        }
    }
}

proof fn lemma_leave_preserves_no_duplicates(s: Seq<Seq<char>>, user: Seq<char>)
    requires
        no_duplicates(s),
    ensures
        no_duplicates(members_after_leave(s, user)),
    decreases s.len(),
{
    reveal(Seq::filter);
    if s.len() > 0 {
        assert forall|i: int, j: int| 0 <= i < j < s.drop_last().len() implies s.drop_last()[i]
            != s.drop_last()[j] by {
            assert(s[i] != s[j]);
        }
        lemma_leave_preserves_no_duplicates(s.drop_last(), user);
        let f = members_after_leave(s, user);
        let fd = members_after_leave(s.drop_last(), user);
        if s.last() != user {
            assert(f == fd.push(s.last()));
            assert forall|i: int, j: int| 0 <= i < j < f.len() implies f[i] != f[j] by {
                if j == f.len() - 1 {
                    assert(f[i] == fd[i]);
                    if fd[i] == s.last() {
                        assert(fd.contains(s.last()));
                        lemma_leave_keeps_only_members(s.drop_last(), user, s.last());
                        let k = choose|k: int|
                            0 <= k < s.drop_last().len() && s.drop_last()[k] == s.last();
                        assert(s[k] == s[s.len() - 1]);
                        assert(false);
                    }
                } else {
                    assert(f[i] == fd[i] && f[j] == fd[j]);
                }
            }
        }
    }
}

proof fn lemma_filter_removes_exactly_one(s: Seq<Seq<char>>, user: Seq<char>, i: int)
    requires
        no_duplicates(s),
        0 <= i < s.len(),
        s[i] == user,
    ensures
        members_after_leave(s, user) =~= s.remove(i),
    decreases s.len(),
{
    reveal(Seq::filter);
    if i == s.len() - 1 {
        assert(s.last() == user);
        assert forall|k: int| 0 <= k < s.drop_last().len() implies #[trigger] s.drop_last()[k]
            != user by {
            assert(s[k] != s[i]);
        }
        lemma_leave_by_absent_user(s.drop_last(), user);
        assert(members_after_leave(s, user) == members_after_leave(s.drop_last(), user));
        assert(s.remove(i) =~= s.drop_last());
    } else {
        assert(s.last() != user);
        assert(s.drop_last()[i] == s[i]);
        lemma_filter_removes_exactly_one(s.drop_last(), user, i);
        assert(members_after_leave(s, user) == members_after_leave(s.drop_last(), user).push(
            s.last(),
        ));
        assert(s.drop_last().remove(i).push(s.last()) =~= s.remove(i));
    }
}

/// Joining the fourth distinct user is answered with `OneMore`; the fifth
/// with `Ready` over exactly the five active members; the sixth joins with
/// no notification and stands first on the waitlist.
pub proof fn lemma_join_thresholds(
    before: Seq<Seq<char>>,
    user: Seq<char>,
    n: Option<QueueNotification>,
)
    requires
        !before.contains(user),
        join_notification_ok(before.push(user), n),
    ensures
        before.len() == 3 ==> n matches Some(QueueNotification::OneMore),
        before.len() == 4 ==> (n matches Some(QueueNotification::Ready { users })
            && users.deep_view() =~= before.push(user) && users.deep_view().len() == QUEUE_FULL),
        before.len() == 5 ==> n is None && waitlist_of(before.push(user)) =~= seq![user],
{
}

/// With six members queued (five active, one waitlisted), the departure of
/// any of the first five promotes the sixth; the departure of the waitlisted
/// member promotes nobody.
pub proof fn lemma_promotion(before: Seq<Seq<char>>, i: int)
    requires
        no_duplicates(before),
        before.len() == 6,
        0 <= i < 6,
    ensures
        i < QUEUE_FULL ==> promoted_after_leave(before, before[i]) == Some(before[5]),
        i == QUEUE_FULL ==> promoted_after_leave(before, before[i]) is None,
{
    let user = before[i];
    assert(before.contains(user));
    before.index_of_first_ensures(user);
    let pos = before.index_of_first(user).unwrap();
    assert(before[pos] == user);
    if pos != i {
        assert(before[pos] == before[i]);
        assert(false);
    }
    lemma_filter_removes_exactly_one(before, user, i);
    let after = members_after_leave(before, user);
    assert(after =~= before.remove(i));
    if i < QUEUE_FULL {
        assert(after.len() == 5);
        assert(after[4] == before[5]);
    }
}

/// An absent record leaves nothing behind: no membership list, no message
/// binding, no notification binding, and the queue does not exist. Since
/// `close_queue` has no precondition beyond well-formedness, promises `Ok`,
/// and leaves the record absent, two closes in a row both succeed and leave
/// this empty state.
pub proof fn lemma_closed_queue_has_no_residue(m: QueueManager, guild: Seq<char>, channel: Seq<
    char,
>)
    requires
        m.spec_record(guild, channel) is None,
    ensures
        m.members_view(guild, channel) =~= Seq::<Seq<char>>::empty(),
        message_id_of(m.spec_record(guild, channel)) is None,
        notification_id_of(m.spec_record(guild, channel)) is None,
        !queue_exists_model(m.spec_record(guild, channel)),
{
}

/// The stale-message guard: after a close (record absent) followed by a
/// create with a new binding, `is_active_queue` rejects the old binding
/// whenever the new identifier differs from it.
pub proof fn lemma_stale_binding_rejected(new_id: i64, old_id: u64)
    requires
        new_id as u64 != old_id,
    ensures
        !bound_to(set_message_id_model(None, new_id), old_id),
{
}

/// Manages queue operations: business rules over the persistent store, plus
/// the transient last-action annotation.
pub struct QueueManager {
    store: QueueStore,
    /// Last action annotation (formatted, ready to display, not persisted).
    last_action: Option<String>,
}

/// Everything `join_queue` promises, relating the states before and after
/// the call to its result.
pub open spec fn join_outcome_ok(
    pre: QueueManager,
    post: QueueManager,
    guild: Seq<char>,
    channel: Seq<char>,
    user: Seq<char>,
    r: QueueOperationResult,
) -> bool {
    let before = members_of(pre.spec_record(guild, channel));
    let after = before.push(user);
    if before.contains(user) {
        r is AlreadyInQueue && post == pre
    } else {
        &&& post.spec_record(guild, channel) == add_user_model(
            pre.spec_record(guild, channel),
            user,
        )
        &&& post.last_action_view() == Some(joined_action(user))
        &&& r matches QueueOperationResult::Success { users, waitlist, notification, promoted_user }
        &&& users.deep_view() == active_of(after)
        &&& waitlist.deep_view() == waitlist_of(after)
        &&& promoted_user is None
        &&& join_notification_ok(after, notification)
    }
}

/// Everything `leave_queue` promises, relating the states before and after
/// the call to its result.
pub open spec fn leave_outcome_ok(
    pre: QueueManager,
    post: QueueManager,
    guild: Seq<char>,
    channel: Seq<char>,
    user: Seq<char>,
    r: QueueOperationResult,
) -> bool {
    let before = members_of(pre.spec_record(guild, channel));
    let after = members_after_leave(before, user);
    if !before.contains(user) {
        r is NotInQueue && post == pre
    } else {
        &&& post.spec_record(guild, channel) == remove_user_model(
            pre.spec_record(guild, channel),
            user,
        )
        &&& post.last_action_view() == Some(left_action(user))
        &&& r matches QueueOperationResult::Success { users, waitlist, notification, promoted_user }
        &&& users.deep_view() == active_of(after)
        &&& waitlist.deep_view() == waitlist_of(after)
        &&& promoted_ok(before, user, promoted_user)
        &&& leave_notification_ok(active_of(after), notification)
    }
}

/// The stored message binding equals the candidate identifier.
pub open spec fn bound_to(r: Option<RecordModel>, candidate: u64) -> bool {
    match message_id_of(r) {
        Some(stored) => stored as u64 == candidate,
        None => false,
    }
}

impl QueueManager {
    /// The store keeps at most one record per key pair, and every queue's
    /// membership list is duplicate-free.
    pub closed spec fn wf(&self) -> bool {
        &&& self.store.wf()
        &&& forall|g: Seq<char>, c: Seq<char>|
            no_duplicates(members_of(#[trigger] self.store.spec_record(g, c)))
    }

    /// The stored record for a key pair, if any.
    pub closed spec fn spec_record(&self, guild: Seq<char>, channel: Seq<char>) -> Option<
        RecordModel,
    > {
        self.store.spec_record(guild, channel)
    }

    /// The membership list of a queue; empty when no record is stored.
    pub open spec fn members_view(&self, guild: Seq<char>, channel: Seq<char>) -> Seq<Seq<char>> {
        members_of(self.spec_record(guild, channel))
    }

    /// The last-action annotation, as characters.
    pub closed spec fn last_action_view(&self) -> Option<Seq<char>> {
        match self.last_action {
            Some(s) => Some(s@),
            None => None,
        }
    }

    /// Every queue other than the given one reads the same in both states.
    pub open spec fn preserves_other_queues(
        pre: QueueManager,
        post: QueueManager,
        guild: Seq<char>,
        channel: Seq<char>,
    ) -> bool {
        forall|g2: Seq<char>, c2: Seq<char>|
            !(g2 == guild && c2 == channel) ==> #[trigger] post.spec_record(g2, c2)
                == pre.spec_record(g2, c2)
    }

    /// A fresh manager: empty store, no last action.
    pub fn new() -> (r: QueueManager)
        ensures
            r.wf(),
            forall|g: Seq<char>, c: Seq<char>| #[trigger] r.spec_record(g, c) is None,
            r.last_action_view() is None,
    {
        let r = QueueManager { store: QueueStore::new(), last_action: None };
        proof {
            assert forall|g: Seq<char>, c: Seq<char>| no_duplicates(
                members_of(#[trigger] r.store.spec_record(g, c)),
            ) by {
                assert(r.store.spec_record(g, c) is None);
            }
        }
        r
    }

    /// Gets the last action annotation.
    pub fn get_last_action(&self) -> (r: Option<&str>)
        ensures
            match r {
                Some(s) => self.last_action_view() == Some(s@),
                None => self.last_action_view() is None,
            },
    {
        match &self.last_action {
            Some(s) => Some(s.as_str()),
            None => None,
        }
    }

    /// Checks whether a queue exists for the given guild and channel: true
    /// exactly when the message binding is present.
    pub fn queue_exists(&mut self, guild_id: &str, channel_id: &str) -> (r: Result<bool, String>)
        ensures
            *final(self) == *old(self),
            r == Ok::<bool, String>(
                queue_exists_model(old(self).spec_record(guild_id@, channel_id@)),
            ),
    {
        Ok(self.store.queue_exists(guild_id, channel_id))
    }

    /// Stores the message binding for a queue, creating the record when
    /// absent.
    pub fn create_queue(&mut self, guild_id: &str, channel_id: &str, message_id: i64) -> (r:
        Result<(), String>)
        requires
            old(self).wf(),
        ensures
            final(self).wf(),
            r == Ok::<(), String>(()),
            final(self).spec_record(guild_id@, channel_id@) == set_message_id_model(
                old(self).spec_record(guild_id@, channel_id@),
                message_id,
            ),
            final(self).last_action_view() == old(self).last_action_view(),
            QueueManager::preserves_other_queues(*old(self), *final(self), guild_id@, channel_id@),
    {
        self.store.set_message_id(guild_id, channel_id, message_id);
        proof {
            assert forall|g2: Seq<char>, c2: Seq<char>| no_duplicates(
                members_of(#[trigger] self.store.spec_record(g2, c2)),
            ) by {
                assert(no_duplicates(members_of(old(self).store.spec_record(g2, c2))));
            }
        }
        Ok(())
    }

    /// Retrieves the message binding for a queue.
    pub fn get_message_id(&mut self, guild_id: &str, channel_id: &str) -> (r: Result<
        Option<i64>,
        String,
    >)
        ensures
            *final(self) == *old(self),
            r == Ok::<Option<i64>, String>(
                message_id_of(old(self).spec_record(guild_id@, channel_id@)),
            ),
    {
        Ok(self.store.get_message_id(guild_id, channel_id))
    }

    /// Retrieves all users in the queue and waitlist, in join order.
    pub fn get_users(&mut self, guild_id: &str, channel_id: &str) -> (r: Result<
        Vec<String>,
        String,
    >)
        ensures
            *final(self) == *old(self),
            r matches Ok(users) && users.deep_view() == old(self).members_view(
                guild_id@,
                channel_id@,
            ),
    {
        Ok(self.store.get_users(guild_id, channel_id))
    }

    /// Verifies that a message identifier matches the stored queue binding,
    /// to reject actions against a stale rendered message.
    pub fn is_active_queue(&mut self, guild_id: &str, channel_id: &str, message_id: u64) -> (r:
        bool)
        ensures
            *final(self) == *old(self),
            r == bound_to(old(self).spec_record(guild_id@, channel_id@), message_id),
    {
        match self.store.get_message_id(guild_id, channel_id) {
            Some(stored_id) => (#[verifier::truncate] (stored_id as u64)) == message_id,
            None => false,
        }
    }

    /// Stores the notification binding for a queue.
    pub fn set_notification_message_id(
        &mut self,
        guild_id: &str,
        channel_id: &str,
        message_id: i64,
    ) -> (r: Result<(), String>)
        requires
            old(self).wf(),
        ensures
            final(self).wf(),
            r == Ok::<(), String>(()),
            final(self).spec_record(guild_id@, channel_id@) == set_notification_id_model(
                old(self).spec_record(guild_id@, channel_id@),
                message_id,
            ),
            final(self).last_action_view() == old(self).last_action_view(),
            QueueManager::preserves_other_queues(*old(self), *final(self), guild_id@, channel_id@),
    {
        self.store.set_notification_message_id(guild_id, channel_id, message_id);
        proof {
            assert forall|g2: Seq<char>, c2: Seq<char>| no_duplicates(
                members_of(#[trigger] self.store.spec_record(g2, c2)),
            ) by {
                assert(no_duplicates(members_of(old(self).store.spec_record(g2, c2))));
            }
        }
        Ok(())
    }

    /// Retrieves the notification binding for a queue.
    pub fn get_notification_message_id(&mut self, guild_id: &str, channel_id: &str) -> (r: Result<
        Option<i64>,
        String,
    >)
        ensures
            *final(self) == *old(self),
            r == Ok::<Option<i64>, String>(
                notification_id_of(old(self).spec_record(guild_id@, channel_id@)),
            ),
    {
        Ok(self.store.get_notification_message_id(guild_id, channel_id))
    }

    /// Clears the notification binding for a queue; a missing record is left
    /// missing.
    pub fn delete_notification_message_id(&mut self, guild_id: &str, channel_id: &str) -> (r:
        Result<(), String>)
        requires
            old(self).wf(),
        ensures
            final(self).wf(),
            r == Ok::<(), String>(()),
            final(self).spec_record(guild_id@, channel_id@) == clear_notification_id_model(
                old(self).spec_record(guild_id@, channel_id@),
            ),
            final(self).last_action_view() == old(self).last_action_view(),
            QueueManager::preserves_other_queues(*old(self), *final(self), guild_id@, channel_id@),
    {
        self.store.delete_notification_message_id(guild_id, channel_id);
        proof {
            assert forall|g2: Seq<char>, c2: Seq<char>| no_duplicates(
                members_of(#[trigger] self.store.spec_record(g2, c2)),
            ) by {
                assert(no_duplicates(members_of(old(self).store.spec_record(g2, c2))));
            }
        }
        Ok(())
    }

    /// Deletes all queue data for the given guild and channel as one unit:
    /// membership list, message binding and notification binding. Closing a
    /// queue that does not exist succeeds as a no-op.
    pub fn close_queue(&mut self, guild_id: &str, channel_id: &str) -> (r: Result<(), String>)
        requires
            old(self).wf(),
        ensures
            final(self).wf(),
            r == Ok::<(), String>(()),
            final(self).spec_record(guild_id@, channel_id@) is None,
            final(self).last_action_view() == old(self).last_action_view(),
            QueueManager::preserves_other_queues(*old(self), *final(self), guild_id@, channel_id@),
    {
        self.store.delete_queue(guild_id, channel_id);
        proof {
            assert forall|g2: Seq<char>, c2: Seq<char>| no_duplicates(
                members_of(#[trigger] self.store.spec_record(g2, c2)),
            ) by {
                assert(no_duplicates(members_of(old(self).store.spec_record(g2, c2))));
            }
        }
        Ok(())
    }

    /// Splits the full membership list into the active queue and the waitlist.
    pub fn split_queue(all_users: Vec<String>) -> (r: (Vec<String>, Vec<String>))
        ensures
            r.0.deep_view() == active_of(all_users.deep_view()),
            r.1.deep_view() == waitlist_of(all_users.deep_view()),
    {
        if all_users.len() > QUEUE_FULL {
            let mut users: Vec<String> = Vec::new();
            let mut waitlist: Vec<String> = Vec::new();
            let mut i: usize = 0;
            while i < QUEUE_FULL
                invariant
                    i <= QUEUE_FULL,
                    QUEUE_FULL < all_users@.len(),
                    users@.len() == i,
                    forall|k: int| 0 <= k < i ==> users@[k] == all_users@[k],
                decreases QUEUE_FULL - i,
            {
                users.push(all_users[i].clone());
                i = i + 1;
            }
            let mut j: usize = QUEUE_FULL;
            while j < all_users.len()
                invariant
                    QUEUE_FULL <= j <= all_users@.len(),
                    users@.len() == QUEUE_FULL,
                    forall|k: int| 0 <= k < QUEUE_FULL ==> users@[k] == all_users@[k],
                    waitlist@.len() == j - QUEUE_FULL,
                    forall|k: int| 0 <= k < j - QUEUE_FULL ==> waitlist@[k] == all_users@[
                        QUEUE_FULL + k
                    ],
                decreases all_users.len() - j,
            {
                waitlist.push(all_users[j].clone());
                j = j + 1;
            }
            assert(users.deep_view() =~= active_of(all_users.deep_view()));
            assert(waitlist.deep_view() =~= waitlist_of(all_users.deep_view()));
            (users, waitlist)
        } else {
            (all_users, Vec::new())
        }
    }

    /// Adds a user to the queue. Returns the updated queue state.
    pub fn join_queue(&mut self, guild_id: &str, channel_id: &str, user_id: &str) -> (r:
        QueueOperationResult)
        requires
            old(self).wf(),
        ensures
            final(self).wf(),
            QueueManager::preserves_other_queues(*old(self), *final(self), guild_id@, channel_id@),
            join_outcome_ok(*old(self), *final(self), guild_id@, channel_id@, user_id@, r),
    {
        if self.store.contains_user(guild_id, channel_id, user_id) {
            return QueueOperationResult::AlreadyInQueue;
        }
        self.store.add_user(guild_id, channel_id, user_id);
        let all_users = self.store.get_users(guild_id, channel_id);
        let total_members = all_users.len();
        let (users, waitlist) = Self::split_queue(all_users);
        let notification = join_notification(total_members, &users);
        self.last_action = Some(action_message(user_id, "> joined!"));
        proof {
            let before = members_of(old(self).store.spec_record(guild_id@, channel_id@));
            assert(no_duplicates(before));
            lemma_join_no_duplicates(before, user_id@);
            assert forall|g2: Seq<char>, c2: Seq<char>| no_duplicates(
                members_of(#[trigger] self.store.spec_record(g2, c2)),
            ) by {
                assert(no_duplicates(members_of(old(self).store.spec_record(g2, c2))));
            }
        }
        QueueOperationResult::Success { users, waitlist, notification, promoted_user: None }
    }

    /// Removes a user from the queue. Returns the updated queue state; if a
    /// waitlisted user moves into the active set, it is reported as promoted.
    pub fn leave_queue(&mut self, guild_id: &str, channel_id: &str, user_id: &str) -> (r:
        QueueOperationResult)
        requires
            old(self).wf(),
        ensures
            final(self).wf(),
            QueueManager::preserves_other_queues(*old(self), *final(self), guild_id@, channel_id@),
            leave_outcome_ok(*old(self), *final(self), guild_id@, channel_id@, user_id@, r),
    {
        if !self.store.contains_user(guild_id, channel_id, user_id) {
            return QueueOperationResult::NotInQueue;
        }
        let users_before = self.store.get_users(guild_id, channel_id);
        let user_position = position_of_user(&users_before, user_id);
        self.store.remove_user(guild_id, channel_id, user_id);
        let all_users = self.store.get_users(guild_id, channel_id);
        let (users, waitlist) = Self::split_queue(all_users);
        let promoted_user = match user_position {
            Some(pos) => {
                proof {
                    users_before.deep_view().index_of_first_ensures(user_id@);
                }
                promotion_after_leave(pos, users_before.len(), &users)
            },
            None => None,
        };
        let notification = leave_notification(&users);
        self.last_action = Some(action_message(user_id, "> left!"));
        proof {
            let before = members_of(old(self).store.spec_record(guild_id@, channel_id@));
            assert(no_duplicates(before));
            lemma_leave_preserves_no_duplicates(before, user_id@);
            assert forall|g2: Seq<char>, c2: Seq<char>| no_duplicates(
                members_of(#[trigger] self.store.spec_record(g2, c2)),
            ) by {
                assert(no_duplicates(members_of(old(self).store.spec_record(g2, c2))));
            }
        }
        QueueOperationResult::Success { users, waitlist, notification, promoted_user }
    }

    /// Removes the member whose display name matches the fragment
    /// case-insensitively, resolving through the caller-supplied roster of
    /// (identifier, display name) pairs; the first match in roster order
    /// wins. Without a match, or when the resolved member is not queued, the
    /// result is `NotInQueue` and nothing changes.
    pub fn kick_user(
        &mut self,
        guild_id: &str,
        channel_id: &str,
        username: &str,
        user_map: &Vec<(String, String)>,
    ) -> (r: QueueOperationResult)
        requires
            old(self).wf(),
        ensures
            final(self).wf(),
            QueueManager::preserves_other_queues(*old(self), *final(self), guild_id@, channel_id@),
            match crate::text::kick_target_in(user_map@, username@) {
                Some(target) => leave_outcome_ok(
                    *old(self),
                    *final(self),
                    guild_id@,
                    channel_id@,
                    target,
                    r,
                ),
                None => r is NotInQueue && *final(self) == *old(self),
            },
    {
        match crate::text::resolve_kick_target(username, user_map) {
            Some(target) => self.leave_queue(guild_id, channel_id, target.as_str()),
            None => QueueOperationResult::NotInQueue,
        }
    }
}

/// The first position of the user in the membership list, if present.
fn position_of_user(v: &Vec<String>, user_id: &str) -> (r: Option<usize>)
    ensures
        match r {
            Some(p) => {
                &&& p < v@.len()
                &&& v.deep_view()[p as int] == user_id@
                &&& forall|t: int| 0 <= t < p ==> v.deep_view()[t] != user_id@
            },
            None => forall|t: int| 0 <= t < v@.len() ==> v.deep_view()[t] != user_id@,
        },
{
    let mut i: usize = 0;
    while i < v.len()
        invariant
            i <= v@.len(),
            forall|t: int| 0 <= t < i ==> v.deep_view()[t] != user_id@,
        decreases v@.len() - i,
    {
        if crate::text::str_eq(v[i].as_str(), user_id) {
            return Some(i);
        }
        i = i + 1;
    }
    None
}

/// The member promoted by a departure: when the departing user held an
/// active position, the set was full before and is still full after, the
/// member now in the last active slot moved up from the waitlist.
pub fn promotion_after_leave(prior_position: usize, before_len: usize, users: &Vec<String>) -> (r:
    Option<String>)
    ensures
        if prior_position < QUEUE_FULL && users@.len() == QUEUE_FULL && before_len > QUEUE_FULL {
            r matches Some(s) && s@ == users.deep_view()[QUEUE_FULL - 1]
        } else {
            r is None
        },
{
    if prior_position < QUEUE_FULL && users.len() == QUEUE_FULL && before_len > QUEUE_FULL {
        Some(users[QUEUE_FULL - 1].clone())
    } else {
        None
    }
}

/// The notification owed right after a join: `OneMore` when the queue
/// reaches one below capacity, `Ready` exactly when it fills — judged by the
/// total membership, so nothing fires on later joins while the queue stays
/// full — and nothing otherwise. `active` is the active set to report in a
/// `Ready` notification.
pub fn join_notification(total_members: usize, active: &Vec<String>) -> (r: Option<
    QueueNotification,
>)
    ensures
        if total_members == QUEUE_ALMOST_FULL {
            r matches Some(QueueNotification::OneMore)
        } else if total_members == QUEUE_FULL {
            r matches Some(QueueNotification::Ready { users }) && users.deep_view()
                == active.deep_view()
        } else {
            r is None
        },
{
    if total_members == QUEUE_ALMOST_FULL {
        Some(QueueNotification::OneMore)
    } else if total_members == QUEUE_FULL {
        Some(QueueNotification::Ready { users: clone_string_vec(active) })
    } else {
        None
    }
}

/// The notification owed right after a departure, given the resulting active
/// set: `OneMore` when the set drops to one below capacity.
pub fn leave_notification(users: &Vec<String>) -> (r: Option<QueueNotification>)
    ensures
        leave_notification_ok(users.deep_view(), r),
{
    if users.len() == QUEUE_ALMOST_FULL {
        Some(QueueNotification::OneMore)
    } else {
        None
    }
}

fn clone_string_vec(v: &Vec<String>) -> (r: Vec<String>)
    ensures
        r.deep_view() == v.deep_view(),
{
    let mut r: Vec<String> = Vec::new();
    let mut i: usize = 0;
    while i < v.len()
        invariant
            i <= v@.len(),
            r@.len() == i,
            forall|k: int| 0 <= k < i ==> r@[k] == v@[k],
        decreases v@.len() - i,
    {
        r.push(v[i].clone());
        i = i + 1;
    }
    assert(r.deep_view() =~= v.deep_view());
    r
}

fn action_message(user_id: &str, suffix: &str) -> (r: String)
    ensures
        r@ == "<@"@ + user_id@ + suffix@,
{
    let mut s = "<@".to_owned();
    s.append(user_id);
    s.append(suffix);
    s
}

} // verus!
