//! In-memory store for queue state: one record per (guild, channel) pair,
//! holding the ordered membership list and the two scalar message bindings.
//!
//! The store is modelled as a partial map from key pairs to `RecordModel`
//! values, read through `spec_record`. Every operation says how the record
//! for the touched key changes and that every other key is left alone.

use vstd::prelude::*;
use vstd::string::StringExecFns;
use crate::text::str_eq;

verus! {

/// One queue's stored state: the key pair, the ordered membership list, and
/// the two message bindings.
pub struct QueueRecord {
    pub guild_id: String,
    pub channel_id: String,
    pub members: Vec<String>,
    pub message_id: Option<i64>,
    pub notification_id: Option<i64>,
}

/// The mathematical content of one stored record.
#[verifier::ext_equal]
pub struct RecordModel {
    pub members: Seq<Seq<char>>,
    pub message_id: Option<i64>,
    pub notification_id: Option<i64>,
}

/// The record is stored under the given key pair.
pub open spec fn key_matches(r: QueueRecord, guild: Seq<char>, channel: Seq<char>) -> bool {
    r.guild_id@ == guild && r.channel_id@ == channel
}

/// The mathematical content of a stored record.
pub open spec fn model_of(r: QueueRecord) -> RecordModel {
    RecordModel {
        members: r.members.deep_view(),
        message_id: r.message_id,
        notification_id: r.notification_id,
    }
}

/// The first record stored under the given key pair, if any.
pub open spec fn record_in(
    s: Seq<QueueRecord>,
    guild: Seq<char>,
    channel: Seq<char>,
) -> Option<RecordModel>
    decreases s.len(),
{
    if s.len() == 0 {
        None
    } else if key_matches(s[0], guild, channel) {
        Some(model_of(s[0]))
    } else {
        record_in(s.drop_first(), guild, channel)
    }
}

/// No two stored records share a key pair.
pub open spec fn distinct_keys(s: Seq<QueueRecord>) -> bool {
    forall|i: int, j: int|
        #![trigger s[i], s[j]]
        0 <= i < j < s.len() ==> !key_matches(s[j], s[i].guild_id@, s[i].channel_id@)
}

proof fn lemma_record_in_at(s: Seq<QueueRecord>, guild: Seq<char>, channel: Seq<char>, i: int)
    requires
        0 <= i < s.len(),
        key_matches(s[i], guild, channel),
        forall|k: int| 0 <= k < i ==> !key_matches(#[trigger] s[k], guild, channel),
    ensures
        record_in(s, guild, channel) == Some(model_of(s[i])),
    decreases i,
{
    if i > 0 {
        lemma_record_in_at(s.drop_first(), guild, channel, i - 1);
    }
}

proof fn lemma_record_in_none(s: Seq<QueueRecord>, guild: Seq<char>, channel: Seq<char>)
    requires
        forall|k: int| 0 <= k < s.len() ==> !key_matches(#[trigger] s[k], guild, channel),
    ensures
        record_in(s, guild, channel) is None,
    decreases s.len(),
{
    if s.len() > 0 {
        lemma_record_in_none(s.drop_first(), guild, channel);
    }
}

proof fn lemma_record_in_update_frame(
    s: Seq<QueueRecord>,
    i: int,
    r2: QueueRecord,
    guild: Seq<char>,
    channel: Seq<char>,
)
    requires
        0 <= i < s.len(),
        !key_matches(s[i], guild, channel),
        !key_matches(r2, guild, channel),
    ensures
        record_in(s.update(i, r2), guild, channel) == record_in(s, guild, channel),
    decreases i,
{
    let t = s.update(i, r2);
    if i == 0 {
        assert(t.drop_first() =~= s.drop_first());
    } else {
        assert(t[0] == s[0]);
        if !key_matches(s[0], guild, channel) {
            assert(t.drop_first() =~= s.drop_first().update(i - 1, r2));
            lemma_record_in_update_frame(s.drop_first(), i - 1, r2, guild, channel);
        }
    }
}

proof fn lemma_record_in_remove_frame(
    s: Seq<QueueRecord>,
    i: int,
    guild: Seq<char>,
    channel: Seq<char>,
)
    requires
        0 <= i < s.len(),
        !key_matches(s[i], guild, channel),
    ensures
        record_in(s.remove(i), guild, channel) == record_in(s, guild, channel),
    decreases i,
{
    let t = s.remove(i);
    if i == 0 {
        assert(t =~= s.drop_first());
    } else {
        assert(t[0] == s[0]);
        if !key_matches(s[0], guild, channel) {
            assert(t.drop_first() =~= s.drop_first().remove(i - 1));
            lemma_record_in_remove_frame(s.drop_first(), i - 1, guild, channel);
        }
    }
}

proof fn lemma_record_in_push_frame(
    s: Seq<QueueRecord>,
    r2: QueueRecord,
    guild: Seq<char>,
    channel: Seq<char>,
)
    requires
        !key_matches(r2, guild, channel),
    ensures
        record_in(s.push(r2), guild, channel) == record_in(s, guild, channel),
    decreases s.len(),
{
    let t = s.push(r2);
    if s.len() == 0 {
        assert(!key_matches(t[0], guild, channel));
        lemma_record_in_none(t.drop_first(), guild, channel);
    } else {
        assert(t[0] == s[0]);
        if !key_matches(s[0], guild, channel) {
            assert(t.drop_first() =~= s.drop_first().push(r2));
            lemma_record_in_push_frame(s.drop_first(), r2, guild, channel);
        }
    }
}

/// Replacing the record of a key pair changes that key's record and no other,
/// and keeps the keys distinct.
proof fn lemma_store_update(
    pre: Seq<QueueRecord>,
    post: Seq<QueueRecord>,
    i: int,
    r2: QueueRecord,
    guild: Seq<char>,
    channel: Seq<char>,
)
    requires
        0 <= i < pre.len(),
        post =~= pre.update(i, r2),
        distinct_keys(pre),
        key_matches(pre[i], guild, channel),
        key_matches(r2, guild, channel),
        forall|k: int| 0 <= k < i ==> !key_matches(#[trigger] pre[k], guild, channel),
    ensures
        distinct_keys(post),
        record_in(post, guild, channel) == Some(model_of(r2)),
        forall|g2: Seq<char>, c2: Seq<char>|
            !(g2 == guild && c2 == channel) ==> #[trigger] record_in(post, g2, c2) == record_in(
                pre,
                g2,
                c2,
            ),
{
    assert forall|a: int, b: int|
        #![trigger post[a], post[b]]
        0 <= a < b < post.len() implies !key_matches(
        post[b],
        post[a].guild_id@,
        post[a].channel_id@,
    ) by {
        assert(post[a].guild_id@ == pre[a].guild_id@ && post[a].channel_id@ == pre[a].channel_id@);
        assert(post[b].guild_id@ == pre[b].guild_id@ && post[b].channel_id@ == pre[b].channel_id@);
        assert(!key_matches(pre[b], pre[a].guild_id@, pre[a].channel_id@));
    }
    lemma_record_in_at(post, guild, channel, i);
    assert forall|g2: Seq<char>, c2: Seq<char>|
        !(g2 == guild && c2 == channel) implies #[trigger] record_in(post, g2, c2) == record_in(
        pre,
        g2,
        c2,
    ) by {
        lemma_record_in_update_frame(pre, i, r2, g2, c2);
    }
}

/// Adding a record under a fresh key pair changes that key's record and no
/// other, and keeps the keys distinct.
proof fn lemma_store_push(
    pre: Seq<QueueRecord>,
    post: Seq<QueueRecord>,
    r2: QueueRecord,
    guild: Seq<char>,
    channel: Seq<char>,
)
    requires
        post =~= pre.push(r2),
        distinct_keys(pre),
        key_matches(r2, guild, channel),
        forall|k: int| 0 <= k < pre.len() ==> !key_matches(#[trigger] pre[k], guild, channel),
    ensures
        distinct_keys(post),
        record_in(post, guild, channel) == Some(model_of(r2)),
        forall|g2: Seq<char>, c2: Seq<char>|
            !(g2 == guild && c2 == channel) ==> #[trigger] record_in(post, g2, c2) == record_in(
                pre,
                g2,
                c2,
            ),
{
    assert forall|a: int, b: int|
        #![trigger post[a], post[b]]
        0 <= a < b < post.len() implies !key_matches(
        post[b],
        post[a].guild_id@,
        post[a].channel_id@,
    ) by {
        if b < pre.len() {
            assert(!key_matches(pre[b], pre[a].guild_id@, pre[a].channel_id@));
        } else {
            assert(post[b] == r2);
            assert(!key_matches(pre[a], guild, channel));
        }
    }
    lemma_record_in_at(post, guild, channel, pre.len() as int);
    assert forall|g2: Seq<char>, c2: Seq<char>|
        !(g2 == guild && c2 == channel) implies #[trigger] record_in(post, g2, c2) == record_in(
        pre,
        g2,
        c2,
    ) by {
        lemma_record_in_push_frame(pre, r2, g2, c2);
    }
}

/// Removing the record of a key pair leaves that key without a record,
/// changes no other key, and keeps the keys distinct.
proof fn lemma_store_remove(
    pre: Seq<QueueRecord>,
    post: Seq<QueueRecord>,
    i: int,
    guild: Seq<char>,
    channel: Seq<char>,
)
    requires
        0 <= i < pre.len(),
        post =~= pre.remove(i),
        distinct_keys(pre),
        key_matches(pre[i], guild, channel),
    ensures
        distinct_keys(post),
        record_in(post, guild, channel) is None,
        forall|g2: Seq<char>, c2: Seq<char>|
            !(g2 == guild && c2 == channel) ==> #[trigger] record_in(post, g2, c2) == record_in(
                pre,
                g2,
                c2,
            ),
{
    assert forall|a: int, b: int|
        #![trigger post[a], post[b]]
        0 <= a < b < post.len() implies !key_matches(
        post[b],
        post[a].guild_id@,
        post[a].channel_id@,
    ) by {
        let a0 = if a < i {
            a
        } else {
            a + 1
        };
        let b0 = if b < i {
            b
        } else {
            b + 1
        };
        assert(post[a] == pre[a0] && post[b] == pre[b0]);
        assert(!key_matches(pre[b0], pre[a0].guild_id@, pre[a0].channel_id@));
    }
    assert forall|k: int| 0 <= k < post.len() implies !key_matches(
        #[trigger] post[k],
        guild,
        channel,
    ) by {
        let k0 = if k < i {
            k
        } else {
            k + 1
        };
        assert(post[k] == pre[k0]);
        if k0 < i {
            assert(!key_matches(pre[i], pre[k0].guild_id@, pre[k0].channel_id@) || !key_matches(
                pre[k0],
                guild,
                channel,
            ));
        }
        if key_matches(pre[k0], guild, channel) {
            if k0 < i {
                assert(key_matches(pre[i], pre[k0].guild_id@, pre[k0].channel_id@));
            } else {
                assert(key_matches(pre[k0], pre[i].guild_id@, pre[i].channel_id@));
            }
        }
    }
    lemma_record_in_none(post, guild, channel);
    assert forall|g2: Seq<char>, c2: Seq<char>|
        !(g2 == guild && c2 == channel) implies #[trigger] record_in(post, g2, c2) == record_in(
        pre,
        g2,
        c2,
    ) by {
        lemma_record_in_remove_frame(pre, i, g2, c2);
    }
}

/// Reads through a missing record see an empty membership list.
pub open spec fn members_of(r: Option<RecordModel>) -> Seq<Seq<char>> {
    match r {
        Some(m) => m.members,
        None => Seq::empty(),
    }
}

/// Reads through a missing record see no message binding.
pub open spec fn message_id_of(r: Option<RecordModel>) -> Option<i64> {
    match r {
        Some(m) => m.message_id,
        None => None,
    }
}

/// Reads through a missing record see no notification binding.
pub open spec fn notification_id_of(r: Option<RecordModel>) -> Option<i64> {
    match r {
        Some(m) => m.notification_id,
        None => None,
    }
}

/// A queue exists exactly when its message binding is present.
pub open spec fn queue_exists_model(r: Option<RecordModel>) -> bool {
    message_id_of(r) is Some
}

/// Appending a member creates the record when absent, as an append to an
/// empty list does in the underlying key layout.
pub open spec fn add_user_model(r: Option<RecordModel>, user: Seq<char>) -> Option<RecordModel> {
    Some(
        RecordModel {
            members: members_of(r).push(user),
            message_id: message_id_of(r),
            notification_id: notification_id_of(r),
        },
    )
}

/// Removing a member drops all of its occurrences; a missing record stays
/// missing.
pub open spec fn remove_user_model(r: Option<RecordModel>, user: Seq<char>) -> Option<
    RecordModel,
> {
    match r {
        Some(m) => Some(
            RecordModel {
                members: m.members.filter(|x: Seq<char>| x != user),
                message_id: m.message_id,
                notification_id: m.notification_id,
            },
        ),
        None => None,
    }
}

/// Setting the message binding creates the record when absent.
pub open spec fn set_message_id_model(r: Option<RecordModel>, message_id: i64) -> Option<
    RecordModel,
> {
    Some(
        RecordModel {
            members: members_of(r),
            message_id: Some(message_id),
            notification_id: notification_id_of(r),
        },
    )
}

/// Setting the notification binding creates the record when absent.
pub open spec fn set_notification_id_model(r: Option<RecordModel>, message_id: i64) -> Option<
    RecordModel,
> {
    Some(
        RecordModel {
            members: members_of(r),
            message_id: message_id_of(r),
            notification_id: Some(message_id),
        },
    )
}

/// Clearing the notification binding of a missing record is a no-op.
pub open spec fn clear_notification_id_model(r: Option<RecordModel>) -> Option<RecordModel> {
    match r {
        Some(m) => Some(
            RecordModel { members: m.members, message_id: m.message_id, notification_id: None },
        ),
        None => None,
    }
}

/// In-memory store of queue records, one per (guild, channel) pair.
pub struct QueueStore {
    entries: Vec<QueueRecord>,
}

impl QueueStore {
    /// No two records share a key pair.
    pub closed spec fn wf(&self) -> bool {
        distinct_keys(self.entries@)
    }

    /// The record stored for the given key pair, if any.
    pub closed spec fn spec_record(&self, guild: Seq<char>, channel: Seq<char>) -> Option<
        RecordModel,
    > {
        record_in(self.entries@, guild, channel)
    }

    /// Every key pair other than the given one reads the same in both stores.
    pub open spec fn preserves_others(
        pre: QueueStore,
        post: QueueStore,
        guild: Seq<char>,
        channel: Seq<char>,
    ) -> bool {
        forall|g2: Seq<char>, c2: Seq<char>|
            !(g2 == guild && c2 == channel) ==> #[trigger] post.spec_record(g2, c2)
                == pre.spec_record(g2, c2)
    }

    /// An empty store: no record under any key pair.
    pub fn new() -> (s: QueueStore)
        ensures
            s.wf(),
            forall|g: Seq<char>, c: Seq<char>| #[trigger] s.spec_record(g, c) is None,
    {
        let s = QueueStore { entries: Vec::new() };
        proof {
            assert forall|g: Seq<char>, c: Seq<char>| #[trigger] s.spec_record(g, c) is None by {
                lemma_record_in_none(s.entries@, g, c);
            }
        }
        s
    }

    /// The index of the record for the key pair, if one is stored.
    fn find_slot(&self, guild_id: &str, channel_id: &str) -> (r: Option<usize>)
        ensures
            match r {
                Some(i) => {
                    &&& i < self.entries@.len()
                    &&& key_matches(self.entries@[i as int], guild_id@, channel_id@)
                    &&& forall|k: int|
                        0 <= k < i ==> !key_matches(
                            #[trigger] self.entries@[k],
                            guild_id@,
                            channel_id@,
                        )
                    &&& self.spec_record(guild_id@, channel_id@) == Some(
                        model_of(self.entries@[i as int]),
                    )
                },
                None => {
                    &&& self.spec_record(guild_id@, channel_id@) is None
                    &&& forall|k: int|
                        0 <= k < self.entries@.len() ==> !key_matches(
                            #[trigger] self.entries@[k],
                            guild_id@,
                            channel_id@,
                        )
                },
            },
    {
        let mut i: usize = 0;
        while i < self.entries.len()
            invariant
                i <= self.entries@.len(),
                forall|k: int|
                    0 <= k < i ==> !key_matches(
                        #[trigger] self.entries@[k],
                        guild_id@,
                        channel_id@,
                    ),
            decreases self.entries@.len() - i,
        {
            let same_guild = str_eq(self.entries[i].guild_id.as_str(), guild_id);
            if same_guild && str_eq(self.entries[i].channel_id.as_str(), channel_id) {
                proof {
                    lemma_record_in_at(self.entries@, guild_id@, channel_id@, i as int);
                }
                return Some(i);
            }
            i = i + 1;
        }
        proof {
            lemma_record_in_none(self.entries@, guild_id@, channel_id@);
        }
        None
    }

    /// Is a queue stored for this key pair? True exactly when the message
    /// binding is present.
    pub fn queue_exists(&self, guild_id: &str, channel_id: &str) -> (r: bool)
        ensures
            r == queue_exists_model(self.spec_record(guild_id@, channel_id@)),
    {
        match self.find_slot(guild_id, channel_id) {
            Some(i) => self.entries[i].message_id.is_some(),
            None => false,
        }
    }

    /// Stores the message binding, creating the record when absent.
    pub fn set_message_id(&mut self, guild_id: &str, channel_id: &str, message_id: i64)
        requires
            old(self).wf(),
        ensures
            final(self).wf(),
            final(self).spec_record(guild_id@, channel_id@) == set_message_id_model(
                old(self).spec_record(guild_id@, channel_id@),
                message_id,
            ),
            QueueStore::preserves_others(*old(self), *final(self), guild_id@, channel_id@),
    {
        match self.find_slot(guild_id, channel_id) {
            Some(i) => {
                let mut rec = self.entries.remove(i);
                rec.message_id = Some(message_id);
                self.entries.insert(i, rec);
                proof {
                    let pre = old(self).entries@;
                    let ghost r2 = self.entries@[i as int];
                    assert(self.entries@ =~= pre.update(i as int, r2));
                    lemma_store_update(pre, self.entries@, i as int, r2, guild_id@, channel_id@);
                    assert(model_of(r2) =~= RecordModel {
                        members: members_of(old(self).spec_record(guild_id@, channel_id@)),
                        message_id: Some(message_id),
                        notification_id: notification_id_of(
                            old(self).spec_record(guild_id@, channel_id@),
                        ),
                    });
                }
            },
            None => {
                let r2 = QueueRecord {
                    guild_id: guild_id.to_owned(),
                    channel_id: channel_id.to_owned(),
                    members: Vec::new(),
                    message_id: Some(message_id),
                    notification_id: None,
                };
                proof {
                    assert(r2.members.deep_view() =~= Seq::<Seq<char>>::empty());
                }
                let ghost pre = self.entries@;
                self.entries.push(r2);
                proof {
                    let ghost r2v = self.entries@[pre.len() as int];
                    assert(self.entries@ =~= pre.push(r2v));
                    lemma_store_push(pre, self.entries@, r2v, guild_id@, channel_id@);
                    assert(model_of(r2v) =~= RecordModel {
                        members: members_of(old(self).spec_record(guild_id@, channel_id@)),
                        message_id: Some(message_id),
                        notification_id: notification_id_of(
                            old(self).spec_record(guild_id@, channel_id@),
                        ),
                    });
                }
            },
        }
    }

    /// Reads the message binding.
    pub fn get_message_id(&self, guild_id: &str, channel_id: &str) -> (r: Option<i64>)
        ensures
            r == message_id_of(self.spec_record(guild_id@, channel_id@)),
    {
        match self.find_slot(guild_id, channel_id) {
            Some(i) => self.entries[i].message_id,
            None => None,
        }
    }

    /// Appends a user to the end of the membership list, creating the record
    /// when absent.
    pub fn add_user(&mut self, guild_id: &str, channel_id: &str, user_id: &str)
        requires
            old(self).wf(),
        ensures
            final(self).wf(),
            final(self).spec_record(guild_id@, channel_id@) == add_user_model(
                old(self).spec_record(guild_id@, channel_id@),
                user_id@,
            ),
            QueueStore::preserves_others(*old(self), *final(self), guild_id@, channel_id@),
    {
        match self.find_slot(guild_id, channel_id) {
            Some(i) => {
                let ghost mpre = old(self).entries@[i as int].members.deep_view();
                let mut rec = self.entries.remove(i);
                rec.members.push(user_id.to_owned());
                self.entries.insert(i, rec);
                proof {
                    let pre = old(self).entries@;
                    let r2 = self.entries@[i as int];
                    assert(self.entries@ =~= pre.update(i as int, r2));
                    lemma_store_update(pre, self.entries@, i as int, r2, guild_id@, channel_id@);
                    assert(r2.members.deep_view() =~= mpre.push(user_id@));
                    assert(model_of(r2) =~= RecordModel {
                        members: members_of(old(self).spec_record(guild_id@, channel_id@)).push(
                            user_id@,
                        ),
                        message_id: message_id_of(old(self).spec_record(guild_id@, channel_id@)),
                        notification_id: notification_id_of(
                            old(self).spec_record(guild_id@, channel_id@),
                        ),
                    });
                }
            },
            None => {
                let mut members: Vec<String> = Vec::new();
                members.push(user_id.to_owned());
                let r2 = QueueRecord {
                    guild_id: guild_id.to_owned(),
                    channel_id: channel_id.to_owned(),
                    members,
                    message_id: None,
                    notification_id: None,
                };
                proof {
                    assert(r2.members.deep_view() =~= Seq::<Seq<char>>::empty().push(user_id@));
                }
                let ghost pre = self.entries@;
                self.entries.push(r2);
                proof {
                    let r2v = self.entries@[pre.len() as int];
                    assert(self.entries@ =~= pre.push(r2v));
                    lemma_store_push(pre, self.entries@, r2v, guild_id@, channel_id@);
                    assert(model_of(r2v) =~= RecordModel {
                        members: members_of(old(self).spec_record(guild_id@, channel_id@)).push(
                            user_id@,
                        ),
                        message_id: message_id_of(old(self).spec_record(guild_id@, channel_id@)),
                        notification_id: notification_id_of(
                            old(self).spec_record(guild_id@, channel_id@),
                        ),
                    });
                }
            },
        }
    }

    /// Removes every occurrence of a user from the membership list; a missing
    /// record stays missing.
    pub fn remove_user(&mut self, guild_id: &str, channel_id: &str, user_id: &str)
        requires
            old(self).wf(),
        ensures
            final(self).wf(),
            final(self).spec_record(guild_id@, channel_id@) == remove_user_model(
                old(self).spec_record(guild_id@, channel_id@),
                user_id@,
            ),
            QueueStore::preserves_others(*old(self), *final(self), guild_id@, channel_id@),
    {
        match self.find_slot(guild_id, channel_id) {
            Some(i) => {
                let mut rec = self.entries.remove(i);
                let ghost mpre = rec.members.deep_view();
                let ghost pred = |x: Seq<char>| x != user_id@;
                let mut kept: Vec<String> = Vec::new();
                let mut k: usize = 0;
                while k < rec.members.len()
                    invariant
                        k <= rec.members@.len(),
                        mpre == rec.members.deep_view(),
                        pred == (|x: Seq<char>| x != user_id@),
                        kept.deep_view() == mpre.take(k as int).filter(pred),
                    decreases rec.members@.len() - k,
                {
                    proof {
                        assert(mpre.take(k + 1).drop_last() =~= mpre.take(k as int));
                        crate::text::lemma_filter_push(
                            mpre.take(k as int),
                            mpre[k as int],
                            pred,
                        );
                        assert(mpre.take(k as int).push(mpre[k as int]) =~= mpre.take(k + 1));
                    }
                    if !str_eq(rec.members[k].as_str(), user_id) {
                        kept.push(rec.members[k].clone());
                        assert(kept.deep_view() =~= mpre.take(k + 1).filter(pred));
                    }
                    k = k + 1;
                }
                proof {
                    assert(mpre.take(rec.members@.len() as int) =~= mpre);
                }
                rec.members = kept;
                self.entries.insert(i, rec);
                proof {
                    let pre = old(self).entries@;
                    let r2 = self.entries@[i as int];
                    assert(self.entries@ =~= pre.update(i as int, r2));
                    lemma_store_update(pre, self.entries@, i as int, r2, guild_id@, channel_id@);
                    assert(model_of(r2) =~= RecordModel {
                        members: members_of(old(self).spec_record(guild_id@, channel_id@)).filter(
                            |x: Seq<char>| x != user_id@,
                        ),
                        message_id: message_id_of(old(self).spec_record(guild_id@, channel_id@)),
                        notification_id: notification_id_of(
                            old(self).spec_record(guild_id@, channel_id@),
                        ),
                    });
                }
            },
            None => {},
        }
    }

    /// Reads the full membership list, in join order.
    pub fn get_users(&self, guild_id: &str, channel_id: &str) -> (r: Vec<String>)
        ensures
            r.deep_view() == members_of(self.spec_record(guild_id@, channel_id@)),
    {
        match self.find_slot(guild_id, channel_id) {
            Some(i) => {
                let n = self.entries[i].members.len();
                let mut r: Vec<String> = Vec::new();
                let mut k: usize = 0;
                while k < n
                    invariant
                        i < self.entries@.len(),
                        n == self.entries@[i as int].members@.len(),
                        k <= n,
                        r@.len() == k,
                        forall|t: int|
                            0 <= t < k ==> r@[t] == self.entries@[i as int].members@[t],
                    decreases n - k,
                {
                    r.push(self.entries[i].members[k].clone());
                    k = k + 1;
                }
                assert(r.deep_view() =~= self.entries@[i as int].members.deep_view());
                r
            },
            None => {
                let r: Vec<String> = Vec::new();
                assert(r.deep_view() =~= Seq::<Seq<char>>::empty());
                r
            },
        }
    }

    /// Is the user in the membership list?
    pub fn contains_user(&self, guild_id: &str, channel_id: &str, user_id: &str) -> (r: bool)
        ensures
            r == members_of(self.spec_record(guild_id@, channel_id@)).contains(user_id@),
    {
        match self.find_slot(guild_id, channel_id) {
            Some(i) => {
                let ghost ms = self.entries@[i as int].members.deep_view();
                let n = self.entries[i].members.len();
                let mut k: usize = 0;
                while k < n
                    invariant
                        i < self.entries@.len(),
                        ms == self.entries@[i as int].members.deep_view(),
                        n == self.entries@[i as int].members@.len(),
                        k <= n,
                        forall|t: int| 0 <= t < k ==> ms[t] != user_id@,
                        self.spec_record(guild_id@, channel_id@) == Some(
                            model_of(self.entries@[i as int]),
                        ),
                    decreases n - k,
                {
                    if str_eq(self.entries[i].members[k].as_str(), user_id) {
                        assert(ms[k as int] == user_id@);
                        assert(ms.contains(user_id@));
                        assert(members_of(self.spec_record(guild_id@, channel_id@)) == ms);
                        return true;
                    }
                    k = k + 1;
                }
                false
            },
            None => false,
        }
    }

    /// Stores the notification binding, creating the record when absent.
    pub fn set_notification_message_id(
        &mut self,
        guild_id: &str,
        channel_id: &str,
        message_id: i64,
    )
        requires
            old(self).wf(),
        ensures
            final(self).wf(),
            final(self).spec_record(guild_id@, channel_id@) == set_notification_id_model(
                old(self).spec_record(guild_id@, channel_id@),
                message_id,
            ),
            QueueStore::preserves_others(*old(self), *final(self), guild_id@, channel_id@),
    {
        match self.find_slot(guild_id, channel_id) {
            Some(i) => {
                let mut rec = self.entries.remove(i);
                rec.notification_id = Some(message_id);
                self.entries.insert(i, rec);
                proof {
                    let pre = old(self).entries@;
                    let r2 = self.entries@[i as int];
                    assert(self.entries@ =~= pre.update(i as int, r2));
                    lemma_store_update(pre, self.entries@, i as int, r2, guild_id@, channel_id@);
                    assert(model_of(r2) =~= RecordModel {
                        members: members_of(old(self).spec_record(guild_id@, channel_id@)),
                        message_id: message_id_of(old(self).spec_record(guild_id@, channel_id@)),
                        notification_id: Some(message_id),
                    });
                }
            },
            None => {
                let r2 = QueueRecord {
                    guild_id: guild_id.to_owned(),
                    channel_id: channel_id.to_owned(),
                    members: Vec::new(),
                    message_id: None,
                    notification_id: Some(message_id),
                };
                proof {
                    assert(r2.members.deep_view() =~= Seq::<Seq<char>>::empty());
                }
                let ghost pre = self.entries@;
                self.entries.push(r2);
                proof {
                    let r2v = self.entries@[pre.len() as int];
                    assert(self.entries@ =~= pre.push(r2v));
                    lemma_store_push(pre, self.entries@, r2v, guild_id@, channel_id@);
                    assert(model_of(r2v) =~= RecordModel {
                        members: members_of(old(self).spec_record(guild_id@, channel_id@)),
                        message_id: message_id_of(old(self).spec_record(guild_id@, channel_id@)),
                        notification_id: Some(message_id),
                    });
                }
            },
        }
    }

    /// Reads the notification binding.
    pub fn get_notification_message_id(&self, guild_id: &str, channel_id: &str) -> (r: Option<
        i64,
    >)
        ensures
            r == notification_id_of(self.spec_record(guild_id@, channel_id@)),
    {
        match self.find_slot(guild_id, channel_id) {
            Some(i) => self.entries[i].notification_id,
            None => None,
        }
    }

    /// Clears the notification binding; clearing a missing record is a no-op.
    pub fn delete_notification_message_id(&mut self, guild_id: &str, channel_id: &str)
        requires
            old(self).wf(),
        ensures
            final(self).wf(),
            final(self).spec_record(guild_id@, channel_id@) == clear_notification_id_model(
                old(self).spec_record(guild_id@, channel_id@),
            ),
            QueueStore::preserves_others(*old(self), *final(self), guild_id@, channel_id@),
    {
        match self.find_slot(guild_id, channel_id) {
            Some(i) => {
                let mut rec = self.entries.remove(i);
                rec.notification_id = None;
                self.entries.insert(i, rec);
                proof {
                    let pre = old(self).entries@;
                    let r2 = self.entries@[i as int];
                    assert(self.entries@ =~= pre.update(i as int, r2));
                    lemma_store_update(pre, self.entries@, i as int, r2, guild_id@, channel_id@);
                    assert(model_of(r2) =~= RecordModel {
                        members: members_of(old(self).spec_record(guild_id@, channel_id@)),
                        message_id: message_id_of(old(self).spec_record(guild_id@, channel_id@)),
                        notification_id: None,
                    });
                }
            },
            None => {},
        }
    }

    /// Deletes the whole record for the key pair: membership list, message
    /// binding and notification binding leave together. Deleting a missing
    /// record succeeds as a no-op.
    pub fn delete_queue(&mut self, guild_id: &str, channel_id: &str)
        requires
            old(self).wf(),
        ensures
            final(self).wf(),
            final(self).spec_record(guild_id@, channel_id@) is None,
            QueueStore::preserves_others(*old(self), *final(self), guild_id@, channel_id@),
    {
        match self.find_slot(guild_id, channel_id) {
            Some(i) => {
                self.entries.remove(i);
                proof {
                    let pre = old(self).entries@;
                    assert(self.entries@ =~= pre.remove(i as int));
                    lemma_store_remove(pre, self.entries@, i as int, guild_id@, channel_id@);
                }
            },
            None => {},
        }
    }
}

/// The key under which the message binding is persisted: the two identifiers
/// joined by a separator.
pub fn message_key(guild_id: &str, channel_id: &str) -> (r: String)
    ensures
        r@ == guild_id@ + "."@ + channel_id@,
{
    let mut r = guild_id.to_owned();
    r.append(".");
    r.append(channel_id);
    r
}

/// Distinct key pairs persist under distinct keys: since the separator is
/// not valid inside a guild identifier, the joined key determines the pair.
pub proof fn lemma_key_collision_free(g1: Seq<char>, c1: Seq<char>, g2: Seq<char>, c2: Seq<char>)
    requires
        forall|i: int| 0 <= i < g1.len() ==> g1[i] != '.',
        forall|i: int| 0 <= i < g2.len() ==> g2[i] != '.',
        !(g1 == g2 && c1 == c2),
    ensures
        g1 + "."@ + c1 != g2 + "."@ + c2,
{
    reveal_strlit(".");
    let k1 = g1 + "."@ + c1;
    let k2 = g2 + "."@ + c2;
    if k1 == k2 {
        assert(k1[g1.len() as int] == '.');
        assert(k2[g2.len() as int] == '.');
        if g1.len() < g2.len() {
            assert(k2[g1.len() as int] == g2[g1.len() as int]);
            assert(false);
        }
        if g2.len() < g1.len() {
            assert(k1[g2.len() as int] == g1[g2.len() as int]);
            assert(false);
        }
        assert(g1.len() == g2.len());
        assert(g1 =~= g2) by {
            assert forall|i: int| 0 <= i < g1.len() implies g1[i] == g2[i] by {
                assert(k1[i] == g1[i] && k2[i] == g2[i]);
            }
        }
        assert(k1.len() == g1.len() + "."@.len() + c1.len());
        assert(k2.len() == g2.len() + "."@.len() + c2.len());
        assert(c1.len() == c2.len());
        assert(c1 =~= c2) by {
            assert forall|i: int| 0 <= i < c1.len() implies c1[i] == c2[i] by {
                assert(k1[g1.len() + 1 + i] == c1[i] && k2[g2.len() + 1 + i] == c2[i]);
            }
        }
        assert(false);
    }
}

/// The key under which the ordered membership list is persisted.
pub fn queue_key(guild_id: &str, channel_id: &str) -> (r: String)
    ensures
        r@ == guild_id@ + "."@ + channel_id@ + ".queue"@,
{
    let mut r = message_key(guild_id, channel_id);
    r.append(".queue");
    r
}

/// The key under which the notification binding is persisted.
pub fn notification_key(guild_id: &str, channel_id: &str) -> (r: String)
    ensures
        r@ == guild_id@ + "."@ + channel_id@ + ".notification"@,
{
    let mut r = message_key(guild_id, channel_id);
    r.append(".notification");
    r
}

} // verus!
