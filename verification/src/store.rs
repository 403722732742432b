//! The membership records and the table that holds them.
//!
//! One record exists per known member, keyed by the member's identity. A member
//! without a record is simply unknown: that state is common, and is never
//! confused with a record whose `is_verified` is false.

use std::collections::HashMap;
use vstd::prelude::*;

verus! {

broadcast use vstd::std_specs::hash::group_hash_axioms;

/// What is persisted about one member.
#[derive(Clone, Copy, Debug, PartialEq, Eq, Structural)]
pub struct Chatter {
    /// The identity issued by the chat service; the primary key.
    pub telegram_id: i64,
    /// Whether the member has passed the challenge. Only ever goes from false to true.
    pub is_verified: bool,
    /// Granted out of band; lets the member pass administrator checks anywhere.
    pub is_global_admin: bool,
}

/// The table after `identity` has been recorded as verified: a fresh record if
/// none existed, otherwise the existing one with its flag raised.
pub open spec fn upsert_verified(rows: Map<i64, Chatter>, identity: i64) -> Map<i64, Chatter> {
    rows.insert(
        identity,
        Chatter {
            telegram_id: identity,
            is_verified: true,
            is_global_admin: rows.contains_key(identity) && rows[identity].is_global_admin,
        },
    )
}

/// The record stored for `identity`, if there is one.
pub open spec fn lookup(rows: Map<i64, Chatter>, identity: i64) -> Option<Chatter> {
    if rows.contains_key(identity) {
        Some(rows[identity])
    } else {
        None
    }
}

/// Whether `identity` still has to prove itself: it has no record, or a record
/// that is not verified.
pub open spec fn is_unverified(rows: Map<i64, Chatter>, identity: i64) -> bool {
    !rows.contains_key(identity) || !rows[identity].is_verified
}

/// Whether every record sits under its own identity.
pub open spec fn keyed_by_identity(rows: Map<i64, Chatter>) -> bool {
    forall|k: i64| #[trigger] rows.contains_key(k) ==> rows[k].telegram_id == k
}

/// The member table: at most one record per identity.
pub struct MemberStore {
    /// The two flags of each known member, under the member's identity.
    rows: HashMap<i64, (bool, bool)>,
}

impl View for MemberStore {
    type V = Map<i64, Chatter>;

    closed spec fn view(&self) -> Map<i64, Chatter> {
        Map::new(
            |k: i64| self.rows@.contains_key(k),
            |k: i64|
                Chatter {
                    telegram_id: k,
                    is_verified: self.rows@[k].0,
                    is_global_admin: self.rows@[k].1,
                },
        )
    }
}

impl MemberStore {
    /// Every record of a table sits under its own identity.
    pub proof fn lemma_keyed_by_identity(&self)
        ensures
            keyed_by_identity(self@),
    {
    }

    /// An empty table: every member is unknown.
    pub fn new() -> (store: MemberStore)
        ensures
            store@ == Map::<i64, Chatter>::empty(),
    {
        let store = MemberStore { rows: HashMap::new() };
        assert(store@ =~= Map::<i64, Chatter>::empty());
        store
    }

    /// Puts `row` into the table as it is, replacing any record of the same identity.
    pub fn insert(&mut self, row: Chatter)
        ensures
            final(self)@ == old(self)@.insert(row.telegram_id, row),
    {
        self.rows.insert(row.telegram_id, (row.is_verified, row.is_global_admin));
        assert(self@ =~= old(self)@.insert(row.telegram_id, row));
    }

    /// Records `identity` as verified, whether or not it was known before.
    ///
    /// Doing so again changes nothing, so concurrent resolutions of one challenge
    /// are harmless.
    pub fn mark_verified(&mut self, identity: i64)
        ensures
            final(self)@ == upsert_verified(old(self)@, identity),
    {
        let is_global_admin: bool = match self.rows.get(&identity) {
            Some(flags) => flags.1,
            None => false,
        };
        self.rows.insert(identity, (true, is_global_admin));
        assert(self@ =~= upsert_verified(old(self)@, identity));
    }

    /// Whether `identity` has a record that grants administrator rights everywhere.
    pub fn is_admin(&self, identity: i64) -> (admin: bool)
        ensures
            admin == (self@.contains_key(identity) && self@[identity].is_global_admin),
    {
        match self.rows.get(&identity) {
            Some(flags) => flags.1,
            None => false,
        }
    }
}

/// Looks up the record of `user_id`. Finding none is an ordinary outcome.
pub fn get_chatter_by_id(user_id: i64, store: &MemberStore) -> (chatter: Option<Chatter>)
    ensures
        chatter == lookup(store@, user_id),
{
    match store.rows.get(&user_id) {
        Some(flags) => Some(
            Chatter { telegram_id: user_id, is_verified: flags.0, is_global_admin: flags.1 },
        ),
        None => None,
    }
}

/// Whether `sender` may act as an administrator.
///
/// A stored record decides by its own flag. Only for an unknown member does the
/// chat's administrator list decide.
pub fn is_chatter_admin(chatter: &Option<Chatter>, sender: i64, administrators: &Vec<i64>) -> (admin:
    bool)
    ensures
        admin == match *chatter {
            Some(row) => row.is_global_admin,
            None => administrators@.contains(sender),
        },
{
    match chatter {
        Some(row) => row.is_global_admin,
        None => {
            let mut i: usize = 0;
            while i < administrators.len()
                invariant
                    *chatter is None,
                    i <= administrators.len(),
                    forall|k: int| 0 <= k < i ==> administrators@[k] != sender,
                decreases administrators.len() - i,
            {
                if administrators[i] == sender {
                    assert(administrators@[i as int] == sender);
                    return true;
                }
                i = i + 1;
            }
            false
        },
    }
}

/// Recording a verification twice leaves the table exactly as recording it once.
pub proof fn lemma_upsert_verified_idempotent(rows: Map<i64, Chatter>, identity: i64)
    ensures
        upsert_verified(upsert_verified(rows, identity), identity) == upsert_verified(
            rows,
            identity,
        ),
        lookup(upsert_verified(rows, identity), identity) matches Some(row) && row.is_verified,
{
    assert(upsert_verified(upsert_verified(rows, identity), identity) =~= upsert_verified(
        rows,
        identity,
    ));
}

/// Recording a verification never takes a verification away, nor anyone's
/// administrator rights, and touches no record but that of `identity`.
pub proof fn lemma_upsert_verified_monotonic(rows: Map<i64, Chatter>, identity: i64, other: i64)
    ensures
        !is_unverified(rows, other) ==> !is_unverified(upsert_verified(rows, identity), other),
        other != identity ==> lookup(upsert_verified(rows, identity), other) == lookup(rows, other),
        keyed_by_identity(rows) ==> keyed_by_identity(upsert_verified(rows, identity)),
{
}

} // verus!
