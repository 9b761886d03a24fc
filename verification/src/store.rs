use vstd::prelude::*;
use crate::SubscriptionStatus;
use crate::domain::NewSubscriber;
use crate::domain::subscriber_email::valid_email;
use crate::domain::subscriber_name::is_valid_name;

verus! {

/// One row of the `subscriptions` relation.
pub struct SubscriberRow {
    pub id: u128,
    pub email: String,
    pub name: String,
    pub subscribed_at: i64,
    pub status: SubscriptionStatus,
}

/// One row of the `subscription_tokens` relation.
pub struct TokenRow {
    pub subscription_token: String,
    pub subscriber_id: u128,
}

/// Why a save attempt rolled back: the generated subscriber id was already
/// taken, or the generated token was. The caller treats a token collision as
/// retryable with a fresh token; an id collision is a plain storage failure.
#[derive(Clone, Copy, PartialEq, Eq, Structural, Debug)]
pub enum StorageError {
    IdInUse,
    TokenInUse,
}

pub open spec fn has_subscriber_id(subs: Seq<SubscriberRow>, id: u128) -> bool {
    exists|i: int| 0 <= i < subs.len() && (#[trigger] subs[i]).id == id
}

pub open spec fn has_token(toks: Seq<TokenRow>, token: Seq<char>) -> bool {
    exists|i: int| 0 <= i < toks.len() && (#[trigger] toks[i]).subscription_token@ == token
}

/// Exactly one token row references the subscriber id.
pub open spec fn exactly_one_token_for(toks: Seq<TokenRow>, id: u128) -> bool {
    exists|i: int|
        {
            &&& 0 <= i < toks.len()
            &&& (#[trigger] toks[i]).subscriber_id == id
            &&& forall|j: int|
                0 <= j < toks.len() && j != i ==> (#[trigger] toks[j]).subscriber_id != id
        }
}

/// The subscriber with the given identity data is on file.
pub open spec fn has_subscriber_row(
    subs: Seq<SubscriberRow>,
    id: u128,
    email: Seq<char>,
    name: Seq<char>,
    status: SubscriptionStatus,
) -> bool {
    exists|i: int|
        {
            &&& 0 <= i < subs.len()
            &&& (#[trigger] subs[i]).id == id
            &&& subs[i].email@ == email
            &&& subs[i].name@ == name
            &&& subs[i].status == status
        }
}

/// The in-memory model of the durable store: the two relations that the
/// onboarding transaction writes. The model stands in for the database so
/// that the transactional step can be verified; the process that talks to a
/// real database drives the same orchestration with the same decisions.
/// The model's only failures are the two uniqueness violations; a real
/// database can also fail spontaneously (a lost connection, a failed
/// commit), which has no counterpart here and which the driving process
/// maps to the same storage-failure outcome.
pub struct SubscriptionStore {
    subscribers: Vec<SubscriberRow>,
    tokens: Vec<TokenRow>,
}

impl SubscriptionStore {
    pub closed spec fn subscribers(&self) -> Seq<SubscriberRow> {
        self.subscribers@
    }

    pub closed spec fn tokens(&self) -> Seq<TokenRow> {
        self.tokens@
    }

    /// The data-integrity invariant of the store: subscriber ids are unique,
    /// tokens are unique, every token references an existing subscriber, a
    /// pending subscriber has exactly one outstanding token, and no malformed
    /// identity data is on file.
    pub open spec fn wf(&self) -> bool {
        &&& forall|i: int, j: int|
            0 <= i < j < self.subscribers().len()
                ==> (#[trigger] self.subscribers()[i]).id != (#[trigger] self.subscribers()[j]).id
        &&& forall|i: int, j: int|
            0 <= i < j < self.tokens().len()
                ==> (#[trigger] self.tokens()[i]).subscription_token@
                    != (#[trigger] self.tokens()[j]).subscription_token@
        &&& forall|i: int|
            0 <= i < self.tokens().len()
                ==> has_subscriber_id(self.subscribers(), (#[trigger] self.tokens()[i]).subscriber_id)
        &&& forall|i: int|
            0 <= i < self.subscribers().len()
                && (#[trigger] self.subscribers()[i]).status == SubscriptionStatus::PendingConfirmation
                ==> exactly_one_token_for(self.tokens(), self.subscribers()[i].id)
        &&& forall|i: int|
            0 <= i < self.subscribers().len()
                ==> is_valid_name((#[trigger] self.subscribers()[i]).name@)
                    && valid_email(self.subscribers()[i].email@)
    }

    pub fn new() -> (s: SubscriptionStore)
        ensures
            s.subscribers() =~= Seq::<SubscriberRow>::empty(),
            s.tokens() =~= Seq::<TokenRow>::empty(),
            s.wf(),
    {
        SubscriptionStore { subscribers: Vec::new(), tokens: Vec::new() }
    }

    pub fn subscriber_count(&self) -> (n: usize)
        ensures
            n == self.subscribers().len(),
    {
        self.subscribers.len()
    }

    pub fn token_count(&self) -> (n: usize)
        ensures
            n == self.tokens().len(),
    {
        self.tokens.len()
    }

    pub fn subscriber_at(&self, k: usize) -> (r: &SubscriberRow)
        requires
            k < self.subscribers().len(),
        ensures
            *r == self.subscribers()[k as int],
    {
        &self.subscribers[k]
    }

    pub fn token_at(&self, k: usize) -> (r: &TokenRow)
        requires
            k < self.tokens().len(),
        ensures
            *r == self.tokens()[k as int],
    {
        &self.tokens[k]
    }

    fn contains_subscriber_id(&self, id: u128) -> (b: bool)
        ensures
            b == has_subscriber_id(self.subscribers(), id),
    {
        let n = self.subscribers.len();
        let mut found = false;
        for k in 0..n
            invariant
                n == self.subscribers().len(),
                found == (exists|i: int|
                    0 <= i < k && (#[trigger] self.subscribers()[i]).id == id),
        {
            if self.subscribers[k].id == id {
                found = true;
            }
        }
        found
    }

    fn contains_token(&self, token: &str) -> (b: bool)
        ensures
            b == has_token(self.tokens(), token@),
    {
        let n = self.tokens.len();
        let mut found = false;
        for k in 0..n
            invariant
                n == self.tokens().len(),
                found == (exists|i: int|
                    0 <= i < k && (#[trigger] self.tokens()[i]).subscription_token@ == token@),
        {
            if crate::text::str_eq(self.tokens[k].subscription_token.as_str(), token) {
                found = true;
            }
        }
        found
    }

    /// First half of the transaction: insert the subscriber row, in status
    /// `PendingConfirmation`, under the given id. Fails exactly when the id
    /// is already taken, and then leaves the store unchanged.
    pub fn insert_subscriber(
        &mut self,
        id: u128,
        subscribed_at: i64,
        new_subscriber: &NewSubscriber,
    ) -> (r: Result<u128, StorageError>)
        ensures
            match r {
                Ok(rid) => {
                    &&& rid == id
                    &&& !has_subscriber_id(old(self).subscribers(), id)
                    &&& final(self).subscribers().len() == old(self).subscribers().len() + 1
                    &&& final(self).subscribers().drop_last() == old(self).subscribers()
                    &&& final(self).subscribers().last().id == id
                    &&& final(self).subscribers().last().email@ == new_subscriber.email@
                    &&& final(self).subscribers().last().name@ == new_subscriber.name@
                    &&& final(self).subscribers().last().subscribed_at == subscribed_at
                    &&& final(self).subscribers().last().status
                        == SubscriptionStatus::PendingConfirmation
                    &&& final(self).tokens() == old(self).tokens()
                },
                Err(e) => {
                    &&& e == StorageError::IdInUse
                    &&& has_subscriber_id(old(self).subscribers(), id)
                    &&& final(self).subscribers() == old(self).subscribers()
                    &&& final(self).tokens() == old(self).tokens()
                },
            },
    {
        if self.contains_subscriber_id(id) {
            return Err(StorageError::IdInUse);
        }
        let row = SubscriberRow {
            id,
            email: new_subscriber.email.as_ref().to_owned(),
            name: new_subscriber.name.as_ref().to_owned(),
            subscribed_at,
            status: SubscriptionStatus::PendingConfirmation,
        };
        self.subscribers.push(row);
        proof {
            assert(self.subscribers().drop_last() =~= old(self).subscribers());
        }
        Ok(id)
    }

    /// Second half of the transaction: insert the token row bound to the
    /// subscriber id. Fails exactly when the token is already taken, and then
    /// leaves the store unchanged.
    pub fn store_token(&mut self, subscriber_id: u128, subscription_token: &str) -> (r: Result<
        (),
        StorageError,
    >)
        ensures
            match r {
                Ok(()) => {
                    &&& !has_token(old(self).tokens(), subscription_token@)
                    &&& final(self).tokens().len() == old(self).tokens().len() + 1
                    &&& final(self).tokens().drop_last() == old(self).tokens()
                    &&& final(self).tokens().last().subscription_token@ == subscription_token@
                    &&& final(self).tokens().last().subscriber_id == subscriber_id
                    &&& final(self).subscribers() == old(self).subscribers()
                },
                Err(e) => {
                    &&& e == StorageError::TokenInUse
                    &&& has_token(old(self).tokens(), subscription_token@)
                    &&& final(self).subscribers() == old(self).subscribers()
                    &&& final(self).tokens() == old(self).tokens()
                },
            },
    {
        if self.contains_token(subscription_token) {
            return Err(StorageError::TokenInUse);
        }
        let row = TokenRow {
            subscription_token: subscription_token.to_owned(),
            subscriber_id,
        };
        self.tokens.push(row);
        proof {
            assert(self.tokens().drop_last() =~= old(self).tokens());
        }
        Ok(())
    }

    /// The atomic persistence step: insert the subscriber row and its token
    /// row, all or nothing. On any failure the store is exactly as before;
    /// on success both rows are appended, the new subscriber is pending with
    /// exactly one token referencing it, and the invariant is preserved.
    pub fn save(
        &mut self,
        new_subscriber: &NewSubscriber,
        id: u128,
        subscribed_at: i64,
        subscription_token: &str,
    ) -> (r: Result<u128, StorageError>)
        requires
            old(self).wf(),
        ensures
            final(self).wf(),
            r is Ok <==> !has_subscriber_id(old(self).subscribers(), id)
                && !has_token(old(self).tokens(), subscription_token@),
            r == Result::<u128, StorageError>::Err(StorageError::IdInUse)
                <==> has_subscriber_id(old(self).subscribers(), id),
            r == Result::<u128, StorageError>::Err(StorageError::TokenInUse)
                <==> !has_subscriber_id(old(self).subscribers(), id)
                    && has_token(old(self).tokens(), subscription_token@),
            r is Err ==> final(self).subscribers() == old(self).subscribers()
                && final(self).tokens() == old(self).tokens(),
            r matches Ok(rid) ==> {
                &&& rid == id
                &&& final(self).subscribers().len() == old(self).subscribers().len() + 1
                &&& final(self).subscribers().drop_last() == old(self).subscribers()
                &&& final(self).subscribers().last().id == id
                &&& final(self).subscribers().last().email@ == new_subscriber.email@
                &&& final(self).subscribers().last().name@ == new_subscriber.name@
                &&& final(self).subscribers().last().subscribed_at == subscribed_at
                &&& final(self).subscribers().last().status
                    == SubscriptionStatus::PendingConfirmation
                &&& final(self).tokens().len() == old(self).tokens().len() + 1
                &&& final(self).tokens().drop_last() == old(self).tokens()
                &&& final(self).tokens().last().subscription_token@ == subscription_token@
                &&& final(self).tokens().last().subscriber_id == id
                &&& has_subscriber_row(
                    final(self).subscribers(),
                    id,
                    new_subscriber.email@,
                    new_subscriber.name@,
                    SubscriptionStatus::PendingConfirmation,
                )
                &&& exactly_one_token_for(final(self).tokens(), id)
            },
    {
        proof {
            use_type_invariant(&new_subscriber.email);
            use_type_invariant(&new_subscriber.name);
        }
        let id = match self.insert_subscriber(id, subscribed_at, new_subscriber) {
            Ok(rid) => rid,
            Err(e) => { return Err(e); }
        };
        match self.store_token(id, subscription_token) {
            Ok(()) => {}
            Err(e) => {
                // The token insert failed inside the transaction: roll the
                // subscriber insert back so that no partial pair survives.
                let _ = self.subscribers.pop();
                proof {
                    assert(self.subscribers() =~= old(self).subscribers());
                }
                return Err(e);
            }
        }
        proof {
            self.lemma_save_preserves_wf(*old(self), id, subscription_token@);
            let subs = self.subscribers();
            assert(subs[subs.len() - 1].id == id);
            assert(has_subscriber_row(
                subs,
                id,
                new_subscriber.email@,
                new_subscriber.name@,
                SubscriptionStatus::PendingConfirmation,
            ));
        }
        Ok(id)
    }

    /// In a well-formed store, every token row maps to exactly one existing
    /// subscriber row.
    pub proof fn lemma_token_maps_to_one_subscriber(&self, i: int)
        requires
            self.wf(),
            0 <= i < self.tokens().len(),
        ensures
            exists|j: int|
                {
                    &&& 0 <= j < self.subscribers().len()
                    &&& (#[trigger] self.subscribers()[j]).id == self.tokens()[i].subscriber_id
                    &&& forall|k: int|
                        0 <= k < self.subscribers().len() && k != j
                            ==> (#[trigger] self.subscribers()[k]).id
                                != self.tokens()[i].subscriber_id
                },
    {
        let subs = self.subscribers();
        let id = self.tokens()[i].subscriber_id;
        assert(has_subscriber_id(subs, id));
        let j = choose|j: int| 0 <= j < subs.len() && (#[trigger] subs[j]).id == id;
        assert forall|k: int| 0 <= k < subs.len() && k != j implies
            (#[trigger] subs[k]).id != id by {
            if k < j {
                assert(subs[k].id != subs[j].id);
            } else {
                assert(subs[j].id != subs[k].id);
            }
        }
    }

    /// Appending a fresh subscriber row and one token row bound to its fresh
    /// id keeps the store invariant.
    proof fn lemma_save_preserves_wf(&self, prev: SubscriptionStore, id: u128, token: Seq<char>)
        requires
            prev.wf(),
            !has_subscriber_id(prev.subscribers(), id),
            !has_token(prev.tokens(), token),
            self.subscribers().len() == prev.subscribers().len() + 1,
            self.subscribers().drop_last() == prev.subscribers(),
            self.subscribers().last().id == id,
            self.subscribers().last().status == SubscriptionStatus::PendingConfirmation,
            is_valid_name(self.subscribers().last().name@),
            valid_email(self.subscribers().last().email@),
            self.tokens().len() == prev.tokens().len() + 1,
            self.tokens().drop_last() == prev.tokens(),
            self.tokens().last().subscription_token@ == token,
            self.tokens().last().subscriber_id == id,
        ensures
            self.wf(),
            exactly_one_token_for(self.tokens(), id),
    {
        let subs = self.subscribers();
        let toks = self.tokens();
        let psubs = prev.subscribers();
        let ptoks = prev.tokens();
        let sn = psubs.len() as int;
        let tn = ptoks.len() as int;
        assert(forall|i: int| 0 <= i < sn ==> subs[i] == #[trigger] psubs[i]);
        assert(forall|i: int| 0 <= i < tn ==> toks[i] == #[trigger] ptoks[i]);

        // Unique subscriber ids.
        assert forall|i: int, j: int| 0 <= i < j < subs.len() implies
            (#[trigger] subs[i]).id != (#[trigger] subs[j]).id by {
            if j < sn {
                assert(psubs[i].id != psubs[j].id);
            } else {
                // subs[j] is the new row; its id is fresh.
                if subs[i].id == id {
                    assert(has_subscriber_id(psubs, id));
                }
            }
        }
        // Unique tokens.
        assert forall|i: int, j: int| 0 <= i < j < toks.len() implies
            (#[trigger] toks[i]).subscription_token@ != (#[trigger] toks[j]).subscription_token@ by {
            if j < tn {
                assert(ptoks[i].subscription_token@ != ptoks[j].subscription_token@);
            } else {
                if toks[i].subscription_token@ == token {
                    assert(ptoks[i] == toks.drop_last()[i]);
                    assert(ptoks[i].subscription_token@ == token);
                    assert(has_token(ptoks, token));
                }
            }
        }
        // Every token references a subscriber on file.
        assert forall|i: int| 0 <= i < toks.len() implies
            has_subscriber_id(subs, (#[trigger] toks[i]).subscriber_id) by {
            if i < tn {
                let w = choose|w: int| 0 <= w < sn && (#[trigger] psubs[w]).id == ptoks[i].subscriber_id;
                assert(subs[w].id == toks[i].subscriber_id);
            } else {
                assert(subs[sn].id == id);
            }
        }
        // No old token references the fresh id.
        assert forall|i: int| 0 <= i < tn implies (#[trigger] toks[i]).subscriber_id != id by {
            if ptoks[i].subscriber_id == id {
                assert(has_subscriber_id(psubs, id));
            }
        }
        // Pending subscribers hold exactly one token.
        assert forall|i: int|
            0 <= i < subs.len()
                && (#[trigger] subs[i]).status == SubscriptionStatus::PendingConfirmation implies
            exactly_one_token_for(toks, subs[i].id) by {
            if i < sn {
                let w = choose|w: int|
                    {
                        &&& 0 <= w < tn
                        &&& (#[trigger] ptoks[w]).subscriber_id == psubs[i].id
                        &&& forall|j: int|
                            0 <= j < tn && j != w ==> (#[trigger] ptoks[j]).subscriber_id != psubs[i].id
                    };
                assert(toks[w].subscriber_id == subs[i].id);
                assert(subs[i].id != id);
                assert forall|j: int| 0 <= j < toks.len() && j != w implies
                    (#[trigger] toks[j]).subscriber_id != subs[i].id by {
                    if j < tn {
                        assert(ptoks[j].subscriber_id != psubs[i].id);
                    }
                }
            } else {
                assert(toks[tn].subscriber_id == id);
                assert forall|j: int| 0 <= j < toks.len() && j != tn implies
                    (#[trigger] toks[j]).subscriber_id != id by {}
            }
        }
        assert(exactly_one_token_for(toks, id)) by {
            assert(toks[tn].subscriber_id == id);
            assert(forall|j: int|
                0 <= j < toks.len() && j != tn ==> (#[trigger] toks[j]).subscriber_id != id);
        }
        // Identity data on file stays valid.
        assert forall|i: int| 0 <= i < subs.len() implies
            is_valid_name((#[trigger] subs[i]).name@) && valid_email(subs[i].email@) by {
            if i < sn {
                assert(is_valid_name(psubs[i].name@) && valid_email(psubs[i].email@));
            }
        }
    }
}

} // verus!
