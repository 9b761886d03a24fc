use vstd::prelude::*;
use crate::SubscriptionStatus;
use crate::domain::NewSubscriber;
use crate::domain::subscriber_email::{SubscriberEmail, valid_email};
use crate::domain::subscriber_name::{SubscriberName, is_valid_name};
use crate::store::{StorageError, SubscriptionStore, exactly_one_token_for};
use crate::token::{generate_subscription_token, is_token};

verus! {

/// The raw fields of a submission form, before any validation.
#[derive(Debug)]
pub struct FormData {
    pub email: String,
    pub name: String,
}

/// A submission is acceptable when both of its fields pass validation.
pub open spec fn valid_form(email: Seq<char>, name: Seq<char>) -> bool {
    is_valid_name(name) && valid_email(email)
}

impl NewSubscriber {
    /// Validation of a submission: the name is checked first, then the email,
    /// and the first failure is returned. Succeeds exactly on valid forms.
    pub fn try_from(value: FormData) -> (r: Result<NewSubscriber, String>)
        ensures
            match r {
                Ok(ns) => {
                    &&& valid_form(value.email@, value.name@)
                    &&& ns.name@ == value.name@
                    &&& ns.email@ == value.email@
                },
                Err(_) => !valid_form(value.email@, value.name@),
            },
            !is_valid_name(value.name@) ==> (r matches Err(m)
                && m@ == value.name@ + " is not a valid subscriber name. "@),
            is_valid_name(value.name@) && !valid_email(value.email@) ==> (r matches Err(m)
                && m@ == value.email@ + " is not a valid subscriber email."@),
    {
        let name = match SubscriberName::parse(value.name) {
            Ok(name) => name,
            Err(e) => { return Err(e); }
        };
        let email = match SubscriberEmail::parse(value.email) {
            Ok(email) => email,
            Err(e) => { return Err(e); }
        };
        Ok(NewSubscriber { email, name })
    }
}

/// Failure of the outbound email call.
#[derive(Clone, Copy, PartialEq, Eq, Structural, Debug)]
pub enum DispatchError {
    SendFailed,
}

/// One email handed to the dispatcher, as the model outbox records it.
pub struct SentEmail {
    pub recipient: String,
    pub subject: String,
    pub plain_body: String,
    pub html_body: String,
}

/// The model of the email dispatcher boundary. It records every accepted
/// send in `sent`; `available` models whether the outbound call succeeds,
/// which is the only signal the orchestrator observes.
pub struct EmailClient {
    pub sent: Vec<SentEmail>,
    pub available: bool,
}

pub open spec fn confirmation_link_of(base_url: Seq<char>, token: Seq<char>) -> Seq<char> {
    base_url + "/subscriptions/confirm?subscription_token="@ + token
}

pub open spec fn plain_body_of(link: Seq<char>) -> Seq<char> {
    "Welcome to our newsletter!\nVisit "@ + link + " to confirm your subscription."@
}

pub open spec fn html_body_of(link: Seq<char>) -> Seq<char> {
    "Welcome to our newsletter! <br/>Click <a href=\""@ + link
        + "\">here</a> to confirm your subscription. "@
}

/// The email that confirms a subscription: addressed to the subscriber and
/// carrying the confirmation link for the given token in both bodies.
pub open spec fn is_confirmation_email(
    e: SentEmail,
    recipient: Seq<char>,
    base_url: Seq<char>,
    token: Seq<char>,
) -> bool {
    &&& e.recipient@ == recipient
    &&& e.subject@ == "Welcome!"@
    &&& e.plain_body@ == plain_body_of(confirmation_link_of(base_url, token))
    &&& e.html_body@ == html_body_of(confirmation_link_of(base_url, token))
}

impl EmailClient {
    pub fn new() -> (c: EmailClient)
        ensures
            c.sent@ =~= Seq::<SentEmail>::empty(),
            c.available,
    {
        EmailClient { sent: Vec::new(), available: true }
    }

    /// The dispatcher boundary: either the call goes through and the email is
    /// recorded, or it fails and nothing is recorded.
    pub fn send_email(
        &mut self,
        recipient: &SubscriberEmail,
        subject: &str,
        plain_body: &str,
        html_body: &str,
    ) -> (r: Result<(), DispatchError>)
        ensures
            final(self).available == old(self).available,
            r is Ok <==> old(self).available,
            old(self).available ==> {
                &&& final(self).sent@.len() == old(self).sent@.len() + 1
                &&& final(self).sent@.drop_last() == old(self).sent@
                &&& final(self).sent@.last().recipient@ == recipient@
                &&& final(self).sent@.last().subject@ == subject@
                &&& final(self).sent@.last().plain_body@ == plain_body@
                &&& final(self).sent@.last().html_body@ == html_body@
            },
            !old(self).available ==> final(self).sent@ == old(self).sent@,
    {
        if !self.available {
            return Err(DispatchError::SendFailed);
        }
        let e = SentEmail {
            recipient: recipient.as_ref().to_owned(),
            subject: subject.to_owned(),
            plain_body: plain_body.to_owned(),
            html_body: html_body.to_owned(),
        };
        self.sent.push(e);
        proof {
            assert(self.sent@.drop_last() =~= old(self).sent@);
        }
        Ok(())
    }
}

/// Builds `{base_url}/subscriptions/confirm?subscription_token={token}`.
pub fn build_confirmation_link(base_url: &str, subscription_token: &str) -> (link: String)
    ensures
        link@ == confirmation_link_of(base_url@, subscription_token@),
{
    let mut link = base_url.to_owned();
    link.push_str("/subscriptions/confirm?subscription_token=");
    link.push_str(subscription_token);
    proof {
        assert(link@ =~= confirmation_link_of(base_url@, subscription_token@));
    }
    link
}

/// Builds the confirmation email bodies and hands them to the dispatcher.
pub fn send_confirmation_email(
    email_client: &mut EmailClient,
    new_subscriber: &NewSubscriber,
    base_url: &str,
    subscription_token: &str,
) -> (r: Result<(), DispatchError>)
    ensures
        final(email_client).available == old(email_client).available,
        r is Ok <==> old(email_client).available,
        old(email_client).available ==> {
            &&& final(email_client).sent@.len() == old(email_client).sent@.len() + 1
            &&& final(email_client).sent@.drop_last() == old(email_client).sent@
            &&& is_confirmation_email(
                final(email_client).sent@.last(),
                new_subscriber.email@,
                base_url@,
                subscription_token@,
            )
        },
        !old(email_client).available ==> final(email_client).sent@ == old(email_client).sent@,
{
    let confirmation_link = build_confirmation_link(base_url, subscription_token);
    let mut plain_body = "Welcome to our newsletter!\nVisit ".to_owned();
    plain_body.push_str(confirmation_link.as_str());
    plain_body.push_str(" to confirm your subscription.");
    let mut html_body = "Welcome to our newsletter! <br/>Click <a href=\"".to_owned();
    html_body.push_str(confirmation_link.as_str());
    html_body.push_str("\">here</a> to confirm your subscription. ");
    proof {
        assert(plain_body@ =~= plain_body_of(confirmation_link_of(base_url@, subscription_token@)));
        assert(html_body@ =~= html_body_of(confirmation_link_of(base_url@, subscription_token@)));
    }
    email_client.send_email(
        &new_subscriber.email,
        "Welcome!",
        plain_body.as_str(),
        html_body.as_str(),
    )
}

/// Relies on `uuid::Uuid::new_v4`: a freshly generated random id. Nothing is
/// assumed of the value; an id collision is handled by the storage step.
#[verifier::external_body]
fn fresh_subscriber_id() -> (id: u128)
{
    uuid::Uuid::new_v4().as_u128()
}

/// Relies on `chrono::Utc::now`: the submission instant as a Unix timestamp.
/// Nothing is assumed of the value; it depends on the clock.
#[verifier::external_body]
fn current_timestamp() -> (t: i64)
{
    chrono::Utc::now().timestamp()
}

/// Terminal states of one onboarding run.
#[derive(Clone, Copy, PartialEq, Eq, Structural, Debug)]
pub enum SubscribeOutcome {
    /// Validation, persistence and dispatch all succeeded.
    Accepted,
    /// The submission failed validation; nothing was touched.
    Rejected,
    /// Every persistence attempt rolled back; nothing is on file.
    FailedStorage,
    /// The pair was durably persisted but the confirmation email was not sent.
    FailedDispatch,
}

/// The HTTP status each terminal state maps to.
pub fn http_status(outcome: SubscribeOutcome) -> (code: u16)
    ensures
        code == 200 <==> outcome == SubscribeOutcome::Accepted,
        code == 400 <==> outcome == SubscribeOutcome::Rejected,
        code == 500 <==> (outcome == SubscribeOutcome::FailedStorage
            || outcome == SubscribeOutcome::FailedDispatch),
{
    match outcome {
        SubscribeOutcome::Accepted => 200,
        SubscribeOutcome::Rejected => 400,
        SubscribeOutcome::FailedStorage => 500,
        SubscribeOutcome::FailedDispatch => 500,
    }
}

/// The effect of one committed onboarding transaction: exactly one subscriber
/// row, pending confirmation, and exactly one token row bound to it were
/// appended; nothing else moved.
pub open spec fn persisted_pair(
    prev: SubscriptionStore,
    cur: SubscriptionStore,
    email: Seq<char>,
    name: Seq<char>,
    id: u128,
    token: Seq<char>,
) -> bool {
    &&& cur.subscribers().len() == prev.subscribers().len() + 1
    &&& cur.subscribers().drop_last() == prev.subscribers()
    &&& cur.subscribers().last().id == id
    &&& cur.subscribers().last().email@ == email
    &&& cur.subscribers().last().name@ == name
    &&& cur.subscribers().last().status == SubscriptionStatus::PendingConfirmation
    &&& cur.tokens().len() == prev.tokens().len() + 1
    &&& cur.tokens().drop_last() == prev.tokens()
    &&& cur.tokens().last().subscription_token@ == token
    &&& cur.tokens().last().subscriber_id == id
    &&& exactly_one_token_for(cur.tokens(), id)
}

/// One onboarding run: validate, persist subscriber and token atomically
/// (retrying a bounded number of times on a token collision), then dispatch
/// the confirmation email. Failures after the commit do not unwind it.
pub fn subscribe(
    store: &mut SubscriptionStore,
    email_client: &mut EmailClient,
    base_url: &str,
    form: FormData,
    max_token_retries: u32,
) -> (r: SubscribeOutcome)
    requires
        old(store).wf(),
    ensures
        final(store).wf(),
        final(email_client).available == old(email_client).available,
        r is Rejected <==> !valid_form(form.email@, form.name@),
        r is Rejected || r is FailedStorage ==> final(store).subscribers()
            == old(store).subscribers() && final(store).tokens() == old(store).tokens()
            && final(email_client).sent@ == old(email_client).sent@,
        r is Accepted ==> old(email_client).available,
        r is FailedDispatch ==> !old(email_client).available
            && final(email_client).sent@ == old(email_client).sent@,
        r is Accepted || r is FailedDispatch ==> exists|id: u128, token: Seq<char>|
            {
                &&& is_token(token)
                &&& #[trigger] persisted_pair(
                    *old(store),
                    *final(store),
                    form.email@,
                    form.name@,
                    id,
                    token,
                )
                &&& (r is Accepted ==> {
                    &&& final(email_client).sent@.len() == old(email_client).sent@.len() + 1
                    &&& final(email_client).sent@.drop_last() == old(email_client).sent@
                    &&& is_confirmation_email(
                        final(email_client).sent@.last(),
                        form.email@,
                        base_url@,
                        token,
                    )
                })
            },
        valid_form(form.email@, form.name@) && old(email_client).available
            ==> r is Accepted || r is FailedStorage,
        valid_form(form.email@, form.name@) && !old(email_client).available
            ==> r is FailedDispatch || r is FailedStorage,
        // Success is owed where no collision is possible: on an empty store
        // the first save attempt commits, whatever ids and tokens were drawn.
        old(store).subscribers().len() == 0 && old(store).tokens().len() == 0
            && valid_form(form.email@, form.name@) ==> !(r is FailedStorage),
{
    let new_subscriber = match NewSubscriber::try_from(form) {
        Ok(ns) => ns,
        Err(_) => { return SubscribeOutcome::Rejected; }
    };
    let mut retries_left: u32 = max_token_retries;
    loop
        invariant
            store.wf(),
            store.subscribers() == old(store).subscribers(),
            store.tokens() == old(store).tokens(),
            email_client.sent@ == old(email_client).sent@,
            email_client.available == old(email_client).available,
            valid_form(form.email@, form.name@),
            new_subscriber.email@ == form.email@,
            new_subscriber.name@ == form.name@,
        decreases retries_left,
    {
        let id = fresh_subscriber_id();
        let now = current_timestamp();
        let subscription_token = generate_subscription_token();
        match store.save(&new_subscriber, id, now, subscription_token.as_str()) {
            Ok(subscriber_id) => {
                let sent = send_confirmation_email(
                    email_client,
                    &new_subscriber,
                    base_url,
                    subscription_token.as_str(),
                );
                proof {
                    assert(persisted_pair(
                        *old(store),
                        *store,
                        form.email@,
                        form.name@,
                        subscriber_id,
                        subscription_token@,
                    ));
                }
                match sent {
                    Ok(()) => { return SubscribeOutcome::Accepted; }
                    Err(_) => { return SubscribeOutcome::FailedDispatch; }
                }
            }
            Err(StorageError::TokenInUse) => {
                // Retryable: a fresh token is drawn on the next attempt.
                if retries_left == 0 {
                    return SubscribeOutcome::FailedStorage;
                }
                retries_left = retries_left - 1;
            }
            Err(StorageError::IdInUse) => {
                // Not a token collision: surfaced as a storage failure.
                return SubscribeOutcome::FailedStorage;
            }
        }
    }
}

/// The full submission endpoint on the model: read the URL-encoded body,
/// then run one onboarding pass, and answer with the HTTP status code alone,
/// as the caller sees it. A body that cannot be read is rejected before
/// anything else runs.
pub fn handle_submission(
    store: &mut SubscriptionStore,
    email_client: &mut EmailClient,
    base_url: &str,
    body: &str,
    max_token_retries: u32,
) -> (code: u16)
    requires
        old(store).wf(),
    ensures
        final(store).wf(),
        final(email_client).available == old(email_client).available,
        code == 200 || code == 400 || code == 500,
        code == 400 ==> final(store).subscribers() == old(store).subscribers()
            && final(store).tokens() == old(store).tokens()
            && final(email_client).sent@ == old(email_client).sent@,
        crate::form::spec_parse_form(vstd::utf8::encode_utf8(body@)) is Err ==> code == 400,
        code == 400 ==> ({
            let p = crate::form::spec_parse_form(vstd::utf8::encode_utf8(body@));
            ||| p is Err
            ||| (p matches Ok(q) && !(vstd::utf8::valid_utf8(q.0) && vstd::utf8::valid_utf8(q.1)))
            ||| (p matches Ok(q) && exists|em: Seq<char>, nm: Seq<char>|
                {
                    &&& vstd::utf8::encode_utf8(em) == q.0
                    &&& vstd::utf8::encode_utf8(nm) == q.1
                    &&& !#[trigger] valid_form(em, nm)
                })
        }),
        ({
            let p = crate::form::spec_parse_form(vstd::utf8::encode_utf8(body@));
            p matches Ok(q) && exists|em: Seq<char>, nm: Seq<char>|
                {
                    &&& vstd::utf8::encode_utf8(em) == q.0
                    &&& vstd::utf8::encode_utf8(nm) == q.1
                    &&& !#[trigger] valid_form(em, nm)
                }
        }) ==> code == 400,
        ({
            let p = crate::form::spec_parse_form(vstd::utf8::encode_utf8(body@));
            p matches Ok(q) && old(email_client).available && exists|em: Seq<char>, nm: Seq<char>|
                {
                    &&& vstd::utf8::encode_utf8(em) == q.0
                    &&& vstd::utf8::encode_utf8(nm) == q.1
                    &&& #[trigger] valid_form(em, nm)
                }
        }) ==> (code == 200 || (code == 500 && final(store).subscribers()
            == old(store).subscribers() && final(store).tokens() == old(store).tokens())),
        // Success is owed on an empty store: a body that parses to a valid
        // form is accepted whenever the dispatcher is available, since no
        // drawn id or token can collide with anything on file.
        ({
            let p = crate::form::spec_parse_form(vstd::utf8::encode_utf8(body@));
            p matches Ok(q) && exists|em: Seq<char>, nm: Seq<char>|
                {
                    &&& vstd::utf8::encode_utf8(em) == q.0
                    &&& vstd::utf8::encode_utf8(nm) == q.1
                    &&& #[trigger] valid_form(em, nm)
                }
        }) && old(store).subscribers().len() == 0 && old(store).tokens().len() == 0
            && old(email_client).available ==> code == 200,
        code == 200 ==> old(email_client).available,
        code == 200 ==> ({
            let p = crate::form::spec_parse_form(vstd::utf8::encode_utf8(body@));
            p matches Ok(q) && exists|em: Seq<char>, nm: Seq<char>|
                {
                    &&& vstd::utf8::encode_utf8(em) == q.0
                    &&& vstd::utf8::encode_utf8(nm) == q.1
                    &&& #[trigger] valid_form(em, nm)
                    &&& exists|id: u128, token: Seq<char>|
                        {
                            &&& is_token(token)
                            &&& #[trigger] persisted_pair(
                                *old(store),
                                *final(store),
                                em,
                                nm,
                                id,
                                token,
                            )
                            &&& final(email_client).sent@.len()
                                == old(email_client).sent@.len() + 1
                            &&& final(email_client).sent@.drop_last() == old(email_client).sent@
                            &&& is_confirmation_email(
                                final(email_client).sent@.last(),
                                em,
                                base_url@,
                                token,
                            )
                        }
                }
        }),
        code == 500 ==> final(email_client).sent@ == old(email_client).sent@
            && ((final(store).subscribers() == old(store).subscribers()
                && final(store).tokens() == old(store).tokens())
            || (!old(email_client).available && ({
                let p = crate::form::spec_parse_form(vstd::utf8::encode_utf8(body@));
                p matches Ok(q) && exists|em: Seq<char>, nm: Seq<char>|
                    {
                        &&& vstd::utf8::encode_utf8(em) == q.0
                        &&& vstd::utf8::encode_utf8(nm) == q.1
                        &&& #[trigger] valid_form(em, nm)
                        &&& exists|id: u128, token: Seq<char>|
                            {
                                &&& is_token(token)
                                &&& #[trigger] persisted_pair(
                                    *old(store),
                                    *final(store),
                                    em,
                                    nm,
                                    id,
                                    token,
                                )
                            }
                    }
            }))),
{
    let form = match crate::form::parse_form_data(body) {
        Ok(form) => form,
        Err(_) => {
            proof {
                // A field that is the encoding of some character sequence is
                // valid UTF-8, so a decoding failure leaves no such pair.
                broadcast use vstd::utf8::encode_utf8_valid_utf8;
            }
            return 400;
        }
    };
    let ghost em = form.email@;
    let ghost nm = form.name@;
    proof {
        // The encoding of a character sequence determines it, so any pair
        // that encodes to the parsed fields is the pair decoded here.
        assert forall|em2: Seq<char>, nm2: Seq<char>|
            vstd::utf8::encode_utf8(em2) == vstd::utf8::encode_utf8(em)
                && vstd::utf8::encode_utf8(nm2) == vstd::utf8::encode_utf8(nm)
            implies em2 == em && nm2 == nm by {
            vstd::utf8::encode_utf8_decode_utf8(em2);
            vstd::utf8::encode_utf8_decode_utf8(em);
            vstd::utf8::encode_utf8_decode_utf8(nm2);
            vstd::utf8::encode_utf8_decode_utf8(nm);
        }
    }
    let outcome = subscribe(store, email_client, base_url, form, max_token_retries);
    http_status(outcome)
}

} // verus!
