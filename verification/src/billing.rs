use vstd::prelude::*;
use crate::error::{DomainError, ErrorView};
use crate::user::{BillingEvent, BillingEventView, Tier, User, UserView, unit_view};
use crate::users::{UserRepository, with_subscription};
use crate::stripe::{StripeClient, spec_verify_webhook};

verus! {

/// The tiers a user may ask to buy at checkout.
#[derive(Debug, Clone, Copy, PartialEq, Eq, Structural)]
pub enum TierParam {
    Essential,
    Pro,
}

impl TierParam {
    /// The tier the parameter names.
    pub fn to_tier(self) -> (t: Tier)
        ensures
            t == (match self {
                TierParam::Essential => Tier::Essential,
                TierParam::Pro => Tier::Pro,
            }),
    {
        match self {
            TierParam::Essential => Tier::Essential,
            TierParam::Pro => Tier::Pro,
        }
    }
}

/// The Stripe customer whose portal a user may open; users who never bought
/// anything have none.
pub fn portal_customer(user: &User) -> (r: Result<&str, DomainError>)
    ensures
        match r {
            Ok(c) => user.billing_customer_id.deep_view() == Some(c@),
            Err(e) => user.billing_customer_id is None && e@ == ErrorView::NotFound,
        },
{
    match &user.billing_customer_id {
        Some(c) => Ok(c.as_str()),
        None => Err(DomainError::NotFound),
    }
}

// ── Applying a verified billing event ────────────────────────────────────────

/// Where the handling of a billing event stands between two repository calls.
#[derive(Debug, Clone, Copy, PartialEq, Eq, Structural)]
pub enum WebhookStage {
    /// A subscription update was sent; a `NotFound` answer is ignored when `tolerate_not_found`.
    AwaitingUpdate { tolerate_not_found: bool },
    /// The user of a Stripe customer was asked for; they are then moved to `tier`.
    AwaitingLookup { tier: Tier },
    /// Nothing more to do.
    Done,
}

/// What the caller must do next.
#[derive(Debug)]
pub enum WebhookCommand {
    /// Set the user's tier, and their Stripe customer when one is given.
    UpdateSubscription { user_id: u128, tier: Tier, customer_id: Option<String> },
    /// Find the user whose Stripe customer this is.
    FindByCustomer { customer_id: String },
    /// Answer the webhook: `Ok` is acknowledged with status 200.
    Finish(Result<(), DomainError>),
}

/// Model of a [`WebhookCommand`].
pub enum WebhookCommandView {
    UpdateSubscription { user_id: u128, tier: Tier, customer_id: Option<Seq<char>> },
    FindByCustomer { customer_id: Seq<char> },
    Finish(Result<(), ErrorView>),
}

impl View for WebhookCommand {
    type V = WebhookCommandView;

    open spec fn view(&self) -> WebhookCommandView {
        match self {
            WebhookCommand::UpdateSubscription { user_id, tier, customer_id } =>
                WebhookCommandView::UpdateSubscription { user_id: *user_id, tier: *tier, customer_id: customer_id.deep_view() },
            WebhookCommand::FindByCustomer { customer_id } =>
                WebhookCommandView::FindByCustomer { customer_id: customer_id@ },
            WebhookCommand::Finish(r) => WebhookCommandView::Finish(unit_view(*r)),
        }
    }
}

/// The answer of the repository to the last command.
#[derive(Debug)]
pub enum RepoReply {
    /// The answer to `FindByCustomer`: the id of the user found.
    Found(Result<u128, DomainError>),
    /// The answer to `UpdateSubscription`.
    Updated(Result<(), DomainError>),
}

/// Model of a [`RepoReply`].
pub enum RepoReplyView {
    Found(Result<u128, ErrorView>),
    Updated(Result<(), ErrorView>),
}

impl View for RepoReply {
    type V = RepoReplyView;

    open spec fn view(&self) -> RepoReplyView {
        match self {
            RepoReply::Found(r) => RepoReplyView::Found(match r {
                Ok(id) => Ok(*id),
                Err(e) => Err(e@),
            }),
            RepoReply::Updated(r) => RepoReplyView::Updated(unit_view(*r)),
        }
    }
}

/// The first step of handling an event: checkouts update the user they name
/// (an unknown user is ignored); subscription changes first look up the user of
/// the customer, and a deleted subscription moves them to Free; other events
/// are acknowledged at once.
pub open spec fn spec_webhook_start(ev: BillingEventView) -> (WebhookStage, WebhookCommandView) {
    match ev {
        BillingEventView::CheckoutCompleted { user_id, customer_id, tier } => (
            WebhookStage::AwaitingUpdate { tolerate_not_found: true },
            WebhookCommandView::UpdateSubscription { user_id, tier, customer_id: Some(customer_id) },
        ),
        BillingEventView::SubscriptionUpdated { customer_id, tier } => (
            WebhookStage::AwaitingLookup { tier },
            WebhookCommandView::FindByCustomer { customer_id },
        ),
        BillingEventView::SubscriptionDeleted { customer_id } => (
            WebhookStage::AwaitingLookup { tier: Tier::Free },
            WebhookCommandView::FindByCustomer { customer_id },
        ),
        BillingEventView::Other => (WebhookStage::Done, WebhookCommandView::Finish(Ok(()))),
    }
}

/// The step after a repository answer. An unknown customer is acknowledged; a
/// found user is updated without touching their customer id; a failed update
/// is reported, except `NotFound` where tolerated. An answer that does not fit
/// the stage ends the handling with an internal error.
pub open spec fn spec_webhook_next(stage: WebhookStage, reply: RepoReplyView) -> (WebhookStage, WebhookCommandView) {
    match (stage, reply) {
        (WebhookStage::AwaitingLookup { tier }, RepoReplyView::Found(found)) => match found {
            Ok(user_id) => (
                WebhookStage::AwaitingUpdate { tolerate_not_found: false },
                WebhookCommandView::UpdateSubscription { user_id, tier, customer_id: None },
            ),
            Err(ErrorView::NotFound) => (WebhookStage::Done, WebhookCommandView::Finish(Ok(()))),
            Err(e) => (WebhookStage::Done, WebhookCommandView::Finish(Err(e))),
        },
        (WebhookStage::AwaitingUpdate { tolerate_not_found }, RepoReplyView::Updated(res)) => match res {
            Ok(_) => (WebhookStage::Done, WebhookCommandView::Finish(Ok(()))),
            Err(e) => if tolerate_not_found && e == ErrorView::NotFound {
                (WebhookStage::Done, WebhookCommandView::Finish(Ok(())))
            } else {
                (WebhookStage::Done, WebhookCommandView::Finish(Err(e)))
            },
        },
        _ => (WebhookStage::Done, WebhookCommandView::Finish(Err(ErrorView::Internal("unexpected repository reply"@)))),
    }
}

/// The first step of handling a verified billing event.
pub fn webhook_start(event: BillingEvent) -> (r: (WebhookStage, WebhookCommand))
    ensures
        (r.0, r.1@) == spec_webhook_start(event@),
{
    match event {
        BillingEvent::CheckoutCompleted { user_id, customer_id, tier } => (
            WebhookStage::AwaitingUpdate { tolerate_not_found: true },
            WebhookCommand::UpdateSubscription { user_id, tier, customer_id: Some(customer_id) },
        ),
        BillingEvent::SubscriptionUpdated { customer_id, tier } => (
            WebhookStage::AwaitingLookup { tier },
            WebhookCommand::FindByCustomer { customer_id },
        ),
        BillingEvent::SubscriptionDeleted { customer_id } => (
            WebhookStage::AwaitingLookup { tier: Tier::Free },
            WebhookCommand::FindByCustomer { customer_id },
        ),
        BillingEvent::Other => (WebhookStage::Done, WebhookCommand::Finish(Ok(()))),
    }
}

/// The step after the repository's answer to the last command.
pub fn webhook_next(stage: WebhookStage, reply: RepoReply) -> (r: (WebhookStage, WebhookCommand))
    ensures
        (r.0, r.1@) == spec_webhook_next(stage, reply@),
{
    match (stage, reply) {
        (WebhookStage::AwaitingLookup { tier }, RepoReply::Found(found)) => match found {
            Ok(user_id) => (
                WebhookStage::AwaitingUpdate { tolerate_not_found: false },
                WebhookCommand::UpdateSubscription { user_id, tier, customer_id: None },
            ),
            Err(e) => if e.is_not_found() {
                (WebhookStage::Done, WebhookCommand::Finish(Ok(())))
            } else {
                (WebhookStage::Done, WebhookCommand::Finish(Err(e)))
            },
        },
        (WebhookStage::AwaitingUpdate { tolerate_not_found }, RepoReply::Updated(res)) => match res {
            Ok(_) => (WebhookStage::Done, WebhookCommand::Finish(Ok(()))),
            Err(e) => if tolerate_not_found && e.is_not_found() {
                (WebhookStage::Done, WebhookCommand::Finish(Ok(())))
            } else {
                (WebhookStage::Done, WebhookCommand::Finish(Err(e)))
            },
        },
        _ => (WebhookStage::Done, WebhookCommand::Finish(Err(DomainError::internal("unexpected repository reply")))),
    }
}

/// The answer to an event when every repository call succeeds: each event is
/// handled with at most two calls and acknowledged; a checkout records the
/// customer, an update or deletion does not, and a deletion moves the user to Free.
pub proof fn lemma_webhook_success_path(ev: BillingEventView, user_id: u128)
    ensures
        ({
            let (s1, c1) = spec_webhook_start(ev);
            match ev {
                BillingEventView::CheckoutCompleted { user_id: u, customer_id, tier } => {
                    &&& c1 == WebhookCommandView::UpdateSubscription { user_id: u, tier, customer_id: Some(customer_id) }
                    &&& spec_webhook_next(s1, RepoReplyView::Updated(Ok(()))).1 == WebhookCommandView::Finish(Ok(()))
                },
                BillingEventView::SubscriptionUpdated { customer_id, tier } => {
                    let (s2, c2) = spec_webhook_next(s1, RepoReplyView::Found(Ok(user_id)));
                    &&& c1 == WebhookCommandView::FindByCustomer { customer_id }
                    &&& c2 == WebhookCommandView::UpdateSubscription { user_id, tier, customer_id: None }
                    &&& spec_webhook_next(s2, RepoReplyView::Updated(Ok(()))).1 == WebhookCommandView::Finish(Ok(()))
                },
                BillingEventView::SubscriptionDeleted { customer_id } => {
                    let (s2, c2) = spec_webhook_next(s1, RepoReplyView::Found(Ok(user_id)));
                    &&& c1 == WebhookCommandView::FindByCustomer { customer_id }
                    &&& c2 == WebhookCommandView::UpdateSubscription { user_id, tier: Tier::Free, customer_id: None }
                    &&& spec_webhook_next(s2, RepoReplyView::Updated(Ok(()))).1 == WebhookCommandView::Finish(Ok(()))
                },
                BillingEventView::Other => c1 == WebhookCommandView::Finish(Ok(())),
            }
        }),
{
}

/// Events about an unknown user or customer are acknowledged, not reported, so
/// that Stripe does not retry them: a `NotFound` from the checkout update or
/// from the customer lookup ends the handling with `Ok`.
pub proof fn lemma_unknown_party_acknowledged(ev: BillingEventView)
    requires
        !(ev is Other),
    ensures
        ({
            let (s1, c1) = spec_webhook_start(ev);
            let reply = if ev is CheckoutCompleted {
                RepoReplyView::Updated(Err(ErrorView::NotFound))
            } else {
                RepoReplyView::Found(Err(ErrorView::NotFound))
            };
            spec_webhook_next(s1, reply) == (WebhookStage::Done, WebhookCommandView::Finish(Ok(())))
        }),
{
}

/// After a lookup found the user, a failed update is reported whatever the
/// error, `NotFound` included; and every answer to a stage that awaits one ends
/// the handling or moves to the update, so no handling takes more than two calls.
pub proof fn lemma_webhook_bounded(tier: Tier, reply: RepoReplyView, e: ErrorView)
    ensures
        spec_webhook_next(WebhookStage::AwaitingUpdate { tolerate_not_found: false }, RepoReplyView::Updated(Err(e)))
            == (WebhookStage::Done, WebhookCommandView::Finish(Err(e))),
        spec_webhook_next(WebhookStage::AwaitingLookup { tier }, reply).0 is Done
            || spec_webhook_next(WebhookStage::AwaitingLookup { tier }, reply).0 == (WebhookStage::AwaitingUpdate { tolerate_not_found: false }),
        spec_webhook_next(WebhookStage::AwaitingUpdate { tolerate_not_found: false }, reply).0 is Done,
        spec_webhook_next(WebhookStage::AwaitingUpdate { tolerate_not_found: true }, reply).0 is Done,
{
}

// ── Applying an event to the profiles ────────────────────────────────────────

/// Some stored profile is linked to Stripe customer `customer_id` and was moved to `tier`.
pub open spec fn moved_customer(before: Map<u128, UserView>, after: Map<u128, UserView>, customer_id: Seq<char>, tier: Tier) -> bool {
    exists|user_id: u128| {
        &&& #[trigger] before.contains_key(user_id)
        &&& before[user_id].billing_customer_id == Some(customer_id)
        &&& after == before.insert(user_id, with_subscription(before[user_id], tier, None))
    }
}

/// What applying an event may do to the profiles when it succeeds: a checkout sets the
/// named user's tier and customer, or changes nothing when no such user is stored; a
/// subscription change moves the customer's user to the new tier (`Free` when the
/// subscription is gone), or changes nothing when no user is linked to the customer;
/// any other event changes nothing.
pub open spec fn applied(ev: BillingEventView, before: Map<u128, UserView>, after: Map<u128, UserView>) -> bool {
    match ev {
        BillingEventView::CheckoutCompleted { user_id, customer_id, tier } =>
            if before.contains_key(user_id) {
                after == before.insert(user_id, with_subscription(before[user_id], tier, Some(customer_id)))
            } else {
                after == before
            },
        BillingEventView::SubscriptionUpdated { customer_id, tier } =>
            after == before || moved_customer(before, after, customer_id, tier),
        BillingEventView::SubscriptionDeleted { customer_id } =>
            after == before || moved_customer(before, after, customer_id, Tier::Free),
        BillingEventView::Other => after == before,
    }
}

fn update_step<R: UserRepository>(repo: &mut R, stage: WebhookStage, user_id: u128, tier: Tier, customer_id: Option<String>) -> (r: Result<(), DomainError>)
    requires
        stage is AwaitingUpdate,
    ensures
        r is Ok ==> final(repo).users() == old(repo).users() || (old(repo).users().contains_key(user_id)
            && final(repo).users() == old(repo).users().insert(user_id, with_subscription(old(repo).users()[user_id], tier, customer_id.deep_view()))),
        r is Ok && old(repo).users().contains_key(user_id) ==> final(repo).users() == old(repo).users().insert(user_id, with_subscription(old(repo).users()[user_id], tier, customer_id.deep_view())),
        r is Err ==> final(repo).users() == old(repo).users(),
        stage == (WebhookStage::AwaitingUpdate { tolerate_not_found: true }) && !old(repo).users().contains_key(user_id) ==> r is Ok,
{
    let res = repo.update_subscription(user_id, tier, customer_id);
    let (_, next) = webhook_next(stage, RepoReply::Updated(res));
    match next {
        WebhookCommand::Finish(out) => out,
        _ => Err(DomainError::internal("unexpected repository reply")),
    }
}

/// Applies a verified billing event to the stored profiles, driving the steps of
/// [`webhook_start`] and [`webhook_next`] with the repository's answers.
pub fn apply_billing_event<R: UserRepository>(repo: &mut R, event: BillingEvent) -> (r: Result<(), DomainError>)
    ensures
        r is Ok ==> applied(event@, old(repo).users(), final(repo).users()),
        r is Err ==> final(repo).users() == old(repo).users(),
        event@ is Other ==> r is Ok,
        (event@ matches BillingEventView::CheckoutCompleted { user_id, .. } && !old(repo).users().contains_key(user_id)) ==> r is Ok,
{
    let ghost ev = event@;
    let (stage, command) = webhook_start(event);
    match command {
        WebhookCommand::Finish(out) => out,
        WebhookCommand::UpdateSubscription { user_id, tier, customer_id } => {
            update_step(repo, stage, user_id, tier, customer_id)
        },
        WebhookCommand::FindByCustomer { customer_id } => {
            let found = match repo.find_by_billing_customer_id(customer_id.as_str()) {
                Ok(u) => Ok(u.id),
                Err(e) => Err(e),
            };
            let (stage2, next) = webhook_next(stage, RepoReply::Found(found));
            match next {
                WebhookCommand::Finish(out) => out,
                WebhookCommand::UpdateSubscription { user_id, tier, customer_id: none } => {
                    let ghost before = repo.users();
                    let out = update_step(repo, stage2, user_id, tier, none);
                    proof {
                        if out is Ok && !(repo.users() == before) {
                            assert(before.contains_key(user_id));
                            assert(moved_customer(before, repo.users(), customer_id@, tier));
                        }
                    }
                    out
                },
                _ => Err(DomainError::internal("unexpected repository reply")),
            }
        },
    }
}

/// Handles a Stripe webhook delivery: a delivery without a signature header is
/// unauthorized; a verified event is applied to the stored profiles.
pub fn handle_webhook<R: UserRepository>(repo: &mut R, client: &StripeClient, payload: &[u8], sig_header: Option<&str>) -> (r: Result<(), DomainError>)
    ensures
        sig_header is None ==> (r matches Err(e) && e@ == ErrorView::Unauthorized),
        r is Ok ==> (sig_header matches Some(h) && exists|now: i64|
            #[trigger] spec_verify_webhook(client@, payload@, h@, now) matches Ok(ev)
            && applied(ev, old(repo).users(), final(repo).users())),
        r is Err ==> final(repo).users() == old(repo).users(),
        sig_header matches Some(h) ==> exists|now: i64|
            match #[trigger] spec_verify_webhook(client@, payload@, h@, now) {
                Err(f) => r matches Err(e) && e@ == f,
                Ok(ev) => r is Ok ==> applied(ev, old(repo).users(), final(repo).users()),
            },
{
    let sig = match sig_header {
        Some(s) => s,
        None => return Err(DomainError::Unauthorized),
    };
    let event = match client.verify_webhook(payload, sig) {
        Ok(ev) => ev,
        Err(e) => return Err(e),
    };
    apply_billing_event(repo, event)
}

/// Stripe may deliver an event more than once: setting a tier (and customer) again
/// leaves a profile as the first delivery left it, and a checkout applied to the
/// profiles it already produced changes nothing more.
pub proof fn lemma_redelivery_changes_nothing(
    u: UserView,
    tier: Tier,
    customer_id: Option<Seq<char>>,
    ev: BillingEventView,
    m0: Map<u128, UserView>,
    m1: Map<u128, UserView>,
    m2: Map<u128, UserView>,
)
    requires
        ev is CheckoutCompleted,
        applied(ev, m0, m1),
        applied(ev, m1, m2),
    ensures
        with_subscription(with_subscription(u, tier, customer_id), tier, customer_id) == with_subscription(u, tier, customer_id),
        m2 == m1,
{
    let uid = ev->CheckoutCompleted_user_id;
    if m0.contains_key(uid) {
        assert(m1.contains_key(uid));
        assert(m1[uid] == with_subscription(m0[uid], ev->CheckoutCompleted_tier, Some(ev->CheckoutCompleted_customer_id)));
        assert(m1.insert(uid, with_subscription(m1[uid], ev->CheckoutCompleted_tier, Some(ev->CheckoutCompleted_customer_id))) =~= m1);
    }
}

} // verus!
