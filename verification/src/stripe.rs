use vstd::prelude::*;
use hmac::Mac;
use subtle::ConstantTimeEq;
use vstd::string::*;
use vstd::utf8::{encode_utf8, valid_utf8};
use crate::error::{DomainError, ErrorView, result_view};
use crate::json::{
    JsonValue, JsonView, json_field, json_index, json_str, json_str_or_empty, json_bool, json_parse,
    ref_view, parse_json, field_of, element_of, str_of, str_or_empty, bool_of,
};
use crate::text::{str_eq, chars_of, join2, copy_str};
use crate::user::{Tier, BillingEvent, BillingEventView};

verus! {

/// Webhooks whose timestamp deviates from the current time by more than this
/// many seconds are rejected, so that replayed payloads are not accepted indefinitely.
pub const WEBHOOK_TIMESTAMP_TOLERANCE_SECS: i64 = 300;

/// The Stripe account settings the billing rules work with.
pub struct StripeClient {
    pub secret_key: String,
    pub webhook_secret: String,
    pub essential_price_id: String,
    pub pro_price_id: String,
    pub success_url: String,
    pub cancel_url: String,
    pub portal_return_url: String,
}

/// Model of a [`StripeClient`].
pub struct StripeClientView {
    pub secret_key: Seq<char>,
    pub webhook_secret: Seq<char>,
    pub essential_price_id: Seq<char>,
    pub pro_price_id: Seq<char>,
    pub success_url: Seq<char>,
    pub cancel_url: Seq<char>,
    pub portal_return_url: Seq<char>,
}

impl View for StripeClient {
    type V = StripeClientView;

    open spec fn view(&self) -> StripeClientView {
        StripeClientView {
            secret_key: self.secret_key@,
            webhook_secret: self.webhook_secret@,
            essential_price_id: self.essential_price_id@,
            pro_price_id: self.pro_price_id@,
            success_url: self.success_url@,
            cancel_url: self.cancel_url@,
            portal_return_url: self.portal_return_url@,
        }
    }
}

// ── Tiers and prices ─────────────────────────────────────────────────────────

/// The price a tier is sold at; only Essential and Pro are sold self-serve.
pub open spec fn spec_price_id_for_tier(c: StripeClientView, tier: Tier) -> Option<Seq<char>> {
    match tier {
        Tier::Essential => Some(c.essential_price_id),
        Tier::Pro => Some(c.pro_price_id),
        _ => None,
    }
}

/// The tier a price buys.
pub open spec fn spec_price_id_to_tier(c: StripeClientView, price_id: Seq<char>) -> Option<Tier> {
    if price_id == c.essential_price_id {
        Some(Tier::Essential)
    } else if price_id == c.pro_price_id {
        Some(Tier::Pro)
    } else {
        None
    }
}

/// Whether a tier can be bought through checkout.
pub open spec fn self_serve(tier: Tier) -> bool {
    tier == Tier::Essential || tier == Tier::Pro
}

/// The name under which a self-serve tier is recorded in session metadata.
pub open spec fn spec_metadata_name(tier: Tier) -> Seq<char> {
    if tier == Tier::Essential { "essential"@ } else { "pro"@ }
}

/// The tier recorded in session metadata under `name`.
pub open spec fn spec_tier_from_metadata_name(name: Seq<char>) -> Result<Tier, ErrorView> {
    if name == "essential"@ {
        Ok(Tier::Essential)
    } else if name == "pro"@ {
        Ok(Tier::Pro)
    } else {
        Err(ErrorView::InvalidInput("unknown tier in metadata: "@ + name))
    }
}

/// The model of a tier result.
pub open spec fn tier_result_view(r: Result<Tier, DomainError>) -> Result<Tier, ErrorView> {
    match r {
        Ok(t) => Ok(t),
        Err(e) => Err(e@),
    }
}

impl StripeClient {
    #[allow(clippy::too_many_arguments)]
    pub fn new(
        secret_key: String,
        webhook_secret: String,
        essential_price_id: String,
        pro_price_id: String,
        success_url: String,
        cancel_url: String,
        portal_return_url: String,
    ) -> (c: Self)
        ensures
            c@ == (StripeClientView {
                secret_key: secret_key@,
                webhook_secret: webhook_secret@,
                essential_price_id: essential_price_id@,
                pro_price_id: pro_price_id@,
                success_url: success_url@,
                cancel_url: cancel_url@,
                portal_return_url: portal_return_url@,
            }),
    {
        Self {
            secret_key,
            webhook_secret,
            essential_price_id,
            pro_price_id,
            success_url,
            cancel_url,
            portal_return_url,
        }
    }

    /// The price `tier` is sold at, if it is sold self-serve.
    pub fn price_id_for_tier<'a>(&'a self, tier: &Tier) -> (r: Option<&'a str>)
        ensures
            r.deep_view() == spec_price_id_for_tier(self@, *tier),
    {
        match tier {
            Tier::Essential => Some(self.essential_price_id.as_str()),
            Tier::Pro => Some(self.pro_price_id.as_str()),
            _ => None,
        }
    }

    /// The tier that `price_id` buys, if any.
    pub fn price_id_to_tier(&self, price_id: &str) -> (r: Option<Tier>)
        ensures
            r == spec_price_id_to_tier(self@, price_id@),
    {
        if str_eq(price_id, self.essential_price_id.as_str()) {
            Some(Tier::Essential)
        } else if str_eq(price_id, self.pro_price_id.as_str()) {
            Some(Tier::Pro)
        } else {
            None
        }
    }
}

/// The metadata name of a self-serve tier.
pub fn tier_to_metadata_name(tier: &Tier) -> (name: &'static str)
    requires
        self_serve(*tier),
    ensures
        name@ == spec_metadata_name(*tier),
{
    match tier {
        Tier::Essential => "essential",
        _ => "pro",
    }
}

/// The tier recorded under a metadata name.
pub fn tier_from_metadata_name(name: &str) -> (r: Result<Tier, DomainError>)
    ensures
        tier_result_view(r) == spec_tier_from_metadata_name(name@),
{
    if str_eq(name, "essential") {
        Ok(Tier::Essential)
    } else if str_eq(name, "pro") {
        Ok(Tier::Pro)
    } else {
        Err(DomainError::InvalidInput(join2("unknown tier in metadata: ", name)))
    }
}

// ── UUID text ────────────────────────────────────────────────────────────────

/// Lower-case hexadecimal digit of a value below 16.
pub open spec fn hex_lower(d: u128) -> char {
    if d < 10 { (48 + d) as char } else { (87 + d) as char }
}

/// The `k`-th hexadecimal digit (from the most significant) of a 128-bit value.
pub open spec fn nibble(id: u128, k: int) -> u128 {
    (id >> ((124 - 4 * k) as u128)) & 15u128
}

/// Position among the 32 digits of the character at position `i` of the hyphenated form.
pub open spec fn digit_position(i: int) -> int {
    if i < 8 { i } else if i < 13 { i - 1 } else if i < 18 { i - 2 } else if i < 23 { i - 3 } else { i - 4 }
}

/// The hyphenated lower-case form `xxxxxxxx-xxxx-xxxx-xxxx-xxxxxxxxxxxx` of a UUID,
/// as its `Display` writes it.
pub open spec fn uuid_text(id: u128) -> Seq<char> {
    Seq::new(36, |i: int| if i == 8 || i == 13 || i == 18 || i == 23 { '-' } else { hex_lower(nibble(id, digit_position(i))) })
}

/// Trusted: `uuid::Uuid::from_u128(id).to_string()`, which the `uuid` crate
/// documents as the hyphenated lower-case form.
#[verifier::external_body]
fn uuid_to_string(id: u128) -> (s: String)
    ensures
        s@ == uuid_text(id),
{
    uuid::Uuid::from_u128(id).to_string()
}

/// Names what `uuid::Uuid::parse_str` reads from a text (its 128-bit value), or `None`
/// where it reports an error.
pub uninterp spec fn uuid_parse(s: Seq<char>) -> Option<u128>;

/// Trusted: `uuid::Uuid::parse_str`, claimed to give the value `uuid_parse` names.
#[verifier::external_body]
fn parse_uuid(s: &str) -> (r: Option<u128>)
    ensures
        r == uuid_parse(s@),
{
    match uuid::Uuid::parse_str(s) {
        Ok(u) => Some(u.as_u128()),
        Err(_) => None,
    }
}

// ── Event parsing ────────────────────────────────────────────────────────────

/// `checkout.session.completed`: only paid sessions change anything.
pub open spec fn spec_checkout_completed(obj: JsonView) -> Result<BillingEventView, ErrorView> {
    let ps = json_str_or_empty(json_field(obj, "payment_status"@));
    if !(ps == "paid"@ || ps == "no_payment_required"@) {
        Ok(BillingEventView::Other)
    } else {
        match json_str(json_field(obj, "client_reference_id"@)) {
            None => Err(ErrorView::InvalidInput("missing client_reference_id"@)),
            Some(uid_text) => match uuid_parse(uid_text) {
                None => Err(ErrorView::InvalidInput("invalid uuid in client_reference_id"@)),
                Some(uid) => match json_str(json_field(obj, "customer"@)) {
                    None => Err(ErrorView::InvalidInput("missing customer"@)),
                    Some(cid) => match spec_tier_from_metadata_name(
                        json_str_or_empty(json_field(json_field(obj, "metadata"@), "tier"@)),
                    ) {
                        Err(e) => Err(e),
                        Ok(t) => Ok(BillingEventView::CheckoutCompleted { user_id: uid, customer_id: cid, tier: t }),
                    },
                },
            },
        }
    }
}

/// `obj["items"]["data"][0]["price"]["id"]`.
pub open spec fn first_price_id(obj: JsonView) -> JsonView {
    json_field(json_field(json_index(json_field(json_field(obj, "items"@), "data"@), 0), "price"@), "id"@)
}

/// `customer.subscription.updated`: an inactive subscription counts as deleted.
pub open spec fn spec_subscription_updated(obj: JsonView, c: StripeClientView) -> Result<BillingEventView, ErrorView> {
    match json_str(json_field(obj, "customer"@)) {
        None => Err(ErrorView::InvalidInput("missing customer"@)),
        Some(cid) => {
            let status = json_str_or_empty(json_field(obj, "status"@));
            if !(status == "active"@ || status == "trialing"@) {
                Ok(BillingEventView::SubscriptionDeleted { customer_id: cid })
            } else {
                match json_str(first_price_id(obj)) {
                    None => Err(ErrorView::InvalidInput("missing price id"@)),
                    Some(pid) => match spec_price_id_to_tier(c, pid) {
                        None => Err(ErrorView::InvalidInput("unknown price id: "@ + pid)),
                        Some(t) => Ok(BillingEventView::SubscriptionUpdated { customer_id: cid, tier: t }),
                    },
                }
            }
        },
    }
}

/// `customer.subscription.deleted`.
pub open spec fn spec_subscription_deleted(obj: JsonView) -> Result<BillingEventView, ErrorView> {
    match json_str(json_field(obj, "customer"@)) {
        None => Err(ErrorView::InvalidInput("missing customer"@)),
        Some(cid) => Ok(BillingEventView::SubscriptionDeleted { customer_id: cid }),
    }
}

/// The billing event a verified webhook document stands for. Test-mode
/// events and unhandled event types are `Other`.
pub open spec fn spec_parse_event(ev: JsonView, c: StripeClientView) -> Result<BillingEventView, ErrorView> {
    if json_bool(json_field(ev, "livemode"@)) == Some(false) {
        Ok(BillingEventView::Other)
    } else {
        let event_type = json_str_or_empty(json_field(ev, "type"@));
        let obj = json_field(json_field(ev, "data"@), "object"@);
        if event_type == "checkout.session.completed"@ {
            spec_checkout_completed(obj)
        } else if event_type == "customer.subscription.updated"@ {
            spec_subscription_updated(obj, c)
        } else if event_type == "customer.subscription.deleted"@ {
            spec_subscription_deleted(obj)
        } else {
            Ok(BillingEventView::Other)
        }
    }
}

fn parse_checkout_completed(obj: Option<&JsonValue>) -> (r: Result<BillingEvent, DomainError>)
    ensures
        result_view(r) == spec_checkout_completed(ref_view(obj)),
{
    let ps = str_or_empty(field_of(obj, "payment_status"));
    if !(str_eq(ps, "paid") || str_eq(ps, "no_payment_required")) {
        return Ok(BillingEvent::Other);
    }
    let user_id_str = match str_of(field_of(obj, "client_reference_id")) {
        Some(s) => s,
        None => return Err(DomainError::invalid_input("missing client_reference_id")),
    };
    let user_id = match parse_uuid(user_id_str) {
        Some(u) => u,
        None => return Err(DomainError::invalid_input("invalid uuid in client_reference_id")),
    };
    let customer_id = match str_of(field_of(obj, "customer")) {
        Some(s) => copy_str(s),
        None => return Err(DomainError::invalid_input("missing customer")),
    };
    let tier_name = str_or_empty(field_of(field_of(obj, "metadata"), "tier"));
    let tier = match tier_from_metadata_name(tier_name) {
        Ok(t) => t,
        Err(e) => return Err(e),
    };
    Ok(BillingEvent::CheckoutCompleted { user_id, customer_id, tier })
}

fn parse_subscription_updated(obj: Option<&JsonValue>, client: &StripeClient) -> (r: Result<BillingEvent, DomainError>)
    ensures
        result_view(r) == spec_subscription_updated(ref_view(obj), client@),
{
    let customer_id = match str_of(field_of(obj, "customer")) {
        Some(s) => copy_str(s),
        None => return Err(DomainError::invalid_input("missing customer")),
    };
    let status = str_or_empty(field_of(obj, "status"));
    if !(str_eq(status, "active") || str_eq(status, "trialing")) {
        return Ok(BillingEvent::SubscriptionDeleted { customer_id });
    }
    let price = field_of(field_of(element_of(field_of(field_of(obj, "items"), "data"), 0), "price"), "id");
    let price_id = match str_of(price) {
        Some(p) => p,
        None => return Err(DomainError::invalid_input("missing price id")),
    };
    match client.price_id_to_tier(price_id) {
        Some(tier) => Ok(BillingEvent::SubscriptionUpdated { customer_id, tier }),
        None => Err(DomainError::InvalidInput(join2("unknown price id: ", price_id))),
    }
}

/// Reads the billing event out of a webhook document.
pub fn parse_event(event: &JsonValue, client: &StripeClient) -> (r: Result<BillingEvent, DomainError>)
    ensures
        result_view(r) == spec_parse_event(event@, client@),
{
    let ev = Some(event);
    if bool_of(field_of(ev, "livemode")) == Some(false) {
        return Ok(BillingEvent::Other);
    }
    let event_type = str_or_empty(field_of(ev, "type"));
    let obj = field_of(field_of(ev, "data"), "object");
    if str_eq(event_type, "checkout.session.completed") {
        parse_checkout_completed(obj)
    } else if str_eq(event_type, "customer.subscription.updated") {
        parse_subscription_updated(obj, client)
    } else if str_eq(event_type, "customer.subscription.deleted") {
        match str_of(field_of(obj, "customer")) {
            Some(s) => Ok(BillingEvent::SubscriptionDeleted { customer_id: copy_str(s) }),
            None => Err(DomainError::invalid_input("missing customer")),
        }
    } else {
        Ok(BillingEvent::Other)
    }
}


// ── Stripe-Signature header ──────────────────────────────────────────────────

/// The pieces of `s` between occurrences of `sep`, as `str::split` yields them.
pub open spec fn split_on(s: Seq<char>, sep: char) -> Seq<Seq<char>>
    decreases s.len(),
{
    if s.len() == 0 {
        seq![Seq::<char>::empty()]
    } else {
        let prev = split_on(s.drop_last(), sep);
        if s.last() == sep {
            prev.push(Seq::<char>::empty())
        } else {
            prev.update(prev.len() - 1, prev.last().push(s.last()))
        }
    }
}

/// A `t=<timestamp>` piece.
pub open spec fn is_timestamp_part(p: Seq<char>) -> bool {
    p.len() >= 2 && p[0] == 't' && p[1] == '='
}

/// A `v1=<signature>` piece.
pub open spec fn is_signature_part(p: Seq<char>) -> bool {
    p.len() >= 3 && p[0] == 'v' && p[1] == '1' && p[2] == '='
}

/// The timestamp of the header: the value of its last `t=` piece.
pub open spec fn header_timestamp(parts: Seq<Seq<char>>) -> Option<Seq<char>>
    decreases parts.len(),
{
    if parts.len() == 0 {
        None
    } else if is_timestamp_part(parts.last()) {
        Some(parts.last().skip(2))
    } else {
        header_timestamp(parts.drop_last())
    }
}

/// The signatures of the header: the values of its `v1=` pieces, in order.
pub open spec fn header_signatures(parts: Seq<Seq<char>>) -> Seq<Seq<char>>
    decreases parts.len(),
{
    if parts.len() == 0 {
        Seq::empty()
    } else {
        let rest = header_signatures(parts.drop_last());
        let p = parts.last();
        if !is_timestamp_part(p) && is_signature_part(p) {
            rest.push(p.skip(3))
        } else {
            rest
        }
    }
}

proof fn lemma_split_nonempty(s: Seq<char>, sep: char)
    ensures
        split_on(s, sep).len() >= 1,
    decreases s.len(),
{
    if s.len() > 0 {
        lemma_split_nonempty(s.drop_last(), sep);
    }
}

/// Records one piece of the header: a timestamp or a signature, or nothing.
fn note_part<'a>(header: &'a str, chars: &Vec<char>, a: usize, b: usize, ts: &mut Option<&'a str>, sigs: &mut Vec<&'a str>)
    requires
        chars@ == header@,
        a <= b <= chars@.len(),
    ensures
        ({
            let p = header@.subrange(a as int, b as int);
            &&& final(ts).deep_view() == (if is_timestamp_part(p) { Some(p.skip(2)) } else { old(ts).deep_view() })
            &&& final(sigs).deep_view() == (if !is_timestamp_part(p) && is_signature_part(p) {
                old(sigs).deep_view().push(p.skip(3))
            } else {
                old(sigs).deep_view()
            })
        }),
{
    let ghost p = header@.subrange(a as int, b as int);
    if b - a >= 2 && chars[a] == 't' && chars[a + 1] == '=' {
        let v = header.substring_char(a + 2, b);
        assert(v@ =~= p.skip(2));
        *ts = Some(v);
    } else if b - a >= 3 && chars[a] == 'v' && chars[a + 1] == '1' && chars[a + 2] == '=' {
        let v = header.substring_char(a + 3, b);
        assert(v@ =~= p.skip(3));
        let ghost before = sigs.deep_view();
        sigs.push(v);
        assert(sigs.deep_view() =~= before.push(p.skip(3)));
    }
}

/// Reads `t=<timestamp>,v1=<sig>[,v1=<sig>...]`: the last timestamp and every signature.
pub fn parse_signature_header<'a>(header: &'a str) -> (r: (Option<&'a str>, Vec<&'a str>))
    ensures
        r.0.deep_view() == header_timestamp(split_on(header@, ',')),
        r.1.deep_view() == header_signatures(split_on(header@, ',')),
{
    let chars = chars_of(header);
    let n = chars.len();
    let mut ts: Option<&'a str> = None;
    let mut sigs: Vec<&'a str> = Vec::new();
    let ghost mut parts: Seq<Seq<char>> = Seq::empty();
    let mut start: usize = 0;
    let mut i: usize = 0;
    assert(header@.take(0) =~= Seq::<char>::empty());
    assert(header@.subrange(0, 0) =~= Seq::<char>::empty());
    assert(split_on(Seq::<char>::empty(), ',') =~= parts.push(header@.subrange(0, 0)));
    assert(sigs.deep_view() =~= header_signatures(parts));
    while i < n
        invariant
            chars@ == header@,
            n == header@.len(),
            start <= i <= n,
            split_on(header@.take(i as int), ',') == parts.push(header@.subrange(start as int, i as int)),
            ts.deep_view() == header_timestamp(parts),
            sigs.deep_view() == header_signatures(parts),
        decreases n - i,
    {
        let ghost cur = header@.take(i as int);
        let ghost next = header@.take(i + 1);
        assert(next.drop_last() =~= cur);
        assert(next.last() == chars@[i as int]);
        proof {
            lemma_split_nonempty(cur, ',');
        }
        if chars[i] == ',' {
            note_part(header, &chars, start, i, &mut ts, &mut sigs);
            proof {
                let p = header@.subrange(start as int, i as int);
                let np = parts.push(p);
                assert(np.drop_last() =~= parts);
                assert(np.last() == p);
                parts = np;
                assert(header@.subrange(i + 1, i + 1) =~= Seq::<char>::empty());
            }
            start = i + 1;
        } else {
            proof {
                assert(header@.subrange(start as int, i + 1) =~= header@.subrange(start as int, i as int).push(chars@[i as int]));
                assert(split_on(next, ',') =~= parts.push(header@.subrange(start as int, i + 1)));
            }
        }
        i = i + 1;
    }
    note_part(header, &chars, start, n, &mut ts, &mut sigs);
    proof {
        let p = header@.subrange(start as int, n as int);
        let np = parts.push(p);
        assert(np.drop_last() =~= parts);
        assert(header@.take(n as int) =~= header@);
    }
    (ts, sigs)
}

// ── Outside computations used to check a signature ───────────────────────────

/// Names the bytes that `hex::decode` reads from a text, or `None` where it reports an error.
pub uninterp spec fn hex_decoded(s: Seq<char>) -> Option<Seq<u8>>;

/// Trusted: `hex::decode`, claimed to give what `hex_decoded` names.
#[verifier::external_body]
fn hex_decode(s: &str) -> (r: Option<Vec<u8>>)
    ensures
        match r {
            Some(v) => hex_decoded(s@) == Some(v@),
            None => hex_decoded(s@) is None,
        },
{
    match hex::decode(s) {
        Ok(v) => Some(v),
        Err(_) => None,
    }
}

/// Names the HMAC-SHA256 tag of `msg` under `key`.
pub uninterp spec fn hmac_sha256_tag(key: Seq<u8>, msg: Seq<u8>) -> Seq<u8>;

/// Trusted: `Hmac::<Sha256>::new_from_slice(key)`, `update(msg)`, `finalize()`.
/// HMAC accepts keys of any length, so the source never returns the error;
/// the contract claims that the tag is the one `hmac_sha256_tag` names.
#[verifier::external_body]
fn hmac_sha256(key: &[u8], msg: &[u8]) -> (r: Option<Vec<u8>>)
    ensures
        r is Some,
        r matches Some(t) ==> t@ == hmac_sha256_tag(key@, msg@),
{
    match hmac::Hmac::<sha2::Sha256>::new_from_slice(key) {
        Ok(mut mac) => {
            mac.update(msg);
            Some(mac.finalize().into_bytes().to_vec())
        },
        Err(_) => None,
    }
}

/// Trusted: `subtle::ConstantTimeEq::ct_eq` on byte slices, which is 1 exactly when
/// both slices have the same length and the same bytes.
#[verifier::external_body]
fn ct_eq_bytes(a: &[u8], b: &[u8]) -> (r: bool)
    ensures
        r == (a@ == b@),
{
    a.ct_eq(b).into()
}

/// Names what `str::parse::<i64>` reads from a text, or `None` where it reports an error.
pub uninterp spec fn i64_parse(s: Seq<char>) -> Option<i64>;

/// Trusted: `str::parse::<i64>`, claimed to give what `i64_parse` names.
#[verifier::external_body]
fn parse_i64(s: &str) -> (r: Option<i64>)
    ensures
        r == i64_parse(s@),
{
    match s.parse::<i64>() {
        Ok(v) => Some(v),
        Err(_) => None,
    }
}

/// Trusted: `std::str::from_utf8` succeeds exactly on valid UTF-8.
#[verifier::external_body]
fn is_utf8(bytes: &[u8]) -> (r: bool)
    ensures
        r == valid_utf8(bytes@),
{
    std::str::from_utf8(bytes).is_ok()
}

/// Trusted: the current time from `std::time::SystemTime::now`, in seconds since the
/// Unix epoch (0 for a clock before the epoch). Nothing is claimed of the value.
#[verifier::external_body]
fn unix_now_secs() -> (now: i64) {
    match std::time::SystemTime::now().duration_since(std::time::UNIX_EPOCH) {
        Ok(d) => d.as_secs() as i64,
        Err(_) => 0,
    }
}

// ── Webhook verification ─────────────────────────────────────────────────────

/// Some signature decodes to exactly the expected tag.
pub open spec fn signature_matches(sigs: Seq<Seq<char>>, tag: Seq<u8>) -> bool {
    exists|i: int| 0 <= i < sigs.len() && hex_decoded(#[trigger] sigs[i]) == Some(tag)
}

/// The bytes that Stripe signs: the timestamp text, a dot, the payload.
pub open spec fn signed_payload(ts: Seq<char>, payload: Seq<u8>) -> Seq<u8> {
    encode_utf8(ts) + seq![46u8] + payload
}

/// A timestamp is fresh when it lies within the tolerance of `now`.
pub open spec fn fresh(ts_secs: i64, now: i64) -> bool {
    -WEBHOOK_TIMESTAMP_TOLERANCE_SECS <= now - ts_secs <= WEBHOOK_TIMESTAMP_TOLERANCE_SECS
}

/// The outcome of verifying a webhook delivery at time `now`: the header must
/// carry a numeric, fresh timestamp, the payload must be UTF-8, one of the `v1`
/// signatures must be the HMAC-SHA256 of `<t>.<payload>` under the webhook
/// secret, and the payload must be a JSON document, which is then read as an event.
pub open spec fn spec_verify_webhook(c: StripeClientView, payload: Seq<u8>, header: Seq<char>, now: i64) -> Result<BillingEventView, ErrorView> {
    let parts = split_on(header, ',');
    match header_timestamp(parts) {
        None => Err(ErrorView::Unauthorized),
        Some(ts) => match i64_parse(ts) {
            None => Err(ErrorView::Unauthorized),
            Some(ts_secs) => if !fresh(ts_secs, now) {
                Err(ErrorView::Unauthorized)
            } else if !valid_utf8(payload) {
                Err(ErrorView::Unauthorized)
            } else if !signature_matches(
                header_signatures(parts),
                hmac_sha256_tag(encode_utf8(c.webhook_secret), signed_payload(ts, payload)),
            ) {
                Err(ErrorView::Unauthorized)
            } else {
                match json_parse(payload) {
                    None => Err(ErrorView::InvalidInput("malformed webhook json"@)),
                    Some(ev) => spec_parse_event(ev, c),
                }
            },
        },
    }
}

fn append_bytes(v: &mut Vec<u8>, more: &[u8])
    ensures
        final(v)@ == old(v)@ + more@,
{
    let mut i: usize = 0;
    let ghost start = v@;
    while i < more.len()
        invariant
            0 <= i <= more@.len(),
            v@ == start + more@.take(i as int),
        decreases more.len() - i,
    {
        v.push(more[i]);
        i = i + 1;
        assert(v@ =~= start + more@.take(i as int));
    }
    assert(more@.take(more@.len() as int) =~= more@);
}

/// Whether some signature decodes to exactly `tag`.
fn any_signature_matches(sigs: &Vec<&str>, tag: &Vec<u8>) -> (r: bool)
    ensures
        r == signature_matches(sigs.deep_view(), tag@),
{
    let ghost sv = sigs.deep_view();
    let mut i: usize = 0;
    while i < sigs.len()
        invariant
            sv == sigs.deep_view(),
            sv.len() == sigs@.len(),
            0 <= i <= sigs.len(),
            forall|j: int| 0 <= j < i ==> hex_decoded(#[trigger] sv[j]) != Some(tag@),
        decreases sigs.len() - i,
    {
        assert(sv[i as int] == sigs@[i as int]@);
        match hex_decode(sigs[i]) {
            Some(decoded) => {
                if ct_eq_bytes(decoded.as_slice(), tag.as_slice()) {
                    return true;
                }
            },
            None => {},
        }
        i = i + 1;
    }
    false
}

impl StripeClient {
    /// Verifies a webhook delivery as of `now_secs` (seconds since the Unix epoch)
    /// and reads the billing event it carries.
    pub fn verify_webhook_at(&self, payload: &[u8], sig_header: &str, now_secs: i64) -> (r: Result<BillingEvent, DomainError>)
        ensures
            result_view(r) == spec_verify_webhook(self@, payload@, sig_header@, now_secs),
    {
        let (timestamp, signatures) = parse_signature_header(sig_header);
        let ts = match timestamp {
            Some(t) => t,
            None => return Err(DomainError::Unauthorized),
        };
        let ts_secs = match parse_i64(ts) {
            Some(v) => v,
            None => return Err(DomainError::Unauthorized),
        };
        let diff: i128 = now_secs as i128 - ts_secs as i128;
        let tolerance: i128 = WEBHOOK_TIMESTAMP_TOLERANCE_SECS as i128;
        if diff > tolerance || diff < -tolerance {
            return Err(DomainError::Unauthorized);
        }
        if !is_utf8(payload) {
            return Err(DomainError::Unauthorized);
        }
        let mut signed: Vec<u8> = Vec::new();
        append_bytes(&mut signed, ts.as_bytes());
        signed.push(46u8);
        append_bytes(&mut signed, payload);
        assert(signed@ =~= signed_payload(ts@, payload@));
        let tag = match hmac_sha256(self.webhook_secret.as_str().as_bytes(), signed.as_slice()) {
            Some(t) => t,
            None => return Err(DomainError::BillingServiceUnavailable),
        };
        if !any_signature_matches(&signatures, &tag) {
            return Err(DomainError::Unauthorized);
        }
        let event = match parse_json(payload) {
            Some(ev) => ev,
            None => return Err(DomainError::invalid_input("malformed webhook json")),
        };
        parse_event(&event, self)
    }

    /// Verifies a webhook delivery against the current time and reads the billing
    /// event it carries: the outcome is that of [`Self::verify_webhook_at`] at
    /// some instant read from the clock.
    pub fn verify_webhook(&self, payload: &[u8], sig_header: &str) -> (r: Result<BillingEvent, DomainError>)
        ensures
            exists|now: i64| result_view(r) == spec_verify_webhook(self@, payload@, sig_header@, now),
    {
        let now = unix_now_secs();
        self.verify_webhook_at(payload, sig_header, now)
    }
}


// ── Checkout and portal sessions ─────────────────────────────────────────────

/// A form-encoded Stripe API request: its idempotency key and its parameters in order.
pub struct FormRequest {
    pub idempotency_key: String,
    pub params: Vec<(String, String)>,
}

/// Model of a [`FormRequest`].
pub struct FormRequestView {
    pub idempotency_key: Seq<char>,
    pub params: Seq<(Seq<char>, Seq<char>)>,
}

impl View for FormRequest {
    type V = FormRequestView;

    open spec fn view(&self) -> FormRequestView {
        FormRequestView { idempotency_key: self.idempotency_key@, params: self.params.deep_view() }
    }
}

/// The idempotency key of a checkout: one per user and tier, so that retries
/// within Stripe's idempotency window return the same session.
pub open spec fn checkout_idempotency_key(user_id: u128, tier: Tier) -> Seq<char> {
    "checkout-"@ + uuid_text(user_id) + "-"@ + spec_metadata_name(tier)
}

/// The parameters of a subscription checkout for a self-serve tier.
pub open spec fn checkout_params(c: StripeClientView, user_id: u128, email: Seq<char>, tier: Tier, existing_customer_id: Option<Seq<char>>) -> Seq<(Seq<char>, Seq<char>)> {
    seq![
        ("mode"@, "subscription"@),
        ("line_items[0][price]"@, spec_price_id_for_tier(c, tier).unwrap()),
        ("line_items[0][quantity]"@, "1"@),
        ("client_reference_id"@, uuid_text(user_id)),
        ("success_url"@, c.success_url),
        ("cancel_url"@, c.cancel_url),
        ("metadata[tier]"@, spec_metadata_name(tier)),
    ] + match existing_customer_id {
        Some(cid) => seq![("customer"@, cid)],
        None => seq![("customer_email"@, email)],
    }
}

/// The checkout request for a tier, or the refusal of a tier that is not sold self-serve.
pub open spec fn spec_checkout_request(c: StripeClientView, user_id: u128, email: Seq<char>, tier: Tier, existing_customer_id: Option<Seq<char>>) -> Result<FormRequestView, ErrorView> {
    if !self_serve(tier) {
        Err(ErrorView::InvalidInput("tier is not available for self-serve checkout"@))
    } else {
        Ok(FormRequestView {
            idempotency_key: checkout_idempotency_key(user_id, tier),
            params: checkout_params(c, user_id, email, tier, existing_customer_id),
        })
    }
}

/// The customer-portal request for a customer.
pub open spec fn spec_portal_request(c: StripeClientView, customer_id: Seq<char>) -> FormRequestView {
    FormRequestView {
        idempotency_key: "portal-"@ + customer_id,
        params: seq![("customer"@, customer_id), ("return_url"@, c.portal_return_url)],
    }
}

/// The session URL in a Stripe response: a 2xx status and a JSON body whose
/// `url` member is a string.
pub open spec fn spec_session_url(status: u16, body: Seq<u8>) -> Result<Seq<char>, ErrorView> {
    if !(200 <= status <= 299) {
        Err(ErrorView::BillingServiceUnavailable)
    } else {
        match json_parse(body) {
            None => Err(ErrorView::BillingServiceUnavailable),
            Some(v) => match json_str(json_field(v, "url"@)) {
                Some(u) => Ok(u),
                None => Err(ErrorView::BillingServiceUnavailable),
            },
        }
    }
}

fn pair(k: &str, v: &str) -> (p: (String, String))
    ensures
        p.0@ == k@,
        p.1@ == v@,
{
    (String::from_str(k), String::from_str(v))
}

impl StripeClient {
    /// The Checkout Session request for `tier`.
    pub fn checkout_request(&self, user_id: u128, email: &str, tier: &Tier, existing_customer_id: Option<&str>) -> (r: Result<FormRequest, DomainError>)
        ensures
            result_view(r) == spec_checkout_request(self@, user_id, email@, *tier, existing_customer_id.deep_view()),
    {
        let price_id = match self.price_id_for_tier(tier) {
            Some(p) => p,
            None => return Err(DomainError::invalid_input("tier is not available for self-serve checkout")),
        };
        let user_id_str = uuid_to_string(user_id);
        let name = tier_to_metadata_name(tier);
        let idempotency_key = join2("checkout-", user_id_str.as_str()).concat("-").concat(name);
        let mut params: Vec<(String, String)> = Vec::new();
        params.push(pair("mode", "subscription"));
        params.push(pair("line_items[0][price]", price_id));
        params.push(pair("line_items[0][quantity]", "1"));
        params.push(pair("client_reference_id", user_id_str.as_str()));
        params.push(pair("success_url", self.success_url.as_str()));
        params.push(pair("cancel_url", self.cancel_url.as_str()));
        params.push(pair("metadata[tier]", name));
        match existing_customer_id {
            Some(cid) => params.push(pair("customer", cid)),
            None => params.push(pair("customer_email", email)),
        }
        let r = FormRequest { idempotency_key, params };
        assert(r@.params =~= checkout_params(self@, user_id, email@, *tier, existing_customer_id.deep_view()));
        Ok(r)
    }

    /// The Customer Portal Session request for `customer_id`.
    pub fn portal_request(&self, customer_id: &str) -> (r: FormRequest)
        ensures
            r@ == spec_portal_request(self@, customer_id@),
    {
        let mut params: Vec<(String, String)> = Vec::new();
        params.push(pair("customer", customer_id));
        params.push(pair("return_url", self.portal_return_url.as_str()));
        let r = FormRequest { idempotency_key: join2("portal-", customer_id), params };
        assert(r@.params =~= spec_portal_request(self@, customer_id@).params);
        r
    }
}

/// Reads the redirect URL out of a Stripe session response.
pub fn session_url_from_response(status: u16, body: &[u8]) -> (r: Result<String, DomainError>)
    ensures
        result_view(r) == spec_session_url(status, body@),
{
    if !(200 <= status && status <= 299) {
        return Err(DomainError::BillingServiceUnavailable);
    }
    let doc = match parse_json(body) {
        Some(d) => d,
        None => return Err(DomainError::BillingServiceUnavailable),
    };
    match str_of(field_of(Some(&doc), "url")) {
        Some(u) => Ok(copy_str(u)),
        None => Err(DomainError::BillingServiceUnavailable),
    }
}

// ── Laws ─────────────────────────────────────────────────────────────────────

/// The tier written into checkout metadata is read back as the same tier.
pub proof fn lemma_metadata_name_round_trip(tier: Tier)
    requires
        self_serve(tier),
    ensures
        spec_tier_from_metadata_name(spec_metadata_name(tier)) == Ok::<Tier, ErrorView>(tier),
{
    reveal_strlit("essential");
    reveal_strlit("pro");
    assert("pro"@.len() == 3);
    assert("essential"@.len() == 9);
    assert("pro"@ != "essential"@);
}

/// A self-serve tier's price buys that tier back, provided the two prices differ.
pub proof fn lemma_price_round_trip(c: StripeClientView, tier: Tier)
    requires
        self_serve(tier),
        c.essential_price_id != c.pro_price_id,
    ensures
        spec_price_id_to_tier(c, spec_price_id_for_tier(c, tier).unwrap()) == Some(tier),
{
}

/// Only the self-serve tiers have a price, and a price buys only self-serve tiers.
pub proof fn lemma_prices_only_for_self_serve(c: StripeClientView, tier: Tier, price_id: Seq<char>)
    ensures
        spec_price_id_for_tier(c, tier) is Some <==> self_serve(tier),
        spec_price_id_to_tier(c, price_id) matches Some(t) ==> self_serve(t),
{
}

/// A delivery is accepted only when one of its `v1` signatures is the HMAC-SHA256,
/// under the webhook secret, of its timestamp, a dot and its payload; its
/// timestamp was within the tolerance of the time of checking; and the payload
/// was UTF-8 and well-formed JSON.
pub proof fn lemma_accepted_webhook_is_authentic(c: StripeClientView, payload: Seq<u8>, header: Seq<char>, now: i64)
    requires
        spec_verify_webhook(c, payload, header, now) is Ok,
    ensures
        ({
            let parts = split_on(header, ',');
            let ts = header_timestamp(parts).unwrap();
            &&& header_timestamp(parts) is Some
            &&& i64_parse(ts) is Some
            &&& fresh(i64_parse(ts).unwrap(), now)
            &&& valid_utf8(payload)
            &&& signature_matches(header_signatures(parts), hmac_sha256_tag(encode_utf8(c.webhook_secret), signed_payload(ts, payload)))
            &&& json_parse(payload) is Some
        }),
{
}

/// A delivery whose timestamp lies outside the tolerance window is refused as
/// unauthorized, whatever it carries: a replayed payload cannot be accepted.
pub proof fn lemma_stale_webhook_refused(c: StripeClientView, payload: Seq<u8>, header: Seq<char>, now: i64, ts_secs: i64)
    requires
        header_timestamp(split_on(header, ',')) matches Some(ts) && i64_parse(ts) == Some(ts_secs),
        !fresh(ts_secs, now),
    ensures
        spec_verify_webhook(c, payload, header, now) == Err::<BillingEventView, ErrorView>(ErrorView::Unauthorized),
{
}

/// A header without a `t=` piece, or whose signatures all fail to match, is refused as unauthorized.
pub proof fn lemma_unsigned_webhook_refused(c: StripeClientView, payload: Seq<u8>, header: Seq<char>, now: i64)
    requires
        header_timestamp(split_on(header, ',')) is None || header_signatures(split_on(header, ',')).len() == 0,
    ensures
        spec_verify_webhook(c, payload, header, now) == Err::<BillingEventView, ErrorView>(ErrorView::Unauthorized),
{
}

/// Test-mode events never change anything: they are read as `Other`.
pub proof fn lemma_test_mode_ignored(ev: JsonView, c: StripeClientView)
    requires
        json_bool(json_field(ev, "livemode"@)) == Some(false),
    ensures
        spec_parse_event(ev, c) == Ok::<BillingEventView, ErrorView>(BillingEventView::Other),
{
}

/// A live subscription update for a customer is read from its status: a status other
/// than `active` or `trialing` (cancelled, unpaid, past due, ...) ends the
/// customer's subscription, and only an active or trialing subscription can be read
/// as a change of tier, for that same customer.
pub proof fn lemma_inactive_subscription_ends(ev: JsonView, c: StripeClientView, customer_id: Seq<char>)
    requires
        json_bool(json_field(ev, "livemode"@)) != Some(false),
        json_field(ev, "type"@) == JsonView::Str("customer.subscription.updated"@),
        json_field(json_field(json_field(ev, "data"@), "object"@), "customer"@) == JsonView::Str(customer_id),
    ensures
        ({
            let status = json_field(json_field(json_field(ev, "data"@), "object"@), "status"@);
            &&& !(status == JsonView::Str("active"@) || status == JsonView::Str("trialing"@))
                ==> spec_parse_event(ev, c) == Ok::<BillingEventView, ErrorView>(
                    BillingEventView::SubscriptionDeleted { customer_id })
            &&& (spec_parse_event(ev, c) matches Ok(BillingEventView::SubscriptionUpdated { customer_id: cid, .. })
                ==> cid == customer_id && (status == JsonView::Str("active"@) || status == JsonView::Str("trialing"@)))
        }),
{
    reveal_strlit("customer.subscription.updated");
    reveal_strlit("checkout.session.completed");
    reveal_strlit("active");
    reveal_strlit("trialing");
    reveal_strlit("");
    let status = json_field(json_field(json_field(ev, "data"@), "object"@), "status"@);
    assert(json_str_or_empty(json_field(ev, "type"@)) == "customer.subscription.updated"@);
    assert("customer.subscription.updated"@ != "checkout.session.completed"@) by {
        assert("customer.subscription.updated"@[1] != "checkout.session.completed"@[1]);
    }
    if json_str_or_empty(status) == "active"@ {
        assert(status == JsonView::Str("active"@)) by {
            if !(status is Str) {
                assert(json_str_or_empty(status).len() == 0);
            }
        }
    }
    if json_str_or_empty(status) == "trialing"@ {
        assert(status == JsonView::Str("trialing"@)) by {
            if !(status is Str) {
                assert(json_str_or_empty(status).len() == 0);
            }
        }
    }
}

/// A completed checkout whose session was created by [`StripeClient::checkout_request`]
/// for a self-serve tier, and echoed back paid by Stripe, is read as that user
/// buying that tier.
pub proof fn lemma_checkout_round_trip(ev: JsonView, c: StripeClientView, user_id: u128, tier: Tier, customer_id: Seq<char>)
    requires
        self_serve(tier),
        json_bool(json_field(ev, "livemode"@)) != Some(false),
        json_str_or_empty(json_field(ev, "type"@)) == "checkout.session.completed"@,
        ({
            let obj = json_field(json_field(ev, "data"@), "object"@);
            &&& json_str_or_empty(json_field(obj, "payment_status"@)) == "paid"@
            &&& json_field(obj, "client_reference_id"@) == JsonView::Str(uuid_text(user_id))
            &&& uuid_parse(uuid_text(user_id)) == Some(user_id)
            &&& json_field(obj, "customer"@) == JsonView::Str(customer_id)
            &&& json_field(json_field(obj, "metadata"@), "tier"@) == JsonView::Str(spec_metadata_name(tier))
        }),
    ensures
        spec_parse_event(ev, c) == Ok::<BillingEventView, ErrorView>(BillingEventView::CheckoutCompleted { user_id, customer_id, tier }),
{
    lemma_metadata_name_round_trip(tier);
}

proof fn lemma_shift_step(a: u128, b: u128, s: u128, t: u128)
    by (bit_vector)
    requires
        s <= 124,
        t + 4 == s,
        a >> s == b >> s,
        (a >> t) & 15 == (b >> t) & 15,
    ensures
        a >> t == b >> t,
{
}

proof fn lemma_top_nibble(a: u128)
    by (bit_vector)
    ensures
        (a >> 124u128) & 15u128 == a >> 124u128,
        a >> 0u128 == a,
{
}

proof fn lemma_high_digits_agree(a: u128, b: u128, k: int)
    requires
        0 <= k < 32,
        forall|j: int| 0 <= j < 32 ==> #[trigger] nibble(a, j) == nibble(b, j),
    ensures
        a >> ((124 - 4 * k) as u128) == b >> ((124 - 4 * k) as u128),
    decreases k,
{
    lemma_top_nibble(a);
    lemma_top_nibble(b);
    if k == 0 {
        assert(nibble(a, 0) == nibble(b, 0));
    } else {
        lemma_high_digits_agree(a, b, k - 1);
        let s = (124 - 4 * (k - 1)) as u128;
        let t = (124 - 4 * k) as u128;
        assert(nibble(a, k) == nibble(b, k));
        lemma_shift_step(a, b, s, t);
    }
}

/// Where the `k`-th hexadecimal digit stands in the hyphenated form.
pub open spec fn digit_place(k: int) -> int {
    if k < 8 { k } else if k < 12 { k + 1 } else if k < 16 { k + 2 } else if k < 20 { k + 3 } else { k + 4 }
}

/// Different identifiers are written differently.
pub proof fn lemma_uuid_text_injective(a: u128, b: u128)
    requires
        uuid_text(a) == uuid_text(b),
    ensures
        a == b,
{
    assert forall|k: int| 0 <= k < 32 implies #[trigger] nibble(a, k) == nibble(b, k) by {
        let i = digit_place(k);
        assert(digit_position(i) == k);
        assert(uuid_text(a)[i] == uuid_text(b)[i]);
        let sh = (124 - 4 * k) as u128;
        let da = nibble(a, k);
        let db = nibble(b, k);
        assert(da < 16 && db < 16) by (bit_vector)
            requires
                da == (a >> sh) & 15u128,
                db == (b >> sh) & 15u128;
        assert(0 <= i < 36 && i != 8 && i != 13 && i != 18 && i != 23);
        assert(uuid_text(a)[i] == hex_lower(nibble(a, k)));
        assert(uuid_text(b)[i] == hex_lower(nibble(b, k)));
        assert(hex_lower(da) == hex_lower(db));
        assert((hex_lower(da) as u32) == (if da < 10 { 48 + da } else { 87 + da }));
        assert((hex_lower(db) as u32) == (if db < 10 { 48 + db } else { 87 + db }));
    }
    lemma_high_digits_agree(a, b, 31);
    lemma_top_nibble(a);
    lemma_top_nibble(b);
}

/// Checkout sessions are keyed on user and tier, so that retries return the same
/// session: two checkouts share an idempotency key only when they are for the same
/// user and the same tier.
pub proof fn lemma_checkout_key_identifies(u1: u128, t1: Tier, u2: u128, t2: Tier)
    requires
        self_serve(t1),
        self_serve(t2),
        checkout_idempotency_key(u1, t1) == checkout_idempotency_key(u2, t2),
    ensures
        u1 == u2,
        t1 == t2,
{
    reveal_strlit("checkout-");
    reveal_strlit("-");
    reveal_strlit("essential");
    reveal_strlit("pro");
    let k1 = checkout_idempotency_key(u1, t1);
    let k2 = checkout_idempotency_key(u2, t2);
    assert(k1.len() == k2.len());
    assert(spec_metadata_name(t1).len() == spec_metadata_name(t2).len());
    assert(t1 == t2);
    assert(k1.subrange(9, 45) =~= uuid_text(u1));
    assert(k2.subrange(9, 45) =~= uuid_text(u2));
    lemma_uuid_text_injective(u1, u2);
}

} // verus!
