use vstd::prelude::*;
use crate::error::{DomainError, ErrorView};
use crate::interests::UserInterestsRepository;
use crate::text::str_eq;
use crate::user::{AuthUser, Tier, User, UserView};

verus! {

/// A stored profile with a new tier, and a new Stripe customer where one is given.
pub open spec fn with_subscription(u: UserView, tier: Tier, customer_id: Option<Seq<char>>) -> UserView {
    UserView {
        tier,
        billing_customer_id: match customer_id {
            Some(c) => Some(c),
            None => u.billing_customer_id,
        },
        ..u
    }
}

/// Some stored profile has the subject `sub`.
pub open spec fn has_sub(m: Map<u128, UserView>, sub: Seq<char>) -> bool {
    exists|k: u128| #[trigger] m.contains_key(k) && m[k].sub == sub
}

/// `v` holds exactly the stored profiles with coordinates that `near` selects: each
/// listed profile is near, and every stored, located, near profile is listed.
pub open spec fn lists_near(m: Map<u128, UserView>, near: spec_fn(UserView) -> bool, v: Seq<User>) -> bool {
    &&& forall|i: int| 0 <= i < v.len() ==> near(#[trigger] v[i]@)
    &&& forall|k: u128| #[trigger] m.contains_key(k) && m[k].latitude is Some && m[k].longitude is Some && near(m[k])
        ==> exists|i: int| 0 <= i < v.len() && v[i].id == k
}

/// Every profile of `s` is stored as it is listed and has coordinates.
pub open spec fn lists_located(m: Map<u128, UserView>, s: Seq<UserView>) -> bool {
    forall|i: int| 0 <= i < s.len() ==> #[trigger] m.contains_key(s[i].id) && m[s[i].id] == s[i]
        && s[i].latitude is Some && s[i].longitude is Some
}

/// The models of a sequence of profiles.
pub open spec fn users_view(v: Seq<User>) -> Seq<UserView> {
    v.map_values(|u: User| u@)
}

/// Storage of user profiles, keyed by user id.
pub trait UserRepository {
    spec fn users(&self) -> Map<u128, UserView>;

    /// The store answers every request: no lookup or write fails for a reason of
    /// its own. An in-memory store is reliable; a database need not be.
    spec fn reliable(&self) -> bool;

    /// The store counts `profile` as lying within `radius_meters` of the point at
    /// latitude `lat` and longitude `lon` (IEEE-754 bit patterns). Distances are
    /// computed by the store.
    spec fn near(&self, lat: u64, lon: u64, radius_meters: u64, profile: UserView) -> bool;

    /// The profile `user_id`; `NotFound` when none is stored.
    fn find_by_id(&self, user_id: u128) -> (r: Result<User, DomainError>)
        ensures
            r matches Ok(u) ==> u.id == user_id && self.users().contains_key(user_id) && self.users()[user_id] == u@,
            !self.users().contains_key(user_id) ==> (r matches Err(e) && e@ == ErrorView::NotFound),
            self.reliable() && self.users().contains_key(user_id) ==> r is Ok,
    ;

    /// The profile with identity-provider subject `user_sub`; `NotFound` when none is stored.
    fn find_by_sub(&self, user_sub: &str) -> (r: Result<User, DomainError>)
        ensures
            r matches Ok(u) ==> u@.sub == user_sub@ && self.users().contains_key(u.id) && self.users()[u.id] == u@,
            !has_sub(self.users(), user_sub@) ==> (r matches Err(e) && e@ == ErrorView::NotFound),
            self.reliable() && has_sub(self.users(), user_sub@) ==> r is Ok,
    ;

    /// Creates or refreshes the profile of an identity and returns it as stored; a
    /// profile already stored with the identity's subject keeps its id.
    fn upsert(&mut self, user: &AuthUser) -> (r: Result<User, DomainError>)
        ensures
            r matches Ok(u) ==> u@.sub == user@.sub && u@.email == user@.email && u@.display_name == user@.display_name
                && final(self).users() == old(self).users().insert(u.id, u@),
            r matches Ok(u) ==> (has_sub(old(self).users(), user@.sub) ==> old(self).users().contains_key(u.id)
                && old(self).users()[u.id].sub == user@.sub),
            r is Err ==> final(self).users() == old(self).users(),
            old(self).reliable() ==> r is Ok,
    ;

    /// The profile linked to Stripe customer `customer_id`; `NotFound` when none is stored.
    fn find_by_billing_customer_id(&self, customer_id: &str) -> (r: Result<User, DomainError>)
        ensures
            r matches Ok(u) ==> u@.billing_customer_id == Some(customer_id@) && self.users().contains_key(u.id)
                && self.users()[u.id] == u@,
    ;

    /// Profiles located within `radius_meters` of a point. Coordinates and the
    /// radius are IEEE-754 bit patterns; which profiles are near is computed by the store.
    fn find_nearby(&self, lat: u64, lon: u64, radius_meters: u64) -> (r: Result<Vec<User>, DomainError>)
        ensures
            r matches Ok(v) ==> lists_located(self.users(), users_view(v@)),
            r matches Ok(v) ==> lists_near(self.users(), |p: UserView| self.near(lat, lon, radius_meters, p), v@),
            self.reliable() ==> r is Ok,
    ;

    /// Profiles near a point whose interests resemble `embedding`, most similar first.
    fn find_nearby_by_interests(&self, lat: u64, lon: u64, radius_meters: u64, embedding: &Vec<u32>) -> (r: Result<Vec<User>, DomainError>)
        ensures
            r matches Ok(v) ==> lists_located(self.users(), users_view(v@)),
            r matches Ok(v) ==> forall|i: int| 0 <= i < v@.len() ==> self.near(lat, lon, radius_meters, #[trigger] v@[i]@),
            self.reliable() ==> r is Ok,
    ;

    /// Sets the tier of `user_id`, and their Stripe customer when one is given.
    fn update_subscription(&mut self, user_id: u128, tier: Tier, stripe_customer_id: Option<String>) -> (r: Result<(), DomainError>)
        ensures
            r is Ok ==> old(self).users().contains_key(user_id) && final(self).users() == old(self).users().insert(
                user_id,
                with_subscription(old(self).users()[user_id], tier, stripe_customer_id.deep_view()),
            ),
            r is Err ==> final(self).users() == old(self).users(),
            !old(self).users().contains_key(user_id) <==> (r matches Err(e) && e@ == ErrorView::NotFound),
            old(self).reliable() && old(self).users().contains_key(user_id) ==> r is Ok,
    ;

    /// Replaces the public profile fields of `user_id` and returns the profile as stored.
    #[allow(clippy::too_many_arguments)]
    fn update_profile(
        &mut self,
        user_id: u128,
        avatar_url: Option<String>,
        bio: Option<String>,
        city: Option<String>,
        latitude: Option<u64>,
        longitude: Option<u64>,
    ) -> (r: Result<User, DomainError>)
        ensures
            r matches Ok(u) ==> u.id == user_id && old(self).users().contains_key(user_id)
                && u@.avatar_url == avatar_url.deep_view() && u@.bio == bio.deep_view() && u@.city == city.deep_view()
                && u.latitude == latitude && u.longitude == longitude
                && final(self).users() == old(self).users().insert(user_id, u@),
            r is Err ==> final(self).users() == old(self).users(),
            !old(self).users().contains_key(user_id) ==> (r matches Err(e) && e@ == ErrorView::NotFound),
            old(self).reliable() && old(self).users().contains_key(user_id) ==> r is Ok,
    ;
}

/// The stored profile still carries the identity's e-mail and display name.
pub open spec fn identity_current(u: UserView, a: crate::user::AuthUserView) -> bool {
    u.email == a.email && u.display_name == a.display_name
}

/// Whether a stored profile still carries the identity's e-mail and display name.
pub fn profile_is_current(profile: &User, user: &AuthUser) -> (b: bool)
    ensures
        b == identity_current(profile@, user@),
{
    str_eq(profile.email.as_str(), user.email.as_str()) && str_eq(profile.display_name.as_str(), user.display_name.as_str())
}

/// The profile of an identity, created on first access and refreshed when the
/// identity's e-mail or display name changed; an unchanged profile is returned as stored.
pub fn get_or_upsert_user<R: UserRepository>(repo: &mut R, user: &AuthUser) -> (r: Result<User, DomainError>)
    ensures
        r matches Ok(u) ==> u@.sub == user@.sub && u@.email == user@.email && u@.display_name == user@.display_name
            && final(repo).users().contains_key(u.id) && final(repo).users()[u.id] == u@
            && (final(repo).users() == old(repo).users() || final(repo).users() == old(repo).users().insert(u.id, u@)),
        r matches Ok(u) ==> (has_sub(old(repo).users(), user@.sub) ==> old(repo).users().contains_key(u.id)
            && old(repo).users()[u.id].sub == user@.sub),
        r is Err ==> final(repo).users() == old(repo).users(),
        old(repo).reliable() ==> r is Ok,
{
    match repo.find_by_sub(user.sub.as_str()) {
        Ok(profile) => {
            if profile_is_current(&profile, user) {
                Ok(profile)
            } else {
                repo.upsert(user)
            }
        },
        Err(e) => {
            if e.is_not_found() {
                repo.upsert(user)
            } else {
                Err(e)
            }
        },
    }
}

/// The profile `user_id`.
pub fn get_user<R: UserRepository>(repo: &R, user_id: u128) -> (r: Result<User, DomainError>)
    ensures
        r matches Ok(u) ==> repo.users().contains_key(user_id) && repo.users()[user_id] == u@,
        !repo.users().contains_key(user_id) ==> (r matches Err(e) && e@ == ErrorView::NotFound),
        repo.reliable() && repo.users().contains_key(user_id) ==> r is Ok,
{
    repo.find_by_id(user_id)
}

/// Replaces the public profile fields of `user_id`.
#[allow(clippy::too_many_arguments)]
pub fn update_profile<R: UserRepository>(
    repo: &mut R,
    user_id: u128,
    avatar_url: Option<String>,
    bio: Option<String>,
    city: Option<String>,
    latitude: Option<u64>,
    longitude: Option<u64>,
) -> (r: Result<User, DomainError>)
    ensures
        r matches Ok(u) ==> u.id == user_id && old(repo).users().contains_key(user_id)
            && u@.avatar_url == avatar_url.deep_view() && u@.bio == bio.deep_view() && u@.city == city.deep_view()
            && u.latitude == latitude && u.longitude == longitude
            && final(repo).users() == old(repo).users().insert(user_id, u@),
        r is Err ==> final(repo).users() == old(repo).users(),
        !old(repo).users().contains_key(user_id) ==> (r matches Err(e) && e@ == ErrorView::NotFound),
        old(repo).reliable() && old(repo).users().contains_key(user_id) ==> r is Ok,
{
    repo.update_profile(user_id, avatar_url, bio, city, latitude, longitude)
}

/// The profiles of `s` other than `user_id`, in order.
pub open spec fn others(s: Seq<UserView>, user_id: u128) -> Seq<UserView>
    decreases s.len(),
{
    if s.len() == 0 {
        Seq::empty()
    } else if s.last().id != user_id {
        others(s.drop_last(), user_id).push(s.last())
    } else {
        others(s.drop_last(), user_id)
    }
}

/// Drops the asking user from a list of profiles, keeping the order of the rest.
pub fn without_user(users: Vec<User>, user_id: u128) -> (r: Vec<User>)
    ensures
        users_view(r@) == others(users_view(users@), user_id),
{
    let mut out: Vec<User> = Vec::new();
    let ghost all = users_view(users@);
    let n = users.len();
    let mut i: usize = 0;
    assert(all.take(0) =~= Seq::<UserView>::empty());
    assert(users_view(out@) =~= Seq::<UserView>::empty());
    while i < n
        invariant
            n == users@.len(),
            0 <= i <= n,
            all == users_view(users@),
            users_view(out@) == others(all.take(i as int), user_id),
        decreases n - i,
    {
        let ghost before = out@;
        assert(all.take(i + 1).drop_last() =~= all.take(i as int));
        assert(all.take(i + 1).last() == users@[i as int]@);
        if users[i].id != user_id {
            out.push(users[i].duplicate());
            assert(users_view(out@) =~= users_view(before).push(users@[i as int]@));
        }
        i = i + 1;
    }
    assert(all.take(n as int) =~= all);
    out
}

/// Profiles near a point, without the asking user.
pub fn find_nearby_users<R: UserRepository>(repo: &R, user_id: u128, lat: u64, lon: u64, radius_meters: u64) -> (r: Result<Vec<User>, DomainError>)
    ensures
        r matches Ok(v) ==> forall|i: int| 0 <= i < v@.len() ==> (#[trigger] v@[i]).id != user_id
            && repo.users().contains_key(v@[i].id) && repo.users()[v@[i].id] == v@[i]@,
        r matches Ok(v) ==> forall|i: int| 0 <= i < v@.len() ==> repo.near(lat, lon, radius_meters, #[trigger] v@[i]@),
        r matches Ok(v) ==> forall|k: u128| #[trigger] repo.users().contains_key(k) && k != user_id
            && repo.users()[k].latitude is Some && repo.users()[k].longitude is Some
            && repo.near(lat, lon, radius_meters, repo.users()[k])
            ==> exists|i: int| 0 <= i < v@.len() && v@[i].id == k,
        repo.reliable() ==> r is Ok,
{
    match repo.find_nearby(lat, lon, radius_meters) {
        Ok(users) => {
            let ghost found = users_view(users@);
            let kept = without_user(users, user_id);
            proof {
                lemma_others(found, user_id);
                assert forall|i: int| 0 <= i < kept@.len() implies (#[trigger] kept@[i]).id != user_id
                    && repo.users().contains_key(kept@[i].id) && repo.users()[kept@[i].id] == kept@[i]@ by {
                    assert(users_view(kept@)[i] == kept@[i]@);
                    let j = choose|j: int| 0 <= j < found.len() && found[j] == others(found, user_id)[i];
                    assert(found[j] == users_view(users@)[j]);
                }
                assert forall|i: int| 0 <= i < kept@.len() implies repo.near(lat, lon, radius_meters, #[trigger] kept@[i]@) by {
                    assert(users_view(kept@)[i] == kept@[i]@);
                    let j = choose|j: int| 0 <= j < found.len() && found[j] == others(found, user_id)[i];
                    assert(found[j] == users@[j]@);
                    assert(repo.near(lat, lon, radius_meters, users@[j]@));
                }
                assert forall|k: u128| #[trigger] repo.users().contains_key(k) && k != user_id
                    && repo.users()[k].latitude is Some && repo.users()[k].longitude is Some
                    && repo.near(lat, lon, radius_meters, repo.users()[k])
                    implies exists|i: int| 0 <= i < kept@.len() && kept@[i].id == k by {
                    let j = choose|j: int| 0 <= j < users@.len() && users@[j].id == k;
                    assert(found[j] == users@[j]@);
                    assert(found[j].id != user_id);
                    let i = choose|i: int| 0 <= i < others(found, user_id).len() && others(found, user_id)[i] == found[j];
                    assert(users_view(kept@)[i] == kept@[i]@);
                    assert(kept@[i].id == k);
                }
            }
            Ok(kept)
        },
        Err(e) => Err(e),
    }
}

/// Every profile kept is a profile of `s` other than `user_id`, and every such profile is kept.
pub proof fn lemma_others(s: Seq<UserView>, user_id: u128)
    ensures
        forall|j: int| 0 <= j < others(s, user_id).len() ==> (#[trigger] others(s, user_id)[j]).id != user_id
            && exists|i: int| 0 <= i < s.len() && s[i] == others(s, user_id)[j],
        forall|i: int| 0 <= i < s.len() && (#[trigger] s[i]).id != user_id
            ==> exists|j: int| 0 <= j < others(s, user_id).len() && others(s, user_id)[j] == s[i],
    decreases s.len(),
{
    if s.len() > 0 {
        let t = s.drop_last();
        lemma_others(t, user_id);
        let a = others(t, user_id);
        assert forall|j: int| 0 <= j < others(s, user_id).len() implies (#[trigger] others(s, user_id)[j]).id != user_id
            && exists|i: int| 0 <= i < s.len() && s[i] == others(s, user_id)[j] by {
            if j < a.len() {
                assert(others(s, user_id)[j] == a[j]);
                let i = choose|i: int| 0 <= i < t.len() && t[i] == a[j];
                assert(s[i] == a[j]);
            } else {
                assert(s[s.len() - 1] == others(s, user_id)[j]);
            }
        }
        assert forall|i: int| 0 <= i < s.len() && (#[trigger] s[i]).id != user_id
            implies exists|j: int| 0 <= j < others(s, user_id).len() && others(s, user_id)[j] == s[i] by {
            if i < t.len() {
                assert(t[i] == s[i]);
                let j = choose|j: int| 0 <= j < a.len() && a[j] == t[i];
                assert(others(s, user_id)[j] == a[j]);
            } else {
                assert(others(s, user_id)[a.len() as int] == s[i]);
            }
        }
    }
}

/// Profiles near a point whose interests resemble the asking user's; a user
/// without an interest embedding is refused.
pub fn find_nearby_by_interests<R: UserRepository, I: UserInterestsRepository>(
    user_repo: &R,
    interests_repo: &I,
    user_id: u128,
    lat: u64,
    lon: u64,
    radius_meters: u64,
) -> (r: Result<Vec<User>, DomainError>)
    ensures
        r matches Ok(v) ==> forall|i: int| 0 <= i < v@.len() ==> user_repo.near(lat, lon, radius_meters, #[trigger] v@[i]@),
        r matches Ok(v) ==> lists_located(user_repo.users(), users_view(v@))
            && interests_repo.stored().contains_key(user_id)
            && interests_repo.stored()[user_id].embedding is Some,
        !interests_repo.stored().contains_key(user_id) || interests_repo.stored()[user_id].embedding is None ==> r is Err,
        interests_repo.reliable() && (!interests_repo.stored().contains_key(user_id)
            || interests_repo.stored()[user_id].embedding is None)
            ==> (r matches Err(e) && e@ == ErrorView::InvalidInput("no interest embedding found"@)),
        interests_repo.reliable() && user_repo.reliable() && interests_repo.stored().contains_key(user_id)
            && interests_repo.stored()[user_id].embedding is Some ==> r is Ok,
{
    let found = match interests_repo.find_by_user(user_id) {
        Ok(f) => f,
        Err(e) => return Err(e),
    };
    let embedding = match found {
        Some(i) => match i.embedding {
            Some(e) => e,
            None => return Err(DomainError::invalid_input("no interest embedding found")),
        },
        None => return Err(DomainError::invalid_input("no interest embedding found")),
    };
    user_repo.find_nearby_by_interests(lat, lon, radius_meters, &embedding)
}

} // verus!
