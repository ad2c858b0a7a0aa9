use vstd::prelude::*;
use crate::error::DomainError;
use crate::json::{JsonValue, JsonView};
use crate::interests::{UserInterests, UserInterestsRepository, UserInterestsView};
use crate::ports::LlmService;
use crate::text::{copy_str, str_eq};
use crate::user::{ApiUsage, AuthUser, StorageUsage, Tier, User, UserView};
use crate::users::{UserRepository, has_sub, lists_located, users_view, with_subscription};

verus! {

// ── Profiles ─────────────────────────────────────────────────────────────────

/// No two profiles of `s` share an id.
pub open spec fn unique_user_ids(s: Seq<User>) -> bool {
    forall|i: int, j: int| 0 <= i < j < s.len() ==> s[i].id != s[j].id
}

/// Position of the profile with id `k` in `s`.
pub open spec fn user_index(s: Seq<User>, k: u128) -> int {
    choose|i: int| 0 <= i < s.len() && s[i].id == k
}

/// The profiles of `s`, keyed by id.
pub open spec fn profiles_of(s: Seq<User>) -> Map<u128, UserView> {
    Map::new(
        |k: u128| exists|i: int| 0 <= i < s.len() && s[i].id == k,
        |k: u128| s[user_index(s, k)]@,
    )
}

proof fn lemma_profile_at(s: Seq<User>, i: int)
    requires
        unique_user_ids(s),
        0 <= i < s.len(),
    ensures
        profiles_of(s).contains_key(s[i].id),
        profiles_of(s)[s[i].id] == s[i]@,
{
    assert(profiles_of(s).dom().contains(s[i].id));
    let j = user_index(s, s[i].id);
    if j != i {
        if j < i {
            assert(s[j].id != s[i].id);
        } else {
            assert(s[i].id != s[j].id);
        }
    }
}

proof fn lemma_profile_update(s: Seq<User>, i: int, u: User)
    requires
        unique_user_ids(s),
        0 <= i < s.len(),
        s[i].id == u.id,
    ensures
        unique_user_ids(s.update(i, u)),
        profiles_of(s.update(i, u)) == profiles_of(s).insert(u.id, u@),
{
    let t = s.update(i, u);
    assert forall|a: int, b: int| 0 <= a < b < t.len() implies t[a].id != t[b].id by {
        assert(t[a].id == s[a].id && t[b].id == s[b].id);
    }
    assert forall|k: u128| #[trigger] profiles_of(t).contains_key(k) <==> profiles_of(s).insert(u.id, u@).contains_key(k) by {
        if profiles_of(s).contains_key(k) {
            let w = choose|w: int| 0 <= w < s.len() && s[w].id == k;
            assert(t[w].id == k);
        }
        if profiles_of(t).contains_key(k) {
            let w = choose|w: int| 0 <= w < t.len() && t[w].id == k;
            assert(s[w].id == k);
        }
    }
    assert forall|k: u128| #[trigger] profiles_of(t).contains_key(k) implies profiles_of(t)[k] == profiles_of(s).insert(u.id, u@)[k] by {
        let w = choose|w: int| 0 <= w < t.len() && t[w].id == k;
        lemma_profile_at(t, w);
        if w != i {
            lemma_profile_at(s, w);
        }
    }
    assert(profiles_of(t) =~= profiles_of(s).insert(u.id, u@));
}

proof fn lemma_profile_push(s: Seq<User>, u: User)
    requires
        unique_user_ids(s),
        !profiles_of(s).contains_key(u.id),
    ensures
        unique_user_ids(s.push(u)),
        profiles_of(s.push(u)) == profiles_of(s).insert(u.id, u@),
{
    let t = s.push(u);
    assert forall|a: int, b: int| 0 <= a < b < t.len() implies t[a].id != t[b].id by {
        if b == s.len() {
            assert(t[a] == s[a]);
            if s[a].id == u.id {
                assert(profiles_of(s).dom().contains(u.id));
            }
        } else {
            assert(t[a] == s[a] && t[b] == s[b]);
        }
    }
    assert forall|k: u128| #[trigger] profiles_of(t).contains_key(k) <==> profiles_of(s).insert(u.id, u@).contains_key(k) by {
        if profiles_of(s).contains_key(k) {
            let w = choose|w: int| 0 <= w < s.len() && s[w].id == k;
            assert(t[w].id == k);
        }
        if k == u.id {
            assert(t[s.len() as int].id == k);
        }
        if profiles_of(t).contains_key(k) && k != u.id {
            let w = choose|w: int| 0 <= w < t.len() && t[w].id == k;
            assert(s[w].id == k);
        }
    }
    assert forall|k: u128| #[trigger] profiles_of(t).contains_key(k) implies profiles_of(t)[k] == profiles_of(s).insert(u.id, u@)[k] by {
        let w = choose|w: int| 0 <= w < t.len() && t[w].id == k;
        lemma_profile_at(t, w);
        if w < s.len() {
            assert(t[w] == s[w]);
            lemma_profile_at(s, w);
        }
    }
    assert(profiles_of(t) =~= profiles_of(s).insert(u.id, u@));
}

/// The profile a fresh identity gets: the identity's fields, the `Free` tier, no
/// usage, nothing else set, every instant `now`.
pub open spec fn spec_new_profile(id: u128, user: crate::user::AuthUserView, now: i128) -> UserView {
    UserView {
        id,
        sub: user.sub,
        email: user.email,
        display_name: user.display_name,
        avatar_url: None,
        bio: None,
        city: None,
        latitude: None,
        longitude: None,
        tier: Tier::Free,
        api_usage: 0,
        storage_usage: 0,
        billing_customer_id: None,
        billing_period_start: now,
        created_at: now,
        updated_at: now,
        archived_at: None,
    }
}

/// Every stored profile with coordinates is listed in `v`.
pub open spec fn covers_located(m: Map<u128, UserView>, v: Seq<User>) -> bool {
    forall|k: u128| #[trigger] m.contains_key(k) && m[k].latitude is Some && m[k].longitude is Some
        ==> exists|i: int| 0 <= i < v.len() && v[i].id == k
}

/// An in-memory profile repository, for tests and local runs.
pub struct FakeUserProfileRepository {
    profiles: Vec<User>,
}

impl FakeUserProfileRepository {
    #[verifier::type_invariant]
    spec fn ids_unique(self) -> bool {
        unique_user_ids(self.profiles@)
    }

    /// The profiles held, by id.
    pub closed spec fn held(&self) -> Map<u128, UserView> {
        profiles_of(self.profiles@)
    }

    /// An empty repository.
    pub fn new() -> (r: Self)
        ensures
            r.held() == Map::<u128, UserView>::empty(),
    {
        let r = FakeUserProfileRepository { profiles: Vec::new() };
        assert(r.held() =~= Map::<u128, UserView>::empty());
        r
    }

    /// Position of the profile with id `id`.
    fn position(&self, id: u128) -> (r: Option<usize>)
        ensures
            match r {
                Some(i) => i < self.profiles@.len() && self.profiles@[i as int].id == id,
                None => !self.held().contains_key(id),
            },
    {
        let mut i: usize = 0;
        while i < self.profiles.len()
            invariant
                0 <= i <= self.profiles@.len(),
                forall|j: int| 0 <= j < i ==> self.profiles@[j].id != id,
            decreases self.profiles.len() - i,
        {
            if self.profiles[i].id == id {
                return Some(i);
            }
            i = i + 1;
        }
        None
    }

    /// Position of the first profile with subject `sub`.
    fn position_of_sub(&self, sub: &str) -> (r: Option<usize>)
        ensures
            match r {
                Some(i) => i < self.profiles@.len() && self.profiles@[i as int]@.sub == sub@,
                None => !has_sub(self.held(), sub@),
            },
    {
        proof {
            use_type_invariant(self);
        }
        let mut i: usize = 0;
        while i < self.profiles.len()
            invariant
                unique_user_ids(self.profiles@),
                0 <= i <= self.profiles@.len(),
                forall|j: int| 0 <= j < i ==> self.profiles@[j]@.sub != sub@,
            decreases self.profiles.len() - i,
        {
            if str_eq(self.profiles[i].sub.as_str(), sub) {
                return Some(i);
            }
            i = i + 1;
        }
        proof {
            assert forall|k: u128| #[trigger] self.held().contains_key(k) implies self.held()[k].sub != sub@ by {
                let w = choose|w: int| 0 <= w < self.profiles@.len() && self.profiles@[w].id == k;
                lemma_profile_at(self.profiles@, w);
            }
        }
        None
    }

    /// Stores `profile`, replacing any profile with its id.
    pub fn put(&mut self, profile: User)
        ensures
            final(self).held() == old(self).held().insert(profile.id, profile@),
    {
        proof {
            use_type_invariant(&*self);
        }
        let pos = self.position(profile.id);
        let mut items: Vec<User> = Vec::new();
        std::mem::swap(&mut items, &mut self.profiles);
        match pos {
            Some(i) => {
                proof {
                    lemma_profile_update(items@, i as int, profile);
                }
                items.set(i, profile);
            },
            None => {
                proof {
                    lemma_profile_push(items@, profile);
                }
                items.push(profile);
            },
        }
        self.profiles = items;
    }

    /// The repository with `profile` added.
    pub fn with_profile(self, profile: User) -> (r: Self)
        ensures
            r.held() == self.held().insert(profile.id, profile@),
    {
        let mut r = self;
        r.put(profile);
        r
    }
}

impl UserRepository for FakeUserProfileRepository {
    open spec fn users(&self) -> Map<u128, UserView> {
        self.held()
    }

    /// Memory never refuses.
    open spec fn reliable(&self) -> bool {
        true
    }

    /// The in-memory store counts every located profile as near any point.
    open spec fn near(&self, lat: u64, lon: u64, radius_meters: u64, profile: UserView) -> bool {
        true
    }

    fn find_by_id(&self, user_id: u128) -> (r: Result<User, DomainError>) {
        proof {
            use_type_invariant(self);
        }
        match self.position(user_id) {
            Some(i) => {
                proof {
                    lemma_profile_at(self.profiles@, i as int);
                }
                Ok(self.profiles[i].duplicate())
            },
            None => Err(DomainError::NotFound),
        }
    }

    fn find_by_sub(&self, user_sub: &str) -> (r: Result<User, DomainError>) {
        proof {
            use_type_invariant(self);
        }
        match self.position_of_sub(user_sub) {
            Some(i) => {
                proof {
                    lemma_profile_at(self.profiles@, i as int);
                }
                Ok(self.profiles[i].duplicate())
            },
            None => Err(DomainError::NotFound),
        }
    }

    /// The profile keeps the id of a profile already stored with the identity's
    /// subject, and is otherwise new; either way it is a fresh profile of the identity.
    fn upsert(&mut self, user: &AuthUser) -> (r: Result<User, DomainError>)
        ensures
            r is Ok,
            r matches Ok(u) ==> (exists|now: i128| u@ == spec_new_profile(u.id, user@, now))
                && (has_sub(old(self).users(), user@.sub) ==> old(self).users().contains_key(u.id)
                    && old(self).users()[u.id].sub == user@.sub),
    {
        proof {
            use_type_invariant(&*self);
        }
        let now = crate::clock::now_nanos();
        let id = match self.position_of_sub(user.sub.as_str()) {
            Some(i) => {
                proof {
                    lemma_profile_at(self.profiles@, i as int);
                }
                self.profiles[i].id
            },
            None => crate::clock::new_id(),
        };
        let profile = User {
            id,
            sub: copy_str(user.sub.as_str()),
            email: copy_str(user.email.as_str()),
            display_name: copy_str(user.display_name.as_str()),
            avatar_url: None,
            bio: None,
            city: None,
            latitude: None,
            longitude: None,
            tier: Tier::Free,
            api_usage: ApiUsage(0),
            storage_usage: StorageUsage(0),
            billing_customer_id: None,
            billing_period_start: now,
            created_at: now,
            updated_at: now,
            archived_at: None,
        };
        assert(profile@ == spec_new_profile(id, user@, now));
        let stored = profile.duplicate();
        self.put(stored);
        Ok(profile)
    }

    fn find_by_billing_customer_id(&self, customer_id: &str) -> (r: Result<User, DomainError>)
        ensures
            r is Err ==> forall|k: u128| #[trigger] self.users().contains_key(k)
                ==> self.users()[k].billing_customer_id != Some(customer_id@),
    {
        proof {
            use_type_invariant(self);
        }
        let mut i: usize = 0;
        while i < self.profiles.len()
            invariant
                unique_user_ids(self.profiles@),
                0 <= i <= self.profiles@.len(),
                forall|j: int| 0 <= j < i ==> self.profiles@[j]@.billing_customer_id != Some(customer_id@),
            decreases self.profiles.len() - i,
        {
            let matches = match &self.profiles[i].billing_customer_id {
                Some(c) => str_eq(c.as_str(), customer_id),
                None => false,
            };
            if matches {
                proof {
                    lemma_profile_at(self.profiles@, i as int);
                }
                return Ok(self.profiles[i].duplicate());
            }
            i = i + 1;
        }
        proof {
            assert forall|k: u128| #[trigger] self.held().contains_key(k)
                implies self.held()[k].billing_customer_id != Some(customer_id@) by {
                let w = choose|w: int| 0 <= w < self.profiles@.len() && self.profiles@[w].id == k;
                lemma_profile_at(self.profiles@, w);
            }
        }
        Err(DomainError::NotFound)
    }

    /// Every stored profile with coordinates, whatever the point and radius.
    fn find_nearby(&self, lat: u64, lon: u64, radius_meters: u64) -> (r: Result<Vec<User>, DomainError>)
        ensures
            r matches Ok(v) && covers_located(self.users(), v@),
    {
        proof {
            use_type_invariant(self);
        }
        let ghost s = self.profiles@;
        let mut out: Vec<User> = Vec::new();
        let mut i: usize = 0;
        while i < self.profiles.len()
            invariant
                s == self.profiles@,
                unique_user_ids(s),
                0 <= i <= s.len(),
                lists_located(profiles_of(s), users_view(out@)),
                forall|j: int| 0 <= j < i && (#[trigger] s[j]).latitude is Some && s[j].longitude is Some
                    ==> exists|a: int| 0 <= a < out@.len() && out@[a].id == s[j].id,
            decreases s.len() - i,
        {
            if self.profiles[i].latitude.is_some() && self.profiles[i].longitude.is_some() {
                let ghost before = out@;
                proof {
                    lemma_profile_at(s, i as int);
                }
                out.push(self.profiles[i].duplicate());
                proof {
                    assert(users_view(out@) =~= users_view(before).push(s[i as int]@));
                    assert forall|j: int| 0 <= j < i + 1 && (#[trigger] s[j]).latitude is Some && s[j].longitude is Some
                        implies exists|a: int| 0 <= a < out@.len() && out@[a].id == s[j].id by {
                        if j < i {
                            let a = choose|a: int| 0 <= a < before.len() && before[a].id == s[j].id;
                            assert(out@[a] == before[a]);
                        } else {
                            assert(out@[before.len() as int].id == s[j].id);
                        }
                    }
                }
            }
            i = i + 1;
        }
        proof {
            assert forall|k: u128| #[trigger] self.users().contains_key(k)
                && self.users()[k].latitude is Some && self.users()[k].longitude is Some
                implies exists|a: int| 0 <= a < out@.len() && out@[a].id == k by {
                let w = choose|w: int| 0 <= w < s.len() && s[w].id == k;
                lemma_profile_at(s, w);
            }
        }
        Ok(out)
    }

    /// No profile: the in-memory store keeps no interests to compare.
    fn find_nearby_by_interests(&self, lat: u64, lon: u64, radius_meters: u64, embedding: &Vec<u32>) -> (r: Result<Vec<User>, DomainError>)
        ensures
            r matches Ok(v) && v@.len() == 0,
    {
        let out: Vec<User> = Vec::new();
        assert(users_view(out@) =~= Seq::<UserView>::empty());
        Ok(out)
    }

    fn update_subscription(&mut self, user_id: u128, tier: Tier, stripe_customer_id: Option<String>) -> (r: Result<(), DomainError>) {
        proof {
            use_type_invariant(&*self);
        }
        match self.position(user_id) {
            Some(i) => {
                proof {
                    lemma_profile_at(self.profiles@, i as int);
                }
                let mut profile = self.profiles[i].duplicate();
                let ghost before = profile@;
                profile.tier = tier;
                match stripe_customer_id {
                    Some(c) => {
                        profile.billing_customer_id = Some(c);
                    },
                    None => {},
                }
                assert(profile@ == with_subscription(before, tier, stripe_customer_id.deep_view()));
                self.put(profile);
                Ok(())
            },
            None => Err(DomainError::NotFound),
        }
    }

    /// The profile's public fields replaced, its update instant set to the current time.
    fn update_profile(
        &mut self,
        user_id: u128,
        avatar_url: Option<String>,
        bio: Option<String>,
        city: Option<String>,
        latitude: Option<u64>,
        longitude: Option<u64>,
    ) -> (r: Result<User, DomainError>) {
        proof {
            use_type_invariant(&*self);
        }
        match self.position(user_id) {
            Some(i) => {
                proof {
                    lemma_profile_at(self.profiles@, i as int);
                }
                let mut profile = self.profiles[i].duplicate();
                profile.avatar_url = avatar_url;
                profile.bio = bio;
                profile.city = city;
                profile.latitude = latitude;
                profile.longitude = longitude;
                profile.updated_at = crate::clock::now_nanos();
                let stored = profile.duplicate();
                self.put(stored);
                Ok(profile)
            },
            None => Err(DomainError::NotFound),
        }
    }
}

// ── Interests ────────────────────────────────────────────────────────────────

/// No two records of `s` belong to the same user.
pub open spec fn unique_owners(s: Seq<UserInterests>) -> bool {
    forall|i: int, j: int| 0 <= i < j < s.len() ==> s[i].user_id != s[j].user_id
}

/// Position of the record of user `k` in `s`.
pub open spec fn owner_index(s: Seq<UserInterests>, k: u128) -> int {
    choose|i: int| 0 <= i < s.len() && s[i].user_id == k
}

/// The records of `s`, keyed by user.
pub open spec fn interests_of(s: Seq<UserInterests>) -> Map<u128, UserInterestsView> {
    Map::new(
        |k: u128| exists|i: int| 0 <= i < s.len() && s[i].user_id == k,
        |k: u128| s[owner_index(s, k)]@,
    )
}

proof fn lemma_interests_at(s: Seq<UserInterests>, i: int)
    requires
        unique_owners(s),
        0 <= i < s.len(),
    ensures
        interests_of(s).contains_key(s[i].user_id),
        interests_of(s)[s[i].user_id] == s[i]@,
{
    assert(interests_of(s).dom().contains(s[i].user_id));
    let j = owner_index(s, s[i].user_id);
    if j != i {
        if j < i {
            assert(s[j].user_id != s[i].user_id);
        } else {
            assert(s[i].user_id != s[j].user_id);
        }
    }
}

proof fn lemma_interests_update(s: Seq<UserInterests>, i: int, x: UserInterests)
    requires
        unique_owners(s),
        0 <= i < s.len(),
        s[i].user_id == x.user_id,
    ensures
        unique_owners(s.update(i, x)),
        interests_of(s.update(i, x)) == interests_of(s).insert(x.user_id, x@),
{
    let t = s.update(i, x);
    assert forall|a: int, b: int| 0 <= a < b < t.len() implies t[a].user_id != t[b].user_id by {
        assert(t[a].user_id == s[a].user_id && t[b].user_id == s[b].user_id);
    }
    assert forall|k: u128| #[trigger] interests_of(t).contains_key(k) <==> interests_of(s).insert(x.user_id, x@).contains_key(k) by {
        if interests_of(s).contains_key(k) {
            let w = choose|w: int| 0 <= w < s.len() && s[w].user_id == k;
            assert(t[w].user_id == k);
        }
        if interests_of(t).contains_key(k) {
            let w = choose|w: int| 0 <= w < t.len() && t[w].user_id == k;
            assert(s[w].user_id == k);
        }
    }
    assert forall|k: u128| #[trigger] interests_of(t).contains_key(k) implies interests_of(t)[k] == interests_of(s).insert(x.user_id, x@)[k] by {
        let w = choose|w: int| 0 <= w < t.len() && t[w].user_id == k;
        lemma_interests_at(t, w);
        if w != i {
            lemma_interests_at(s, w);
        }
    }
    assert(interests_of(t) =~= interests_of(s).insert(x.user_id, x@));
}

proof fn lemma_interests_push(s: Seq<UserInterests>, x: UserInterests)
    requires
        unique_owners(s),
        !interests_of(s).contains_key(x.user_id),
    ensures
        unique_owners(s.push(x)),
        interests_of(s.push(x)) == interests_of(s).insert(x.user_id, x@),
{
    let t = s.push(x);
    assert forall|a: int, b: int| 0 <= a < b < t.len() implies t[a].user_id != t[b].user_id by {
        if b == s.len() {
            assert(t[a] == s[a]);
            if s[a].user_id == x.user_id {
                assert(interests_of(s).dom().contains(x.user_id));
            }
        } else {
            assert(t[a] == s[a] && t[b] == s[b]);
        }
    }
    assert forall|k: u128| #[trigger] interests_of(t).contains_key(k) <==> interests_of(s).insert(x.user_id, x@).contains_key(k) by {
        if interests_of(s).contains_key(k) {
            let w = choose|w: int| 0 <= w < s.len() && s[w].user_id == k;
            assert(t[w].user_id == k);
        }
        if k == x.user_id {
            assert(t[s.len() as int].user_id == k);
        }
        if interests_of(t).contains_key(k) && k != x.user_id {
            let w = choose|w: int| 0 <= w < t.len() && t[w].user_id == k;
            assert(s[w].user_id == k);
        }
    }
    assert forall|k: u128| #[trigger] interests_of(t).contains_key(k) implies interests_of(t)[k] == interests_of(s).insert(x.user_id, x@)[k] by {
        let w = choose|w: int| 0 <= w < t.len() && t[w].user_id == k;
        lemma_interests_at(t, w);
        if w < s.len() {
            assert(t[w] == s[w]);
            lemma_interests_at(s, w);
        }
    }
    assert(interests_of(t) =~= interests_of(s).insert(x.user_id, x@));
}

/// An in-memory store of interests, for tests and local runs.
pub struct FakeUserInterestsRepository {
    records: Vec<UserInterests>,
}

impl FakeUserInterestsRepository {
    #[verifier::type_invariant]
    spec fn owners_unique(self) -> bool {
        unique_owners(self.records@)
    }

    /// The records held, by user.
    pub closed spec fn held(&self) -> Map<u128, UserInterestsView> {
        interests_of(self.records@)
    }

    /// An empty store.
    pub fn new() -> (r: Self)
        ensures
            r.held() == Map::<u128, UserInterestsView>::empty(),
    {
        let r = FakeUserInterestsRepository { records: Vec::new() };
        assert(r.held() =~= Map::<u128, UserInterestsView>::empty());
        r
    }

    fn position(&self, user_id: u128) -> (r: Option<usize>)
        ensures
            match r {
                Some(i) => i < self.records@.len() && self.records@[i as int].user_id == user_id,
                None => !self.held().contains_key(user_id),
            },
    {
        let mut i: usize = 0;
        while i < self.records.len()
            invariant
                0 <= i <= self.records@.len(),
                forall|j: int| 0 <= j < i ==> self.records@[j].user_id != user_id,
            decreases self.records.len() - i,
        {
            if self.records[i].user_id == user_id {
                return Some(i);
            }
            i = i + 1;
        }
        None
    }

    /// Stores `record` as the record of its user.
    pub fn put(&mut self, record: UserInterests)
        ensures
            final(self).held() == old(self).held().insert(record.user_id, record@),
    {
        proof {
            use_type_invariant(&*self);
        }
        let pos = self.position(record.user_id);
        let mut items: Vec<UserInterests> = Vec::new();
        std::mem::swap(&mut items, &mut self.records);
        match pos {
            Some(i) => {
                proof {
                    lemma_interests_update(items@, i as int, record);
                }
                items.set(i, record);
            },
            None => {
                proof {
                    lemma_interests_push(items@, record);
                }
                items.push(record);
            },
        }
        self.records = items;
    }
}

impl UserInterestsRepository for FakeUserInterestsRepository {
    open spec fn stored(&self) -> Map<u128, UserInterestsView> {
        self.held()
    }

    /// Memory never refuses.
    open spec fn reliable(&self) -> bool {
        true
    }

    /// Always answers: the record of `user_id`, or `None`.
    fn find_by_user(&self, user_id: u128) -> (r: Result<Option<UserInterests>, DomainError>)
        ensures
            r is Ok,
    {
        proof {
            use_type_invariant(self);
        }
        match self.position(user_id) {
            Some(i) => {
                proof {
                    lemma_interests_at(self.records@, i as int);
                }
                Ok(Some(self.records[i].duplicate()))
            },
            None => Ok(None),
        }
    }

    /// The record is stored with its update instant set to the current time; the
    /// store never refuses.
    fn upsert(&mut self, interests: &UserInterests) -> (r: Result<UserInterests, DomainError>)
        ensures
            r is Ok,
    {
        let mut record = interests.duplicate();
        record.updated_at = crate::clock::now_nanos();
        let stored = record.duplicate();
        self.put(stored);
        Ok(record)
    }
}

// ── Language model ───────────────────────────────────────────────────────────

/// A language model service for tests: fixed answers, whatever is asked.
pub struct FakeAiService {
    pub models: Vec<String>,
    pub simple_response: String,
    pub structured_response: JsonValue,
}

/// The number of components of the fake embedding.
pub open spec fn fake_embedding_len() -> nat {
    1536
}

impl FakeAiService {
    /// The fake service: one model `fake`, a fixed sentence as plain answer, and a
    /// grade of 5 with a fixed summary as structured answer.
    pub fn new() -> (s: Self)
        ensures
            s.models.deep_view() == seq!["fake"@],
            s.simple_response@ == "This is a fake AI response."@,
            s.structured_response@ == JsonView::Object(seq![
                ("score"@, JsonView::Number("5"@)),
                ("summary"@, JsonView::Str("Fake AI summary."@)),
            ]),
    {
        let mut models: Vec<String> = Vec::new();
        models.push(copy_str("fake"));
        let mut members: Vec<(String, JsonValue)> = Vec::new();
        members.push((copy_str("score"), JsonValue::Number(copy_str("5"))));
        members.push((copy_str("summary"), JsonValue::Str(copy_str("Fake AI summary."))));
        let s = Self {
            models,
            simple_response: copy_str("This is a fake AI response."),
            structured_response: JsonValue::Object(members),
        };
        proof {
            assert(s.models.deep_view() =~= seq!["fake"@]);
            reveal_with_fuel(crate::json::entries_view, 3);
            assert(crate::json::entries_view(members@) =~= seq![
                ("score"@, JsonView::Number("5"@)),
                ("summary"@, JsonView::Str("Fake AI summary."@)),
            ]);
        }
        s
    }
}

fn copy_strings(v: &Vec<String>) -> (r: Vec<String>)
    ensures
        r.deep_view() == v.deep_view(),
{
    let mut out: Vec<String> = Vec::new();
    let mut i: usize = 0;
    while i < v.len()
        invariant
            i <= v@.len(),
            out.deep_view() == v.deep_view().take(i as int),
        decreases v.len() - i,
    {
        let ghost before = out.deep_view();
        let c = copy_str(v[i].as_str());
        out.push(c);
        assert(out.deep_view() =~= before.push(c@));
        assert(v.deep_view().take(i + 1) =~= v.deep_view().take(i as int).push(v@[i as int]@));
        i = i + 1;
    }
    assert(v.deep_view().take(v@.len() as int) =~= v.deep_view());
    out
}

impl LlmService for FakeAiService {
    open spec fn answers(&self, model: Seq<char>, system_prompt: Seq<char>, user_message: Seq<char>, answer: Seq<char>) -> bool {
        answer == self.simple_response@
    }

    open spec fn structured_answers(&self, model: Seq<char>, system_prompt: Seq<char>, user_message: Seq<char>, schema: JsonView, answer: JsonView) -> bool {
        answer == self.structured_response@
    }

    open spec fn embeds(&self, model: Seq<char>, input: Seq<char>, embedding: Seq<u32>) -> bool {
        embedding == Seq::new(fake_embedding_len(), |i: int| 0u32)
    }

    open spec fn refuses(&self, model: Seq<char>, system_prompt: Seq<char>, user_message: Seq<char>, error: crate::error::ErrorView) -> bool {
        false
    }

    open spec fn refuses_structured(&self, model: Seq<char>, system_prompt: Seq<char>, user_message: Seq<char>, schema: JsonView, error: crate::error::ErrorView) -> bool {
        false
    }

    open spec fn refuses_embedding(&self, model: Seq<char>, input: Seq<char>, error: crate::error::ErrorView) -> bool {
        false
    }

    fn available_models(&self) -> (r: Vec<String>)
        ensures
            r.deep_view() == self.models.deep_view(),
    {
        copy_strings(&self.models)
    }

    fn get_simple_response(&self, model: &str, system_prompt: &str, user_message: &str) -> (r: Result<String, DomainError>)
        ensures
            r matches Ok(s) && s@ == self.simple_response@,
    {
        Ok(copy_str(self.simple_response.as_str()))
    }

    fn get_structured_response(&self, model: &str, system_prompt: &str, user_message: &str, schema: &JsonValue) -> (r: Result<JsonValue, DomainError>)
        ensures
            r matches Ok(d) && d@ == self.structured_response@,
    {
        Ok(self.structured_response.duplicate())
    }

    fn embed(&self, model: &str, input: &str) -> (r: Result<Vec<u32>, DomainError>)
        ensures
            r matches Ok(v) && v@ == Seq::new(fake_embedding_len(), |i: int| 0u32),
    {
        let v = vec![0u32; 1536];
        assert(v@ =~= Seq::new(fake_embedding_len(), |i: int| 0u32));
        Ok(v)
    }
}

} // verus!
