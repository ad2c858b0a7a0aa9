use vstd::prelude::*;
use crate::error::{DomainError, ErrorView, result_view};
use crate::text::{copy_str, copy_opt_str};

verus! {

/// An event hosted by a user. Instants are nanoseconds since the Unix epoch;
/// coordinates are the bit patterns of IEEE-754 doubles, carried through unchanged.
#[derive(Debug, Clone)]
pub struct Event {
    pub id: u128,
    pub host_id: u128,
    pub title: String,
    pub description: Option<String>,
    pub address: Option<String>,
    pub latitude: Option<u64>,
    pub longitude: Option<u64>,
    pub start_time: i128,
    pub max_capacity: Option<i32>,
    pub created_at: i128,
}

/// Model of an [`Event`].
pub struct EventView {
    pub id: u128,
    pub host_id: u128,
    pub title: Seq<char>,
    pub description: Option<Seq<char>>,
    pub address: Option<Seq<char>>,
    pub latitude: Option<u64>,
    pub longitude: Option<u64>,
    pub start_time: i128,
    pub max_capacity: Option<i32>,
    pub created_at: i128,
}

impl View for Event {
    type V = EventView;

    open spec fn view(&self) -> EventView {
        EventView {
            id: self.id,
            host_id: self.host_id,
            title: self.title@,
            description: self.description.deep_view(),
            address: self.address.deep_view(),
            latitude: self.latitude,
            longitude: self.longitude,
            start_time: self.start_time,
            max_capacity: self.max_capacity,
            created_at: self.created_at,
        }
    }
}

impl DeepView for Event {
    type V = EventView;

    open spec fn deep_view(&self) -> EventView {
        self@
    }
}

/// The details of an event that its host chooses.
pub struct EventDetails {
    pub title: String,
    pub description: Option<String>,
    pub address: Option<String>,
    pub latitude: Option<u64>,
    pub longitude: Option<u64>,
    pub start_time: i128,
    pub max_capacity: Option<i32>,
}

/// Model of [`EventDetails`].
pub struct EventDetailsView {
    pub title: Seq<char>,
    pub description: Option<Seq<char>>,
    pub address: Option<Seq<char>>,
    pub latitude: Option<u64>,
    pub longitude: Option<u64>,
    pub start_time: i128,
    pub max_capacity: Option<i32>,
}

impl View for EventDetails {
    type V = EventDetailsView;

    open spec fn view(&self) -> EventDetailsView {
        EventDetailsView {
            title: self.title@,
            description: self.description.deep_view(),
            address: self.address.deep_view(),
            latitude: self.latitude,
            longitude: self.longitude,
            start_time: self.start_time,
            max_capacity: self.max_capacity,
        }
    }
}

/// The details of an event, as its host chose them.
pub open spec fn details_of(e: EventView) -> EventDetailsView {
    EventDetailsView {
        title: e.title,
        description: e.description,
        address: e.address,
        latitude: e.latitude,
        longitude: e.longitude,
        start_time: e.start_time,
        max_capacity: e.max_capacity,
    }
}

/// An event with the given details; identity, host and creation instant unchanged.
pub open spec fn with_details(e: EventView, d: EventDetailsView) -> EventView {
    EventView {
        title: d.title,
        description: d.description,
        address: d.address,
        latitude: d.latitude,
        longitude: d.longitude,
        start_time: d.start_time,
        max_capacity: d.max_capacity,
        ..e
    }
}

impl Event {
    /// A copy with the same model.
    pub fn duplicate(&self) -> (e: Event)
        ensures
            e@ == self@,
    {
        Event {
            id: self.id,
            host_id: self.host_id,
            title: copy_str(self.title.as_str()),
            description: copy_opt_str(&self.description),
            address: copy_opt_str(&self.address),
            latitude: self.latitude,
            longitude: self.longitude,
            start_time: self.start_time,
            max_capacity: self.max_capacity,
            created_at: self.created_at,
        }
    }
}

/// The models of a sequence of events.
pub open spec fn events_view(v: Seq<Event>) -> Seq<EventView> {
    v.map_values(|e: Event| e@)
}

/// Every event of `s` is stored as it is listed, and `s` is in order of start.
pub open spec fn lists_stored_by_start(m: Map<u128, EventView>, s: Seq<EventView>) -> bool {
    &&& forall|i: int| 0 <= i < s.len() ==> #[trigger] m.contains_key(s[i].id) && m[s[i].id] == s[i]
    &&& forall|i: int, j: int| 0 <= i < j < s.len() ==> s[i].start_time <= s[j].start_time
}

/// `s` lists, once each and in order of start, the first `limit` stored events that
/// start after `now`, or all of them where there are fewer: an upcoming event left
/// out means the list is full and starts no later than it.
pub open spec fn first_upcoming(m: Map<u128, EventView>, s: Seq<EventView>, limit: i64, now: i128) -> bool {
    &&& lists_stored_by_start(m, s)
    &&& s.len() <= limit
    &&& forall|i: int| 0 <= i < s.len() ==> (#[trigger] s[i]).start_time > now
    &&& forall|i: int, j: int| 0 <= i < j < s.len() ==> s[i].id != s[j].id
    &&& forall|k: u128| #[trigger] m.contains_key(k) && m[k].start_time > now
        && !(exists|i: int| 0 <= i < s.len() && s[i].id == k)
        ==> s.len() == limit && forall|i: int| 0 <= i < s.len() ==> s[i].start_time <= m[k].start_time
}

/// `s` lists, once each and in order of start, exactly the stored events that `host_id` hosts.
pub open spec fn lists_hosted(m: Map<u128, EventView>, host_id: u128, s: Seq<EventView>) -> bool {
    &&& lists_stored_by_start(m, s)
    &&& forall|i: int| 0 <= i < s.len() ==> #[trigger] s[i].host_id == host_id
    &&& forall|k: u128| #[trigger] m.contains_key(k) && m[k].host_id == host_id ==> exists|i: int| 0 <= i < s.len() && s[i].id == k
    &&& forall|i: int, j: int| 0 <= i < j < s.len() ==> s[i].id != s[j].id
}

/// The event stored by an upsert of `e` over `m`: the given details under the
/// given id; an event already stored keeps its host and creation instant.
pub open spec fn upserted_event(m: Map<u128, EventView>, e: EventView, stored: EventView) -> bool {
    &&& stored.id == e.id
    &&& details_of(stored) == details_of(e)
    &&& m.contains_key(e.id) ==> stored.host_id == m[e.id].host_id && stored.created_at == m[e.id].created_at
    &&& !m.contains_key(e.id) ==> stored.host_id == e.host_id
}

/// Storage of events, keyed by event id.
pub trait EventRepository {
    spec fn events(&self) -> Map<u128, EventView>;

    /// The store answers every request: no lookup or write fails for a reason of
    /// its own. An in-memory store is reliable; a database need not be.
    spec fn reliable(&self) -> bool;

    /// The event `event_id`; `NotFound` when none is stored.
    fn find(&self, event_id: u128) -> (r: Result<Event, DomainError>)
        ensures
            r matches Ok(e) ==> e.id == event_id && self.events().contains_key(event_id) && self.events()[event_id] == e@,
            !self.events().contains_key(event_id) ==> (r matches Err(e) && e@ == ErrorView::NotFound),
            self.reliable() && self.events().contains_key(event_id) ==> r is Ok,
    ;

    /// The events that `host_id` hosts, in order of start.
    fn find_by_host(&self, host_id: u128) -> (r: Result<Vec<Event>, DomainError>)
        ensures
            r matches Ok(v) ==> lists_hosted(self.events(), host_id, events_view(v@)),
            self.reliable() ==> r is Ok,
    ;

    /// At most `limit` stored events that have not started yet, in order of start.
    /// Which events have started depends on the time of the call.
    fn find_upcoming(&self, limit: i64) -> (r: Result<Vec<Event>, DomainError>)
        ensures
            r matches Ok(v) ==> v@.len() <= limit && lists_stored_by_start(self.events(), events_view(v@)),
            r matches Ok(v) ==> exists|now: i128| first_upcoming(self.events(), events_view(v@), limit, now),
            self.reliable() && limit >= 0 ==> r is Ok,
    ;

    /// Stores `event` and returns it as stored.
    fn upsert(&mut self, event: &Event) -> (r: Result<Event, DomainError>)
        ensures
            r matches Ok(s) ==> upserted_event(old(self).events(), event@, s@)
                && final(self).events() == old(self).events().insert(s.id, s@),
            r is Err ==> final(self).events() == old(self).events(),
            old(self).reliable() ==> r is Ok,
    ;

    /// Removes the event `event_id`; `NotFound` when none is stored.
    fn delete(&mut self, event_id: u128) -> (r: Result<(), DomainError>)
        ensures
            r is Ok ==> old(self).events().contains_key(event_id)
                && final(self).events() == old(self).events().remove(event_id),
            r is Err ==> final(self).events() == old(self).events(),
            !old(self).events().contains_key(event_id) ==> (r matches Err(e) && e@ == ErrorView::NotFound),
            old(self).reliable() && old(self).events().contains_key(event_id) ==> r is Ok,
    ;
}

/// A user's answer to an invitation.
#[derive(Debug, Clone, Copy, PartialEq, Eq, Structural)]
pub enum RsvpStatus {
    Going,
    Maybe,
    Declined,
}

/// A user's answer to an event.
#[derive(Debug, Clone, Copy, PartialEq, Eq, Structural)]
pub struct Rsvp {
    pub user_id: u128,
    pub event_id: u128,
    pub status: RsvpStatus,
    pub created_at: i128,
}

/// `s` lists, once each, exactly the stored answers `keep` selects.
pub open spec fn lists_rsvps(m: Map<(u128, u128), Rsvp>, s: Seq<Rsvp>, keep: spec_fn(Rsvp) -> bool) -> bool {
    &&& forall|i: int| 0 <= i < s.len() ==> #[trigger] m.contains_key((s[i].user_id, s[i].event_id))
        && m[(s[i].user_id, s[i].event_id)] == s[i] && keep(s[i])
    &&& forall|k: (u128, u128)| #[trigger] m.contains_key(k) && keep(m[k]) ==> exists|i: int| 0 <= i < s.len() && (s[i].user_id, s[i].event_id) == k
    &&& forall|i: int, j: int| 0 <= i < j < s.len() ==> (s[i].user_id, s[i].event_id) != (s[j].user_id, s[j].event_id)
}

/// Storage of answers, keyed by user and event.
pub trait RsvpRepository {
    spec fn rsvps(&self) -> Map<(u128, u128), Rsvp>;

    /// The store answers every request: no lookup or write fails for a reason of
    /// its own. An in-memory store is reliable; a database need not be.
    spec fn reliable(&self) -> bool;

    /// The answer of `user_id` to `event_id`, if any.
    fn find(&self, user_id: u128, event_id: u128) -> (r: Result<Option<Rsvp>, DomainError>)
        ensures
            r matches Ok(o) ==> o == (if self.rsvps().contains_key((user_id, event_id)) {
                Some(self.rsvps()[(user_id, event_id)])
            } else {
                None
            }),
            self.reliable() ==> r is Ok,
    ;

    /// The answers to `event_id`.
    fn find_by_event(&self, event_id: u128) -> (r: Result<Vec<Rsvp>, DomainError>)
        ensures
            r matches Ok(v) ==> lists_rsvps(self.rsvps(), v@, |x: Rsvp| x.event_id == event_id),
            self.reliable() ==> r is Ok,
    ;

    /// The answers of `user_id`.
    fn find_by_user(&self, user_id: u128) -> (r: Result<Vec<Rsvp>, DomainError>)
        ensures
            r matches Ok(v) ==> lists_rsvps(self.rsvps(), v@, |x: Rsvp| x.user_id == user_id),
            self.reliable() ==> r is Ok,
    ;

    /// Stores `rsvp` and returns it as stored; an answer already stored keeps its creation instant.
    fn upsert(&mut self, rsvp: &Rsvp) -> (r: Result<Rsvp, DomainError>)
        ensures
            r matches Ok(s) ==> s.user_id == rsvp.user_id && s.event_id == rsvp.event_id && s.status == rsvp.status
                && (old(self).rsvps().contains_key((rsvp.user_id, rsvp.event_id))
                    ==> s.created_at == old(self).rsvps()[(rsvp.user_id, rsvp.event_id)].created_at)
                && final(self).rsvps() == old(self).rsvps().insert((s.user_id, s.event_id), s),
            r is Err ==> final(self).rsvps() == old(self).rsvps(),
            old(self).reliable() ==> r is Ok,
    ;

    /// Removes the answer of `user_id` to `event_id`; `NotFound` when there is none.
    fn delete(&mut self, user_id: u128, event_id: u128) -> (r: Result<(), DomainError>)
        ensures
            r is Ok ==> old(self).rsvps().contains_key((user_id, event_id))
                && final(self).rsvps() == old(self).rsvps().remove((user_id, event_id)),
            r is Err ==> final(self).rsvps() == old(self).rsvps(),
            !old(self).rsvps().contains_key((user_id, event_id)) ==> (r matches Err(e) && e@ == ErrorView::NotFound),
            old(self).reliable() && old(self).rsvps().contains_key((user_id, event_id)) ==> r is Ok,
    ;
}

// ── Rules ────────────────────────────────────────────────────────────────────

/// An event as its host sees it: someone else's event reads as `NotFound`.
pub open spec fn spec_hosted(found: Result<EventView, ErrorView>, host_id: u128) -> Result<EventView, ErrorView> {
    match found {
        Err(e) => Err(e),
        Ok(ev) => if ev.host_id != host_id { Err(ErrorView::NotFound) } else { Ok(ev) },
    }
}

/// The answer to a lookup, as the host sees it.
pub fn hosted_event(found: Result<Event, DomainError>, host_id: u128) -> (r: Result<Event, DomainError>)
    ensures
        result_view(r) == spec_hosted(result_view(found), host_id),
{
    match found {
        Err(e) => Err(e),
        Ok(ev) => if ev.host_id != host_id {
            Err(DomainError::NotFound)
        } else {
            Ok(ev)
        },
    }
}

/// The event with its details replaced.
pub fn apply_details(event: Event, details: EventDetails) -> (r: Event)
    ensures
        r@ == with_details(event@, details@),
{
    Event {
        title: details.title,
        description: details.description,
        address: details.address,
        latitude: details.latitude,
        longitude: details.longitude,
        start_time: details.start_time,
        max_capacity: details.max_capacity,
        ..event
    }
}

/// A new event with the given id and creation instant.
pub fn new_event(id: u128, host_id: u128, details: EventDetails, now: i128) -> (r: Event)
    ensures
        r.id == id,
        r.host_id == host_id,
        r.created_at == now,
        details_of(r@) == details@,
{
    Event {
        id,
        host_id,
        title: details.title,
        description: details.description,
        address: details.address,
        latitude: details.latitude,
        longitude: details.longitude,
        start_time: details.start_time,
        max_capacity: details.max_capacity,
        created_at: now,
    }
}

// ── Operations ───────────────────────────────────────────────────────────────

/// Creates an event hosted by `host_id` and returns it as stored.
#[allow(clippy::too_many_arguments)]
pub fn create_event<R: EventRepository>(
    repo: &mut R,
    host_id: u128,
    title: String, description: Option<String>, address: Option<String>, latitude: Option<u64>, longitude: Option<u64>, start_time: i128, max_capacity: Option<i32>,
) -> (r: Result<Event, DomainError>)
    ensures
        r matches Ok(s) ==> details_of(s@) == (EventDetailsView {
                title: title@,
                description: description.deep_view(),
                address: address.deep_view(),
                latitude,
                longitude,
                start_time,
                max_capacity,
            })
            && (!old(repo).events().contains_key(s.id) ==> s.host_id == host_id)
            && final(repo).events() == old(repo).events().insert(s.id, s@),
        r is Err ==> final(repo).events() == old(repo).events(),
        old(repo).reliable() ==> r is Ok,
{
    let details = EventDetails { title, description, address, latitude, longitude, start_time, max_capacity };
    let id = crate::clock::new_id();
    let now = crate::clock::now_nanos();
    let event = new_event(id, host_id, details, now);
    repo.upsert(&event)
}

/// The event `event_id`.
pub fn get_event<R: EventRepository>(repo: &R, event_id: u128) -> (r: Result<Event, DomainError>)
    ensures
        r matches Ok(e) ==> repo.events().contains_key(event_id) && repo.events()[event_id] == e@,
        !repo.events().contains_key(event_id) ==> (r matches Err(e) && e@ == ErrorView::NotFound),
        repo.reliable() && repo.events().contains_key(event_id) ==> r is Ok,
{
    repo.find(event_id)
}

/// At most `limit` events that have not started yet, in order of start.
pub fn list_upcoming<R: EventRepository>(repo: &R, limit: i64) -> (r: Result<Vec<Event>, DomainError>)
    ensures
        r matches Ok(v) ==> v@.len() <= limit && lists_stored_by_start(repo.events(), events_view(v@)),
        r matches Ok(v) ==> exists|now: i128| first_upcoming(repo.events(), events_view(v@), limit, now),
        repo.reliable() && limit >= 0 ==> r is Ok,
{
    repo.find_upcoming(limit)
}

/// The events that `host_id` hosts, in order of start.
pub fn list_hosted<R: EventRepository>(repo: &R, host_id: u128) -> (r: Result<Vec<Event>, DomainError>)
    ensures
        r matches Ok(v) ==> lists_hosted(repo.events(), host_id, events_view(v@)),
        repo.reliable() ==> r is Ok,
{
    repo.find_by_host(host_id)
}

/// Replaces the details of an event that `host_id` hosts; someone else's event reads as `NotFound`.
#[allow(clippy::too_many_arguments)]
pub fn update_event<R: EventRepository>(
    repo: &mut R,
    event_id: u128,
    host_id: u128,
    title: String, description: Option<String>, address: Option<String>, latitude: Option<u64>, longitude: Option<u64>, start_time: i128, max_capacity: Option<i32>,
) -> (r: Result<Event, DomainError>)
    ensures
        r matches Ok(s) ==> old(repo).events().contains_key(event_id)
            && old(repo).events()[event_id].host_id == host_id
            && s.id == event_id
            && upserted_event(old(repo).events(), with_details(old(repo).events()[event_id], (EventDetailsView {
                title: title@,
                description: description.deep_view(),
                address: address.deep_view(),
                latitude,
                longitude,
                start_time,
                max_capacity,
            })), s@)
            && final(repo).events() == old(repo).events().insert(event_id, s@),
        r is Err ==> final(repo).events() == old(repo).events(),
        !old(repo).events().contains_key(event_id) ==> (r matches Err(e) && e@ == ErrorView::NotFound),
        old(repo).events().contains_key(event_id) && old(repo).events()[event_id].host_id != host_id ==> r is Err,
        old(repo).reliable() && old(repo).events().contains_key(event_id) ==> if old(repo).events()[event_id].host_id
            == host_id {
            r is Ok
        } else {
            r matches Err(e) && e@ == ErrorView::NotFound
        },
{
    let event = match hosted_event(repo.find(event_id), host_id) {
        Ok(e) => e,
        Err(e) => return Err(e),
    };
    let details = EventDetails { title, description, address, latitude, longitude, start_time, max_capacity };
    let updated = apply_details(event, details);
    repo.upsert(&updated)
}

/// Deletes an event that `host_id` hosts; someone else's event reads as `NotFound`.
pub fn delete_event<R: EventRepository>(repo: &mut R, event_id: u128, host_id: u128) -> (r: Result<(), DomainError>)
    ensures
        r is Ok ==> old(repo).events().contains_key(event_id)
            && old(repo).events()[event_id].host_id == host_id
            && final(repo).events() == old(repo).events().remove(event_id),
        r is Err ==> final(repo).events() == old(repo).events(),
        !old(repo).events().contains_key(event_id) ==> (r matches Err(e) && e@ == ErrorView::NotFound),
        old(repo).events().contains_key(event_id) && old(repo).events()[event_id].host_id != host_id ==> r is Err,
        old(repo).reliable() && old(repo).events().contains_key(event_id) ==> if old(repo).events()[event_id].host_id
            == host_id {
            r is Ok
        } else {
            r matches Err(e) && e@ == ErrorView::NotFound
        },
{
    match hosted_event(repo.find(event_id), host_id) {
        Ok(_) => repo.delete(event_id),
        Err(e) => Err(e),
    }
}

/// Records the answer of `user_id` to an existing event and returns it as stored.
pub fn set_rsvp<E: EventRepository, R: RsvpRepository>(event_repo: &E, rsvp_repo: &mut R, user_id: u128, event_id: u128, status: RsvpStatus) -> (r: Result<Rsvp, DomainError>)
    ensures
        r matches Ok(s) ==> event_repo.events().contains_key(event_id)
            && s.user_id == user_id && s.event_id == event_id && s.status == status
            && final(rsvp_repo).rsvps() == old(rsvp_repo).rsvps().insert((user_id, event_id), s),
        r is Err ==> final(rsvp_repo).rsvps() == old(rsvp_repo).rsvps(),
        !event_repo.events().contains_key(event_id) ==> (r matches Err(e) && e@ == ErrorView::NotFound),
        event_repo.reliable() && event_repo.events().contains_key(event_id) && old(rsvp_repo).reliable() ==> r is Ok,
{
    match event_repo.find(event_id) {
        Ok(_) => {},
        Err(e) => return Err(e),
    }
    let rsvp = Rsvp { user_id, event_id, status, created_at: crate::clock::now_nanos() };
    rsvp_repo.upsert(&rsvp)
}

/// Withdraws the answer of `user_id` to `event_id`.
pub fn remove_rsvp<R: RsvpRepository>(rsvp_repo: &mut R, user_id: u128, event_id: u128) -> (r: Result<(), DomainError>)
    ensures
        r is Ok ==> old(rsvp_repo).rsvps().contains_key((user_id, event_id))
            && final(rsvp_repo).rsvps() == old(rsvp_repo).rsvps().remove((user_id, event_id)),
        r is Err ==> final(rsvp_repo).rsvps() == old(rsvp_repo).rsvps(),
        !old(rsvp_repo).rsvps().contains_key((user_id, event_id)) ==> (r matches Err(e) && e@ == ErrorView::NotFound),
        old(rsvp_repo).reliable() && old(rsvp_repo).rsvps().contains_key((user_id, event_id)) ==> r is Ok,
{
    rsvp_repo.delete(user_id, event_id)
}

/// The answers to `event_id`.
pub fn list_rsvps<R: RsvpRepository>(rsvp_repo: &R, event_id: u128) -> (r: Result<Vec<Rsvp>, DomainError>)
    ensures
        r matches Ok(v) ==> lists_rsvps(rsvp_repo.rsvps(), v@, |x: Rsvp| x.event_id == event_id),
        rsvp_repo.reliable() ==> r is Ok,
{
    rsvp_repo.find_by_event(event_id)
}

// ── Laws ─────────────────────────────────────────────────────────────────────

/// Only the host changes an event: the host view of a lookup succeeds exactly
/// when the asking user hosts the event, and updating keeps identity, host and
/// creation instant while taking every chosen detail.
pub proof fn lemma_host_only(found: Result<EventView, ErrorView>, host_id: u128, d: EventDetailsView)
    ensures
        spec_hosted(found, host_id) is Ok <==> (found matches Ok(e) && e.host_id == host_id),
        found matches Ok(e) && e.host_id != host_id ==> spec_hosted(found, host_id) == Err::<EventView, ErrorView>(ErrorView::NotFound),
        found matches Ok(e) ==> ({
            let u = with_details(e, d);
            &&& u.id == e.id
            &&& u.host_id == e.host_id
            &&& u.created_at == e.created_at
            &&& details_of(u) == d
        }),
{
}

/// A list of upcoming events shorter than the limit holds every stored event that
/// starts after the instant it was taken at, and nothing that starts earlier.
pub proof fn lemma_upcoming_below_limit_is_complete(m: Map<u128, EventView>, s: Seq<EventView>, limit: i64, now: i128, k: u128)
    requires
        first_upcoming(m, s, limit, now),
        s.len() < limit,
        m.contains_key(k),
    ensures
        m[k].start_time > now <==> exists|i: int| 0 <= i < s.len() && s[i].id == k,
{
    if exists|i: int| 0 <= i < s.len() && s[i].id == k {
        let i = choose|i: int| 0 <= i < s.len() && s[i].id == k;
        assert(s[i].start_time > now);
        assert(m.contains_key(s[i].id) && m[s[i].id] == s[i]);
    }
}

/// Updating an event with its own details changes nothing.
pub proof fn lemma_update_with_same_details(e: EventView)
    ensures
        with_details(e, details_of(e)) == e,
{
}

/// Withdrawing an answer just given, where the user had none before, leaves the
/// answers as they were; an answer given again replaces the first one.
pub proof fn lemma_rsvp_set_then_remove(m: Map<(u128, u128), Rsvp>, k: (u128, u128), a: Rsvp, b: Rsvp)
    requires
        !m.contains_key(k),
    ensures
        m.insert(k, a).remove(k) == m,
        m.insert(k, a).insert(k, b) == m.insert(k, b),
{
    assert(m.insert(k, a).remove(k) =~= m);
    assert(m.insert(k, a).insert(k, b) =~= m.insert(k, b));
}

} // verus!
