use vstd::prelude::*;
use crate::error::{DomainError, ErrorView};
use crate::json::{JsonValue, JsonView};
use crate::ports::LlmService;

verus! {

/// The models used to summarise and embed a user's interests.
#[derive(Debug, Clone)]
pub struct InterestsConfig {
    pub summary_model: String,
    pub embed_model: String,
}

/// What a user told the assistant about their interests, its summary and the
/// summary's embedding (bit patterns of `f32` values). Instants are nanoseconds
/// since the Unix epoch.
#[derive(Debug)]
pub struct UserInterests {
    pub id: u128,
    pub user_id: u128,
    pub messages: JsonValue,
    pub summary: Option<String>,
    pub embedding: Option<Vec<u32>>,
    pub created_at: i128,
    pub updated_at: i128,
}

/// Model of [`UserInterests`].
pub struct UserInterestsView {
    pub id: u128,
    pub user_id: u128,
    pub messages: JsonView,
    pub summary: Option<Seq<char>>,
    pub embedding: Option<Seq<u32>>,
    pub created_at: i128,
    pub updated_at: i128,
}

impl View for UserInterests {
    type V = UserInterestsView;

    open spec fn view(&self) -> UserInterestsView {
        UserInterestsView {
            id: self.id,
            user_id: self.user_id,
            messages: self.messages@,
            summary: self.summary.deep_view(),
            embedding: match self.embedding {
                Some(e) => Some(e@),
                None => None,
            },
            created_at: self.created_at,
            updated_at: self.updated_at,
        }
    }
}

fn copy_embedding(v: &Vec<u32>) -> (r: Vec<u32>)
    ensures
        r@ == v@,
{
    let mut out: Vec<u32> = Vec::new();
    let mut i: usize = 0;
    while i < v.len()
        invariant
            i <= v@.len(),
            out@ == v@.take(i as int),
        decreases v.len() - i,
    {
        out.push(v[i]);
        i = i + 1;
        assert(out@ =~= v@.take(i as int));
    }
    assert(v@.take(v@.len() as int) =~= v@);
    out
}

impl UserInterests {
    /// A copy with the same model.
    pub fn duplicate(&self) -> (r: UserInterests)
        ensures
            r@ == self@,
    {
        UserInterests {
            id: self.id,
            user_id: self.user_id,
            messages: self.messages.duplicate(),
            summary: crate::text::copy_opt_str(&self.summary),
            embedding: match &self.embedding {
                Some(e) => Some(copy_embedding(e)),
                None => None,
            },
            created_at: self.created_at,
            updated_at: self.updated_at,
        }
    }
}

/// Storage of interests, keyed by user id.
pub trait UserInterestsRepository {
    spec fn stored(&self) -> Map<u128, UserInterestsView>;

    /// The store answers every request: no lookup or write fails for a reason of
    /// its own. An in-memory store is reliable; a database need not be.
    spec fn reliable(&self) -> bool;

    /// The interests of `user_id`, if any.
    fn find_by_user(&self, user_id: u128) -> (r: Result<Option<UserInterests>, DomainError>)
        ensures
            r matches Ok(o) ==> match o {
                Some(i) => self.stored().contains_key(user_id) && self.stored()[user_id] == i@ && i.user_id == user_id,
                None => !self.stored().contains_key(user_id),
            },
            self.reliable() ==> r is Ok,
    ;

    /// Stores `interests` and returns them as stored; the store sets the update instant.
    fn upsert(&mut self, interests: &UserInterests) -> (r: Result<UserInterests, DomainError>)
        ensures
            r matches Ok(s) ==> s.id == interests.id && s.user_id == interests.user_id
                && s@.messages == interests@.messages && s@.summary == interests@.summary
                && s@.embedding == interests@.embedding && s.created_at == interests.created_at
                && final(self).stored() == old(self).stored().insert(s.user_id, s@),
            r is Err ==> final(self).stored() == old(self).stored(),
            old(self).reliable() ==> r is Ok,
    ;
}

/// Names the text that `serde_json::to_string` writes for a document.
pub uninterp spec fn json_text(v: JsonView) -> Seq<char>;

/// Converts the library's model of a document, variant by variant, into a
/// `serde_json::Value`; `None` where a number's text is not a JSON number.
#[verifier::external_body]
fn to_serde(v: &JsonValue) -> Option<serde_json::Value> {
    Some(match v {
        JsonValue::Null => serde_json::Value::Null,
        JsonValue::Bool(b) => serde_json::Value::Bool(*b),
        JsonValue::Number(n) => serde_json::Value::Number(n.parse().ok()?),
        JsonValue::Str(s) => serde_json::Value::String(s.clone()),
        JsonValue::Array(a) => serde_json::Value::Array(a.iter().map(to_serde).collect::<Option<Vec<_>>>()?),
        JsonValue::Object(m) => serde_json::Value::Object(m.iter().map(|(k, x)| Some((k.clone(), to_serde(x)?))).collect::<Option<_>>()?),
    })
}

/// Trusted: `serde_json::to_string` of the document; the contract claims only
/// that the text written is the one `json_text` names.
#[verifier::external_body]
fn json_to_string(v: &JsonValue) -> (r: Option<String>)
    ensures
        r matches Some(t) ==> t@ == json_text(v@),
{
    serde_json::to_string(&to_serde(v)?).ok()
}

/// The text of the instruction under which a conversation is summarised.
pub open spec fn summary_prompt_text() -> Seq<char> {
    "Summarize the user's interests and preferences based on this conversation. Be concise and focus on topics, hobbies, and activities they care about."@
}

/// The instruction under which a conversation is summarised into interests.
pub fn interests_summary_prompt() -> (p: &'static str)
    ensures
        p@ == summary_prompt_text(),
{
    "Summarize the user's interests and preferences based on this conversation. Be concise and focus on topics, hobbies, and activities they care about."
}

/// The record that replaces a user's interests: a record already stored keeps
/// its id and creation instant, a new one takes `fresh_id` and `now`.
pub open spec fn spec_interests_record(
    existing: Option<UserInterestsView>,
    fresh_id: u128,
    now: i128,
    user_id: u128,
    messages: JsonView,
    summary: Seq<char>,
    embedding: Seq<u32>,
) -> UserInterestsView {
    UserInterestsView {
        id: match existing { Some(e) => e.id, None => fresh_id },
        user_id,
        messages,
        summary: Some(summary),
        embedding: Some(embedding),
        created_at: match existing { Some(e) => e.created_at, None => now },
        updated_at: now,
    }
}

/// The record that replaces a user's interests.
pub fn interests_record(
    existing: Option<UserInterests>,
    fresh_id: u128,
    now: i128,
    user_id: u128,
    messages: JsonValue,
    summary: String,
    embedding: Vec<u32>,
) -> (r: UserInterests)
    ensures
        r@ == spec_interests_record(
            match existing { Some(e) => Some(e@), None => None },
            fresh_id, now, user_id, messages@, summary@, embedding@,
        ),
{
    let (id, created_at) = match existing {
        Some(e) => (e.id, e.created_at),
        None => (fresh_id, now),
    };
    UserInterests {
        id,
        user_id,
        messages,
        summary: Some(summary),
        embedding: Some(embedding),
        created_at,
        updated_at: now,
    }
}

/// A record's summary is an answer of `summary_model` to the conversation's JSON text
/// under the summary instruction, and its embedding is an `embed_model` embedding of
/// that summary.
pub open spec fn answered_by<L: LlmService>(llm: &L, summary_model: Seq<char>, embed_model: Seq<char>, messages: JsonView, record: UserInterestsView) -> bool {
    &&& record.summary matches Some(summary)
    &&& llm.answers(summary_model, summary_prompt_text(), json_text(messages), summary)
    &&& record.embedding matches Some(embedding)
    &&& llm.embeds(embed_model, summary, embedding)
}

/// Why an update of interests can fail, the store aside: the conversation cannot be
/// written as JSON, the summary model refuses, or the embedding model refuses the
/// summary it gave.
pub open spec fn refused_by<L: LlmService>(llm: &L, summary_model: Seq<char>, embed_model: Seq<char>, messages: JsonView, error: ErrorView) -> bool {
    ||| error == ErrorView::Internal("failed to serialize messages"@)
    ||| llm.refuses(summary_model, summary_prompt_text(), json_text(messages), error)
    ||| exists|summary: Seq<char>| #[trigger] llm.answers(summary_model, summary_prompt_text(), json_text(messages), summary)
        && llm.refuses_embedding(embed_model, summary, error)
}

/// The interests of `user_id`, if any.
pub fn get_interests<R: UserInterestsRepository>(repo: &R, user_id: u128) -> (r: Result<Option<UserInterests>, DomainError>)
    ensures
        r matches Ok(o) ==> match o {
            Some(i) => repo.stored().contains_key(user_id) && repo.stored()[user_id] == i@,
            None => !repo.stored().contains_key(user_id),
        },
        repo.reliable() ==> r is Ok,
{
    repo.find_by_user(user_id)
}

/// Summarises a conversation into the user's interests, embeds the summary and
/// stores both with the conversation; a record already stored keeps its id and
/// creation instant.
pub fn update_interests<R: UserInterestsRepository, L: LlmService>(
    repo: &mut R,
    llm: &L,
    user_id: u128,
    messages: JsonValue,
    summary_model: &str,
    embed_model: &str,
) -> (r: Result<UserInterests, DomainError>)
    ensures
        r matches Ok(s) ==> s.user_id == user_id && s@.messages == messages@
            && answered_by(llm, summary_model@, embed_model@, messages@, s@)
            && (old(repo).stored().contains_key(user_id) ==> s.id == old(repo).stored()[user_id].id
                && s.created_at == old(repo).stored()[user_id].created_at)
            && final(repo).stored() == old(repo).stored().insert(user_id, s@),
        r is Err ==> final(repo).stored() == old(repo).stored(),
        old(repo).reliable() ==> (r matches Err(e) ==> refused_by(llm, summary_model@, embed_model@, messages@, e@)),
{
    let messages_str = match json_to_string(&messages) {
        Some(t) => t,
        None => return Err(DomainError::internal("failed to serialize messages")),
    };
    let prompt = interests_summary_prompt();
    let summary = match llm.get_simple_response(summary_model, prompt, messages_str.as_str()) {
        Ok(s) => s,
        Err(e) => return Err(e),
    };
    let embedding = match llm.embed(embed_model, summary.as_str()) {
        Ok(v) => v,
        Err(e) => return Err(e),
    };
    let existing = match repo.find_by_user(user_id) {
        Ok(o) => o,
        Err(e) => return Err(e),
    };
    let now = crate::clock::now_nanos();
    let fresh_id = crate::clock::new_id();
    let interests = interests_record(existing, fresh_id, now, user_id, messages, summary, embedding);
    repo.upsert(&interests)
}

/// The interests service: it keeps the models to summarise and embed with.
#[derive(Debug, Clone)]
pub struct LlmInterestsService {
    pub summary_model: String,
    pub embed_model: String,
}

impl LlmInterestsService {
    pub fn new(summary_model: String, embed_model: String) -> (s: Self)
        ensures
            s.summary_model@ == summary_model@,
            s.embed_model@ == embed_model@,
    {
        Self { summary_model, embed_model }
    }

    /// The interests of `user_id`, if any.
    pub fn get_interests<R: UserInterestsRepository>(&self, repo: &R, user_id: u128) -> (r: Result<Option<UserInterests>, DomainError>)
        ensures
            r matches Ok(o) ==> match o {
                Some(i) => repo.stored().contains_key(user_id) && repo.stored()[user_id] == i@,
                None => !repo.stored().contains_key(user_id),
            },
            repo.reliable() ==> r is Ok,
    {
        get_interests(repo, user_id)
    }

    /// [`update_interests`] with the service's models.
    pub fn update_interests<R: UserInterestsRepository, L: LlmService>(&self, repo: &mut R, llm: &L, user_id: u128, messages: JsonValue) -> (r: Result<UserInterests, DomainError>)
        ensures
            r matches Ok(s) ==> s.user_id == user_id && s@.messages == messages@
                && answered_by(llm, self.summary_model@, self.embed_model@, messages@, s@)
                && (old(repo).stored().contains_key(user_id) ==> s.id == old(repo).stored()[user_id].id
                    && s.created_at == old(repo).stored()[user_id].created_at)
                && final(repo).stored() == old(repo).stored().insert(user_id, s@),
            r is Err ==> final(repo).stored() == old(repo).stored(),
            old(repo).reliable() ==> (r matches Err(e) ==> refused_by(llm, self.summary_model@, self.embed_model@, messages@, e@)),
    {
        update_interests(repo, llm, user_id, messages, self.summary_model.as_str(), self.embed_model.as_str())
    }
}

} // verus!
