use vstd::prelude::*;
use vstd::string::*;
use crate::error::{DomainError, ErrorView, result_view};
use crate::json::{JsonValue, JsonView, json_member, json_step_zero, json_str, parse_json, json_parse, lemma_items_view};
use crate::text::{assoc, keyed, lookup, join2, join3, copy_str, chars_of};

verus! {

/// An OpenAI-compatible API endpoint and its key.
#[derive(Debug, Clone)]
pub struct Provider {
    pub base_url: String,
    pub api_key: Option<String>,
}

/// Sampling parameters of a model; the real-valued ones are the bit patterns of `f32` values.
#[derive(Debug, Clone, Copy, PartialEq, Eq, Structural, Default)]
pub struct ModelParameters {
    pub max_tokens: Option<u32>,
    pub temperature: Option<u32>,
    pub top_p: Option<u32>,
    pub frequency_penalty: Option<u32>,
    pub presence_penalty: Option<u32>,
    pub seed: Option<i64>,
}

/// A chat model: the provider serving it and its parameters.
#[derive(Debug, Clone)]
pub struct ModelConfig {
    pub provider_name: String,
    pub params: ModelParameters,
}

/// An embedding model: the provider serving it.
#[derive(Debug, Clone)]
pub struct EmbedModelConfig {
    pub provider_name: String,
}

/// The models a client can use, by name (`provider:model`), and their providers.
pub struct SimpleLlmClient {
    pub providers: Vec<(String, Provider)>,
    pub models: Vec<(String, ModelConfig)>,
    pub embed_models: Vec<(String, EmbedModelConfig)>,
}

/// The provider of a chat model, with the model's settings.
pub open spec fn spec_resolve(c: SimpleLlmClient, model: Seq<char>) -> Result<(Provider, ModelConfig), ErrorView> {
    match assoc(keyed(c.models@), model) {
        None => Err(ErrorView::Internal("unknown model: "@ + model)),
        Some(mc) => match assoc(keyed(c.providers@), mc.provider_name@) {
            None => Err(ErrorView::Internal("unknown provider '"@ + mc.provider_name@ + "' for model '"@ + model + "'"@)),
            Some(p) => Ok((p, mc)),
        },
    }
}

/// The provider of an embedding model.
pub open spec fn spec_resolve_embed(c: SimpleLlmClient, model: Seq<char>) -> Result<Provider, ErrorView> {
    match assoc(keyed(c.embed_models@), model) {
        None => Err(ErrorView::Internal("unknown embed model: "@ + model)),
        Some(ec) => match assoc(keyed(c.providers@), ec.provider_name@) {
            None => Err(ErrorView::Internal("unknown provider '"@ + ec.provider_name@ + "' for embed model '"@ + model + "'"@)),
            Some(p) => Ok(p),
        },
    }
}

/// The names of the tables' chat models, in order.
pub open spec fn model_names(c: SimpleLlmClient) -> Seq<Seq<char>> {
    c.models@.map_values(|e: (String, ModelConfig)| e.0@)
}

impl SimpleLlmClient {
    pub fn new(
        providers: Vec<(String, Provider)>,
        models: Vec<(String, ModelConfig)>,
        embed_models: Vec<(String, EmbedModelConfig)>,
    ) -> (c: Self)
        ensures
            c.providers@ == providers@,
            c.models@ == models@,
            c.embed_models@ == embed_models@,
    {
        Self { providers, models, embed_models }
    }

    /// The provider serving `model`, with the model's settings.
    pub fn resolve<'a>(&'a self, model: &str) -> (r: Result<(&'a Provider, &'a ModelConfig), DomainError>)
        ensures
            match r {
                Ok((p, mc)) => spec_resolve(*self, model@) == Ok::<(Provider, ModelConfig), ErrorView>((*p, *mc)),
                Err(e) => spec_resolve(*self, model@) == Err::<(Provider, ModelConfig), ErrorView>(e@),
            },
    {
        let model_config = match lookup(&self.models, model) {
            Some(mc) => mc,
            None => return Err(DomainError::Internal(join2("unknown model: ", model))),
        };
        let provider = match lookup(&self.providers, model_config.provider_name.as_str()) {
            Some(p) => p,
            None => {
                let msg = join2("unknown provider '", model_config.provider_name.as_str())
                    .concat("' for model '").concat(model).concat("'");
                return Err(DomainError::Internal(msg));
            },
        };
        Ok((provider, model_config))
    }

    /// The provider serving the embedding model `model`.
    pub fn resolve_embed<'a>(&'a self, model: &str) -> (r: Result<&'a Provider, DomainError>)
        ensures
            match r {
                Ok(p) => spec_resolve_embed(*self, model@) == Ok::<Provider, ErrorView>(*p),
                Err(e) => spec_resolve_embed(*self, model@) == Err::<Provider, ErrorView>(e@),
            },
    {
        let embed_config = match lookup(&self.embed_models, model) {
            Some(ec) => ec,
            None => return Err(DomainError::Internal(join2("unknown embed model: ", model))),
        };
        match lookup(&self.providers, embed_config.provider_name.as_str()) {
            Some(p) => Ok(p),
            None => {
                let msg = join2("unknown provider '", embed_config.provider_name.as_str())
                    .concat("' for embed model '").concat(model).concat("'");
                Err(DomainError::Internal(msg))
            },
        }
    }

    /// The names of the chat models.
    pub fn available_models(&self) -> (r: Vec<String>)
        ensures
            r.deep_view() == model_names(*self),
    {
        let mut out: Vec<String> = Vec::new();
        let mut i: usize = 0;
        while i < self.models.len()
            invariant
                0 <= i <= self.models@.len(),
                out.deep_view() == model_names(*self).take(i as int),
            decreases self.models.len() - i,
        {
            let ghost before = out.deep_view();
            out.push(copy_str(self.models[i].0.as_str()));
            assert(out.deep_view() =~= before.push(self.models@[i as int].0@));
            assert(model_names(*self).take(i + 1) =~= model_names(*self).take(i as int).push(self.models@[i as int].0@));
            i = i + 1;
        }
        assert(model_names(*self).take(self.models@.len() as int) =~= model_names(*self));
        out
    }
}

// ── Requests ─────────────────────────────────────────────────────────────────

/// `s` without its trailing slashes, as `trim_end_matches('/')` gives it.
pub open spec fn trim_trailing_slashes(s: Seq<char>) -> Seq<char>
    decreases s.len(),
{
    if s.len() > 0 && s.last() == '/' {
        trim_trailing_slashes(s.drop_last())
    } else {
        s
    }
}

/// A base URL names the same endpoints with or without a trailing slash.
pub proof fn lemma_trailing_slash_ignored(base: Seq<char>, path: Seq<char>)
    ensures
        trim_trailing_slashes(base.push('/')) + path == trim_trailing_slashes(base) + path,
{
    assert(base.push('/').drop_last() =~= base);
}

/// The URL of an endpoint below a provider's base URL.
pub fn endpoint_url(base_url: &str, path: &str) -> (u: String)
    ensures
        u@ == trim_trailing_slashes(base_url@) + path@,
{
    let chars = chars_of(base_url);
    let mut end: usize = chars.len();
    assert(base_url@.take(end as int) =~= base_url@);
    while end > 0 && chars[end - 1] == '/'
        invariant
            chars@ == base_url@,
            end <= chars@.len(),
            trim_trailing_slashes(base_url@) == trim_trailing_slashes(base_url@.take(end as int)),
        decreases end,
    {
        assert(base_url@.take(end as int).drop_last() =~= base_url@.take(end - 1));
        end = end - 1;
    }
    let kept = base_url.substring_char(0, end);
    assert(kept@ =~= base_url@.take(end as int));
    join2(kept, path)
}

/// A chat message.
#[derive(Debug)]
pub struct ChatMessage {
    pub role: String,
    pub content: String,
}

/// A request for an answer that follows a JSON schema.
#[derive(Debug)]
pub struct ResponseFormat {
    pub name: String,
    pub strict: bool,
    pub schema: JsonValue,
}

/// A chat completion request: the model, a system and a user message, the model's
/// parameters, and optionally the schema the answer must follow.
#[derive(Debug)]
pub struct ChatRequest {
    pub url: String,
    pub api_key: Option<String>,
    pub model: String,
    pub messages: Vec<ChatMessage>,
    pub params: ModelParameters,
    pub response_format: Option<ResponseFormat>,
}

/// The system and user messages of a request, in that order.
pub open spec fn two_messages(m: Seq<ChatMessage>, system_prompt: Seq<char>, user_message: Seq<char>) -> bool {
    &&& m.len() == 2
    &&& m[0].role@ == "system"@ && m[0].content@ == system_prompt
    &&& m[1].role@ == "user"@ && m[1].content@ == user_message
}

fn messages(system_prompt: &str, user_message: &str) -> (m: Vec<ChatMessage>)
    ensures
        two_messages(m@, system_prompt@, user_message@),
{
    let mut m: Vec<ChatMessage> = Vec::new();
    m.push(ChatMessage { role: copy_str("system"), content: copy_str(system_prompt) });
    m.push(ChatMessage { role: copy_str("user"), content: copy_str(user_message) });
    m
}

/// Names the text that `str::to_lowercase` gives.
pub uninterp spec fn lowercase(s: Seq<char>) -> Seq<char>;

/// Trusted: `str::to_lowercase`, claimed to give what `lowercase` names.
#[verifier::external_body]
fn to_lowercase(s: &str) -> (r: String)
    ensures
        r@ == lowercase(s@),
{
    s.to_lowercase()
}

/// `s` with every space replaced by an underscore.
pub open spec fn underscored(s: Seq<char>) -> Seq<char> {
    s.map_values(|c: char| if c == ' ' { '_' } else { c })
}

/// Replaces every space of `s` by an underscore.
pub fn replace_spaces(s: &str) -> (r: String)
    ensures
        r@ == underscored(s@),
{
    let chars = chars_of(s);
    let mut out = String::new();
    let mut start: usize = 0;
    let mut i: usize = 0;
    while i < chars.len()
        invariant
            chars@ == s@,
            start <= i <= chars@.len(),
            out@ + s@.subrange(start as int, i as int) == underscored(s@.take(i as int)),
            forall|j: int| start <= j < i ==> s@[j] != ' ',
        decreases chars.len() - i,
    {
        assert(underscored(s@.take(i + 1)) =~= underscored(s@.take(i as int)).push(if s@[i as int] == ' ' { '_' } else { s@[i as int] }));
        if chars[i] == ' ' {
            let piece = s.substring_char(start, i);
            out = out.concat(piece).concat("_");
            proof {
                reveal_strlit("_");
            }
            start = i + 1;
            assert(s@.subrange(start as int, i + 1) =~= Seq::<char>::empty());
            assert(out@ + s@.subrange(start as int, i + 1) =~= underscored(s@.take(i + 1)));
        } else {
            assert(s@.subrange(start as int, i + 1) =~= s@.subrange(start as int, i as int).push(s@[i as int]));
        }
        i = i + 1;
    }
    let piece = s.substring_char(start, chars.len());
    assert(s@.take(chars@.len() as int) =~= s@);
    out.concat(piece)
}

/// The name under which a schema is sent: its title, lower-cased, spaces made
/// underscores; `response` for a schema without a string title.
pub open spec fn spec_schema_name(schema: JsonView) -> Seq<char> {
    match json_member(schema, "title"@) {
        Some(JsonView::Str(t)) => underscored(lowercase(t)),
        _ => underscored(lowercase("response"@)),
    }
}

/// The name under which a schema is sent.
pub fn schema_name(schema: &JsonValue) -> (r: String)
    ensures
        r@ == spec_schema_name(schema@),
{
    let title = match schema.member("title") {
        Some(t) => match t.as_str() {
            Some(s) => s,
            None => "response",
        },
        None => "response",
    };
    let lower = to_lowercase(title);
    replace_spaces(lower.as_str())
}

impl SimpleLlmClient {
    /// The chat completion request for a plain answer.
    pub fn simple_request(&self, model: &str, system_prompt: &str, user_message: &str) -> (r: Result<ChatRequest, DomainError>)
        ensures
            match r {
                Ok(req) => {
                    &&& spec_resolve(*self, model@) matches Ok((p, mc))
                    &&& req.url@ == trim_trailing_slashes(p.base_url@) + "/chat/completions"@
                    &&& req.api_key.deep_view() == p.api_key.deep_view()
                    &&& req.model@ == model@
                    &&& two_messages(req.messages@, system_prompt@, user_message@)
                    &&& req.params == mc.params
                    &&& req.response_format is None
                },
                Err(e) => spec_resolve(*self, model@) == Err::<(Provider, ModelConfig), ErrorView>(e@),
            },
    {
        let (provider, model_config) = match self.resolve(model) {
            Ok(pm) => pm,
            Err(e) => return Err(e),
        };
        Ok(ChatRequest {
            url: endpoint_url(provider.base_url.as_str(), "/chat/completions"),
            api_key: crate::text::copy_opt_str(&provider.api_key),
            model: copy_str(model),
            messages: messages(system_prompt, user_message),
            params: model_config.params,
            response_format: None,
        })
    }

    /// The chat completion request for an answer that follows `schema`.
    pub fn structured_request(&self, model: &str, system_prompt: &str, user_message: &str, schema: JsonValue) -> (r: Result<ChatRequest, DomainError>)
        ensures
            match r {
                Ok(req) => {
                    &&& spec_resolve(*self, model@) matches Ok((p, mc))
                    &&& req.url@ == trim_trailing_slashes(p.base_url@) + "/chat/completions"@
                    &&& req.api_key.deep_view() == p.api_key.deep_view()
                    &&& req.model@ == model@
                    &&& two_messages(req.messages@, system_prompt@, user_message@)
                    &&& req.params == mc.params
                    &&& req.response_format matches Some(f)
                    &&& f.name@ == spec_schema_name(schema@)
                    &&& f.strict
                    &&& f.schema@ == schema@
                },
                Err(e) => spec_resolve(*self, model@) == Err::<(Provider, ModelConfig), ErrorView>(e@),
            },
    {
        let (provider, model_config) = match self.resolve(model) {
            Ok(pm) => pm,
            Err(e) => return Err(e),
        };
        let name = schema_name(&schema);
        Ok(ChatRequest {
            url: endpoint_url(provider.base_url.as_str(), "/chat/completions"),
            api_key: crate::text::copy_opt_str(&provider.api_key),
            model: copy_str(model),
            messages: messages(system_prompt, user_message),
            params: model_config.params,
            response_format: Some(ResponseFormat { name, strict: true, schema }),
        })
    }

    /// The embeddings endpoint and key for `model`.
    pub fn embed_target(&self, model: &str) -> (r: Result<(String, Option<String>), DomainError>)
        ensures
            match r {
                Ok((url, key)) => {
                    &&& spec_resolve_embed(*self, model@) matches Ok(p)
                    &&& url@ == trim_trailing_slashes(p.base_url@) + "/embeddings"@
                    &&& key.deep_view() == p.api_key.deep_view()
                },
                Err(e) => spec_resolve_embed(*self, model@) == Err::<Provider, ErrorView>(e@),
            },
    {
        let provider = match self.resolve_embed(model) {
            Ok(p) => p,
            Err(e) => return Err(e),
        };
        Ok((endpoint_url(provider.base_url.as_str(), "/embeddings"), crate::text::copy_opt_str(&provider.api_key)))
    }
}

/// `/choices/0/message/content` of a chat completion response.
pub open spec fn completion_content(body: JsonView) -> Option<JsonView> {
    match json_member(body, "choices"@) {
        None => None,
        Some(choices) => match json_step_zero(choices) {
            None => None,
            Some(first) => match json_member(first, "message"@) {
                None => None,
                Some(message) => json_member(message, "content"@),
            },
        },
    }
}

/// The text of a chat completion response body.
pub open spec fn spec_chat_content(body: Seq<u8>) -> Result<Seq<char>, ErrorView> {
    match json_parse(body) {
        None => Err(ErrorView::Internal("failed to deserialize response"@)),
        Some(doc) => match completion_content(doc) {
            None => Err(ErrorView::Internal("failed to deserialize response"@)),
            Some(content) => match json_str(content) {
                Some(t) => Ok(t),
                None => Err(ErrorView::Internal("empty content in LLM response"@)),
            },
        },
    }
}

/// Reads the answer text out of a successful chat completion response body.
pub fn chat_content(body: &[u8]) -> (r: Result<String, DomainError>)
    ensures
        result_view(r) == spec_chat_content(body@),
{
    let doc = match parse_json(body) {
        Some(d) => d,
        None => return Err(DomainError::internal("failed to deserialize response")),
    };
    let content = match doc.member("choices") {
        None => None,
        Some(choices) => match choices.step_zero() {
            None => None,
            Some(first) => match first.member("message") {
                None => None,
                Some(message) => message.member("content"),
            },
        },
    };
    match content {
        None => Err(DomainError::internal("failed to deserialize response")),
        Some(c) => match c.as_str() {
            Some(t) => Ok(copy_str(t)),
            None => Err(DomainError::internal("empty content in LLM response")),
        },
    }
}

/// `/data/0/embedding` of an embeddings response.
pub open spec fn embedding_entry(body: JsonView) -> Option<JsonView> {
    match json_member(body, "data"@) {
        None => None,
        Some(data) => match json_step_zero(data) {
            None => None,
            Some(first) => json_member(first, "embedding"@),
        },
    }
}

/// The decimal text of a JSON number.
pub open spec fn number_text(v: JsonView) -> Seq<char> {
    match v {
        JsonView::Number(n) => n,
        _ => Seq::empty(),
    }
}

/// The components of the embedding in an embeddings response body, as the decimal
/// texts of its numbers.
pub open spec fn spec_embedding_numbers(body: Seq<u8>) -> Result<Seq<Seq<char>>, ErrorView> {
    match json_parse(body) {
        None => Err(ErrorView::Internal("failed to deserialize embed response"@)),
        Some(doc) => match embedding_entry(doc) {
            None => Err(ErrorView::Internal("missing embedding in response"@)),
            Some(JsonView::Array(xs)) => if forall|i: int| 0 <= i < xs.len() ==> #[trigger] xs[i] is Number {
                Ok(xs.map_values(|x: JsonView| number_text(x)))
            } else {
                Err(ErrorView::Internal("non-numeric value in embedding"@))
            },
            Some(_) => Err(ErrorView::Internal("embedding is not an array"@)),
        },
    }
}

/// Reads the embedding out of a successful embeddings response body: the decimal text
/// of each of its numbers, in order.
pub fn embedding_numbers(body: &[u8]) -> (r: Result<Vec<String>, DomainError>)
    ensures
        match r {
            Ok(v) => spec_embedding_numbers(body@) == Ok::<Seq<Seq<char>>, ErrorView>(v.deep_view()),
            Err(e) => spec_embedding_numbers(body@) == Err::<Seq<Seq<char>>, ErrorView>(e@),
        },
{
    let doc = match parse_json(body) {
        Some(d) => d,
        None => return Err(DomainError::internal("failed to deserialize embed response")),
    };
    let entry = match doc.member("data") {
        None => None,
        Some(data) => match data.step_zero() {
            None => None,
            Some(first) => first.member("embedding"),
        },
    };
    let items = match entry {
        None => return Err(DomainError::internal("missing embedding in response")),
        Some(JsonValue::Array(items)) => items,
        Some(_) => return Err(DomainError::internal("embedding is not an array")),
    };
    proof {
        lemma_items_view(items@);
    }
    let ghost xs = crate::json::items_view(items@);
    let mut out: Vec<String> = Vec::new();
    let mut i: usize = 0;
    while i < items.len()
        invariant
            i <= items@.len(),
            json_parse(body@) == Some(doc@),
            embedding_entry(doc@) == Some(JsonView::Array(xs)),
            xs.len() == items@.len(),
            forall|j: int| 0 <= j < items@.len() ==> #[trigger] xs[j] == crate::json::json_view(items@[j]),
            forall|j: int| 0 <= j < i ==> #[trigger] xs[j] is Number,
            out.deep_view() == xs.take(i as int).map_values(|x: JsonView| number_text(x)),
        decreases items.len() - i,
    {
        match &items[i] {
            JsonValue::Number(n) => {
                let ghost before = out.deep_view();
                out.push(copy_str(n.as_str()));
                assert(out.deep_view() =~= before.push(n@));
                assert(xs.take(i + 1).map_values(|x: JsonView| number_text(x))
                    =~= xs.take(i as int).map_values(|x: JsonView| number_text(x)).push(n@));
            },
            _ => {
                assert(!(xs[i as int] is Number));
                return Err(DomainError::internal("non-numeric value in embedding"));
            },
        }
        i = i + 1;
    }
    assert(xs.take(items@.len() as int) =~= xs);
    Ok(out)
}

/// The message of a request the model service refused: `prefix`, the status line,
/// `": "` and the body's text.
pub open spec fn api_error_text(prefix: Seq<char>, status_line: Seq<char>, body_text: Seq<char>) -> Seq<char> {
    prefix + status_line + ": "@ + body_text
}

/// The internal error for a refused request, with the message above.
fn api_error(prefix: &str, status_line: &str, body_text: &str) -> (e: DomainError)
    ensures
        e@ == ErrorView::Internal(api_error_text(prefix@, status_line@, body_text@)),
{
    let head = join2(prefix, status_line);
    let msg = join3(head.as_str(), ": ", body_text);
    proof {
        reveal_strlit(": ");
    }
    DomainError::Internal(msg)
}

/// The answer of a chat reply: a status outside 2xx is an internal error naming the
/// status line (`status_line`) and the body's text (`body_text`); otherwise the body
/// is read as a chat completion.
pub fn chat_reply(status: u16, status_line: &str, body: &[u8], body_text: &str) -> (r: Result<String, DomainError>)
    ensures
        200 <= status <= 299 ==> result_view(r) == spec_chat_content(body@),
        !(200 <= status <= 299) ==> (r matches Err(e)
            && e@ == ErrorView::Internal(api_error_text("LLM API error "@, status_line@, body_text@))),
{
    if 200 <= status && status <= 299 {
        chat_content(body)
    } else {
        Err(api_error("LLM API error ", status_line, body_text))
    }
}

/// The numbers of an embedding reply: a status outside 2xx is an internal error
/// naming the status line and the body's text; otherwise the body is read as an
/// embedding.
pub fn embed_reply(status: u16, status_line: &str, body: &[u8], body_text: &str) -> (r: Result<Vec<String>, DomainError>)
    ensures
        200 <= status <= 299 ==> match r {
            Ok(v) => spec_embedding_numbers(body@) == Ok::<Seq<Seq<char>>, ErrorView>(v.deep_view()),
            Err(e) => spec_embedding_numbers(body@) == Err::<Seq<Seq<char>>, ErrorView>(e@),
        },
        !(200 <= status <= 299) ==> (r matches Err(e)
            && e@ == ErrorView::Internal(api_error_text("embed API error "@, status_line@, body_text@))),
{
    if 200 <= status && status <= 299 {
        embedding_numbers(body)
    } else {
        Err(api_error("embed API error ", status_line, body_text))
    }
}

/// The document an answer that follows a schema holds, read from its text.
pub open spec fn spec_structured_answer(raw: &str) -> Result<JsonView, ErrorView> {
    match json_parse(raw.spec_bytes()) {
        Some(doc) => Ok(doc),
        None => Err(ErrorView::Internal("structured response deserialization failed"@)),
    }
}

/// Reads the JSON document out of the text of an answer that follows a schema.
pub fn structured_answer(raw: &str) -> (r: Result<JsonValue, DomainError>)
    ensures
        crate::error::result_view(r) == spec_structured_answer(raw),
{
    match parse_json(raw.as_bytes()) {
        Some(doc) => Ok(doc),
        None => Err(DomainError::internal("structured response deserialization failed")),
    }
}

} // verus!
