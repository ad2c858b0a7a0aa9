use vstd::prelude::*;
use vstd::string::*;
use crate::error::{DomainError, ErrorView};
use crate::json::{JsonValue, JsonView, json_member, json_str, lemma_items_view};
use crate::ports::{EntitlementService, LlmService};
use crate::product::ProductRepository;
use crate::text::{chars_of, copy_str, join2};
use crate::user::{Tier, User};

verus! {

/// A model's grade of a product: a score and a one-paragraph explanation.
#[derive(Debug, Clone)]
pub struct ProductGrade {
    pub score: u8,
    pub summary: String,
}

/// Model of a [`ProductGrade`].
pub struct ProductGradeView {
    pub score: u8,
    pub summary: Seq<char>,
}

impl View for ProductGrade {
    type V = ProductGradeView;

    open spec fn view(&self) -> ProductGradeView {
        ProductGradeView { score: self.score, summary: self.summary@ }
    }
}

/// Suggestions for improving a product.
#[derive(Debug, Clone)]
pub struct ImprovementSummary {
    pub suggestions: Vec<String>,
}

// ── Decoding a grade ─────────────────────────────────────────────────────────

/// Every character of `s` is a decimal digit.
pub open spec fn all_digits(s: Seq<char>) -> bool {
    forall|i: int| 0 <= i < s.len() ==> '0' <= #[trigger] s[i] <= '9'
}

/// The value of a string of decimal digits.
pub open spec fn decimal_value(s: Seq<char>) -> nat
    decreases s.len(),
{
    if s.len() == 0 {
        0
    } else {
        decimal_value(s.drop_last()) * 10 + ((s.last() as nat) - ('0' as nat)) as nat
    }
}

/// A JSON number read as a `u8`: a non-negative integer no greater than 255.
pub open spec fn json_u8(v: JsonView) -> Option<u8> {
    match v {
        JsonView::Number(t) => if t.len() > 0 && all_digits(t) && decimal_value(t) <= 255 {
            Some(decimal_value(t) as u8)
        } else {
            None
        },
        _ => None,
    }
}

/// A grade read from a structured answer: an object with a `score` and a `summary`
/// member (other members ignored), or the array of those two values in that order.
pub open spec fn spec_decode_grade(doc: JsonView) -> Option<ProductGradeView> {
    match doc {
        JsonView::Object(_) => match (json_member(doc, "score"@), json_member(doc, "summary"@)) {
            (Some(score), Some(summary)) => match (json_u8(score), json_str(summary)) {
                (Some(n), Some(t)) => Some(ProductGradeView { score: n, summary: t }),
                _ => None,
            },
            _ => None,
        },
        JsonView::Array(xs) => if xs.len() == 2 {
            match (json_u8(xs[0]), json_str(xs[1])) {
                (Some(n), Some(t)) => Some(ProductGradeView { score: n, summary: t }),
                _ => None,
            }
        } else {
            None
        },
        _ => None,
    }
}

/// The error of an answer that does not hold a grade.
pub open spec fn undecodable() -> ErrorView {
    ErrorView::Internal("structured response deserialization failed"@)
}

proof fn lemma_prefix_value_le(s: Seq<char>, k: int)
    requires
        all_digits(s),
        0 <= k <= s.len(),
    ensures
        decimal_value(s.take(k)) <= decimal_value(s),
    decreases s.len(),
{
    if k < s.len() {
        assert(all_digits(s.drop_last()));
        lemma_prefix_value_le(s.drop_last(), k);
        assert(s.drop_last().take(k) =~= s.take(k));
    } else {
        assert(s.take(k) =~= s);
    }
}

/// Reads a JSON number as a `u8`.
pub fn number_as_u8(v: &JsonValue) -> (r: Option<u8>)
    ensures
        r == json_u8(v@),
{
    let text = match v {
        JsonValue::Number(t) => t,
        _ => return None,
    };
    let chars = chars_of(text.as_str());
    if chars.len() == 0 {
        return None;
    }
    let ghost t = text@;
    let mut acc: u16 = 0;
    let mut i: usize = 0;
    while i < chars.len()
        invariant
            chars@ == t,
            v@ == JsonView::Number(t),
            i <= t.len(),
            t.len() > 0,
            all_digits(t.take(i as int)),
            acc == decimal_value(t.take(i as int)),
            acc <= 255,
        decreases chars.len() - i,
    {
        let c = chars[i];
        if c < '0' || c > '9' {
            assert(!all_digits(t));
            return None;
        }
        let d: u16 = (c as u32 - '0' as u32) as u16;
        let next: u16 = acc * 10 + d;
        assert(t.take(i + 1).drop_last() =~= t.take(i as int));
        assert(decimal_value(t.take(i + 1)) == next);
        assert(all_digits(t.take(i + 1)));
        if next > 255 {
            proof {
                if all_digits(t) {
                    lemma_prefix_value_le(t, i + 1);
                }
            }
            return None;
        }
        acc = next;
        i = i + 1;
    }
    assert(t.take(t.len() as int) =~= t);
    Some(acc as u8)
}

/// Reads a grade out of a structured answer; an answer of another shape is an error.
pub fn decode_grade(doc: &JsonValue) -> (r: Result<ProductGrade, DomainError>)
    ensures
        match r {
            Ok(g) => spec_decode_grade(doc@) == Some(g@),
            Err(e) => spec_decode_grade(doc@) is None && e@ == undecodable(),
        },
{
    let (score, summary) = match doc {
        JsonValue::Object(_) => match (doc.member("score"), doc.member("summary")) {
            (Some(score), Some(summary)) => (score, summary),
            _ => return Err(DomainError::internal("structured response deserialization failed")),
        },
        JsonValue::Array(items) => {
            proof {
                lemma_items_view(items@);
            }
            if items.len() == 2 {
                (&items[0], &items[1])
            } else {
                return Err(DomainError::internal("structured response deserialization failed"));
            }
        },
        _ => return Err(DomainError::internal("structured response deserialization failed")),
    };
    match (number_as_u8(score), summary.as_str()) {
        (Some(n), Some(t)) => Ok(ProductGrade { score: n, summary: copy_str(t) }),
        _ => Err(DomainError::internal("structured response deserialization failed")),
    }
}

// ── Grading ──────────────────────────────────────────────────────────────────

/// The text of the system prompt under which a model is asked about a product.
pub open spec fn query_prompt_text() -> Seq<char> {
    "You are a helpful assistant."@
}

/// The text of the system prompt under which a model grades the view of a product.
pub open spec fn grader_prompt_text() -> Seq<char> {
    "Rate the user's view of the product on a scale from 1 to 10 where 1 is negative and 10 is positive. Explain your answer in one paragraph."@
}

/// The system prompt under which a model is asked about a product.
pub fn query_system_prompt() -> (p: &'static str)
    ensures
        p@ == query_prompt_text(),
{
    "You are a helpful assistant."
}

/// The system prompt under which a model grades the view of a product.
pub fn grader_system_prompt() -> (p: &'static str)
    ensures
        p@ == grader_prompt_text(),
{
    "Rate the user's view of the product on a scale from 1 to 10 where 1 is negative and 10 is positive. Explain your answer in one paragraph."
}

/// The question asked about a product.
pub open spec fn spec_product_query(name: Seq<char>) -> Seq<char> {
    "What do you think of this product: "@ + name
}

/// The question asked about the product named `name`.
pub fn product_query(name: &str) -> (q: String)
    ensures
        q@ == spec_product_query(name@),
{
    join2("What do you think of this product: ", name)
}

/// `grade` comes from the models: `query_model`'s answer to the question about the
/// product named `name`, graded by `grader_model` into a document, read as a grade.
pub open spec fn graded_by<A: LlmService>(ai: &A, query_model: Seq<char>, grader_model: Seq<char>, schema: JsonView, name: Seq<char>, grade: ProductGradeView) -> bool {
    exists|answer: Seq<char>, doc: JsonView|
        #![trigger ai.answers(query_model, query_prompt_text(), spec_product_query(name), answer), ai.structured_answers(grader_model, grader_prompt_text(), answer, schema, doc)]
        ai.answers(query_model, query_prompt_text(), spec_product_query(name), answer)
        && ai.structured_answers(grader_model, grader_prompt_text(), answer, schema, doc)
        && spec_decode_grade(doc) == Some(grade)
}

/// Why grading the product named `name` can fail once it is found: the query model
/// refuses, the grader refuses the query model's answer, or the grader's document is
/// not a grade.
pub open spec fn grading_refused<A: LlmService>(ai: &A, query_model: Seq<char>, grader_model: Seq<char>, schema: JsonView, name: Seq<char>, error: ErrorView) -> bool {
    ||| ai.refuses(query_model, query_prompt_text(), spec_product_query(name), error)
    ||| exists|answer: Seq<char>| #[trigger] ai.answers(query_model, query_prompt_text(), spec_product_query(name), answer)
        && ai.refuses_structured(grader_model, grader_prompt_text(), answer, schema, error)
    ||| exists|answer: Seq<char>, doc: JsonView|
        #![trigger ai.answers(query_model, query_prompt_text(), spec_product_query(name), answer), ai.structured_answers(grader_model, grader_prompt_text(), answer, schema, doc)]
        ai.answers(query_model, query_prompt_text(), spec_product_query(name), answer)
        && ai.structured_answers(grader_model, grader_prompt_text(), answer, schema, doc)
        && spec_decode_grade(doc) is None && error == undecodable()
}

/// Has a model give its view of a product, then has a second model grade that view.
/// Requires the `Essential` tier; the product must exist. `grade_schema` is the JSON
/// schema of a grade, which the grader's answer is asked to follow.
pub fn grade_product<A: LlmService, R: ProductRepository, E: EntitlementService>(
    user: &User,
    ai: &A,
    product_repo: &R,
    entitlement: &E,
    product_id: u128,
    query_model: &str,
    grader_model: &str,
    grade_schema: &JsonValue,
) -> (r: Result<ProductGrade, DomainError>)
    ensures
        r is Ok ==> entitlement.grants(*user, Tier::Essential),
        !entitlement.grants(*user, Tier::Essential) ==> (r matches Err(e)
            && entitlement.tier_check(*user, Tier::Essential) == Err::<(), ErrorView>(e@)),
        r is Ok ==> product_repo.stored().contains_key(product_id),
        entitlement.grants(*user, Tier::Essential) && !product_repo.stored().contains_key(product_id)
            ==> (r matches Err(e) && e@ == ErrorView::NotFound),
        r matches Ok(g) ==> graded_by(ai, query_model@, grader_model@, grade_schema@,
            product_repo.stored()[product_id].name, g@),
        entitlement.grants(*user, Tier::Essential) && product_repo.reliable()
            && product_repo.stored().contains_key(product_id) ==> (r matches Err(e) ==> grading_refused(ai,
            query_model@, grader_model@, grade_schema@, product_repo.stored()[product_id].name, e@)),
{
    match entitlement.check_tier(user, &Tier::Essential) {
        Ok(()) => {},
        Err(e) => return Err(e),
    }
    let product = match product_repo.find(product_id) {
        Ok(p) => p,
        Err(e) => return Err(e),
    };
    let question = product_query(product.name.as_str());
    let query_prompt = query_system_prompt();
    let answer = match ai.get_simple_response(query_model, query_prompt, question.as_str()) {
        Ok(a) => a,
        Err(e) => return Err(e),
    };
    let grader_prompt = grader_system_prompt();
    let graded = match ai.get_structured_response(grader_model, grader_prompt, answer.as_str(), grade_schema) {
        Ok(d) => d,
        Err(e) => return Err(e),
    };
    decode_grade(&graded)
}

} // verus!
