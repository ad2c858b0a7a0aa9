use vstd::prelude::*;
use crate::error::{DomainError, ErrorView, result_view};
use crate::text::{copy_str, copy_opt_str};

verus! {

/// A product that a user keeps track of. Instants are nanoseconds since the Unix epoch.
#[derive(Debug, Clone)]
pub struct Product {
    pub id: u128,
    pub user_id: u128,
    pub name: String,
    pub brand: Option<String>,
    pub created_at: i128,
    pub updated_at: i128,
    pub archived_at: Option<i128>,
}

/// Model of a [`Product`].
pub struct ProductView {
    pub id: u128,
    pub user_id: u128,
    pub name: Seq<char>,
    pub brand: Option<Seq<char>>,
    pub created_at: i128,
    pub updated_at: i128,
    pub archived_at: Option<i128>,
}

impl View for Product {
    type V = ProductView;

    open spec fn view(&self) -> ProductView {
        ProductView {
            id: self.id,
            user_id: self.user_id,
            name: self.name@,
            brand: self.brand.deep_view(),
            created_at: self.created_at,
            updated_at: self.updated_at,
            archived_at: self.archived_at,
        }
    }
}

impl DeepView for Product {
    type V = ProductView;

    open spec fn deep_view(&self) -> ProductView {
        self@
    }
}

impl Product {
    /// A copy with the same model.
    pub fn duplicate(&self) -> (p: Product)
        ensures
            p@ == self@,
    {
        Product {
            id: self.id,
            user_id: self.user_id,
            name: copy_str(self.name.as_str()),
            brand: copy_opt_str(&self.brand),
            created_at: self.created_at,
            updated_at: self.updated_at,
            archived_at: self.archived_at,
        }
    }
}

/// The models of a sequence of products.
pub open spec fn products_view(v: Seq<Product>) -> Seq<ProductView> {
    v.map_values(|p: Product| p@)
}

/// `s` lists, once each, exactly the products of `m` that belong to `user_id`.
pub open spec fn lists_owned(m: Map<u128, ProductView>, user_id: u128, s: Seq<ProductView>) -> bool {
    &&& forall|i: int| 0 <= i < s.len() ==> #[trigger] m.contains_key(s[i].id) && m[s[i].id] == s[i] && s[i].user_id == user_id
    &&& forall|k: u128| #[trigger] m.contains_key(k) && m[k].user_id == user_id ==> exists|i: int| 0 <= i < s.len() && s[i].id == k
    &&& forall|i: int, j: int| 0 <= i < j < s.len() ==> s[i].id != s[j].id
}

/// The products of `m` that are not archived.
pub open spec fn active(m: Map<u128, ProductView>) -> Map<u128, ProductView> {
    m.restrict(Set::new(|k: u128| m.contains_key(k) && m[k].archived_at is None))
}

/// A model's insight about a product: a JSON document and the instant it was made.
#[derive(Debug)]
pub struct ProductInsight {
    pub id: u128,
    pub product_id: u128,
    pub content: crate::json::JsonValue,
    pub generated_at: i128,
}

/// Storage of products, keyed by product id.
pub trait ProductRepository {
    /// The products stored, by id.
    spec fn stored(&self) -> Map<u128, ProductView>;

    /// The store answers every request: no lookup or write fails for a reason of
    /// its own. An in-memory store is reliable; a database need not be.
    spec fn reliable(&self) -> bool;

    /// The product with id `product_id`; `NotFound` when none is stored.
    fn find(&self, product_id: u128) -> (r: Result<Product, DomainError>)
        ensures
            r matches Ok(p) ==> p.id == product_id && self.stored().contains_key(product_id)
                && self.stored()[product_id] == p@,
            !self.stored().contains_key(product_id) ==> (r matches Err(e) && e@ == ErrorView::NotFound),
            self.reliable() && self.stored().contains_key(product_id) ==> r is Ok,
    ;

    /// The products of `user_id`.
    fn find_by_user(&self, user_id: u128) -> (r: Result<Vec<Product>, DomainError>)
        ensures
            r matches Ok(v) ==> lists_owned(self.stored(), user_id, products_view(v@)),
            self.reliable() ==> r is Ok,
    ;

    /// Stores `product` under its id, replacing any product stored there.
    fn upsert(&mut self, product: &Product) -> (r: Result<(), DomainError>)
        ensures
            r is Ok ==> final(self).stored() == old(self).stored().insert(product.id, product@),
            r is Err ==> final(self).stored() == old(self).stored(),
            old(self).reliable() ==> r is Ok,
    ;

    /// Removes the product with id `product_id`; `NotFound` when none is stored.
    fn delete(&mut self, product_id: u128) -> (r: Result<(), DomainError>)
        ensures
            r is Ok ==> old(self).stored().contains_key(product_id)
                && final(self).stored() == old(self).stored().remove(product_id),
            r is Err ==> final(self).stored() == old(self).stored(),
            !old(self).stored().contains_key(product_id) ==> (r matches Err(e) && e@ == ErrorView::NotFound),
            old(self).reliable() && old(self).stored().contains_key(product_id) ==> r is Ok,
    ;
}


// ── Rules ────────────────────────────────────────────────────────────────────

/// A product as its owner sees it: another user's product reads as `NotFound`.
pub open spec fn spec_owned(found: Result<ProductView, ErrorView>, user_id: u128) -> Result<ProductView, ErrorView> {
    match found {
        Err(e) => Err(e),
        Ok(p) => if p.user_id != user_id { Err(ErrorView::NotFound) } else { Ok(p) },
    }
}

/// A freshly created product.
pub open spec fn spec_new_product(id: u128, user_id: u128, name: Seq<char>, brand: Option<Seq<char>>, now: i128) -> ProductView {
    ProductView { id, user_id, name, brand, created_at: now, updated_at: now, archived_at: None }
}

/// A product archived at `now`; archiving twice is refused.
pub open spec fn spec_archived(p: ProductView, now: i128) -> Result<ProductView, ErrorView> {
    if p.archived_at is Some {
        Err(ErrorView::InvalidInput("product is already archived"@))
    } else {
        Ok(ProductView { archived_at: Some(now), ..p })
    }
}

/// The products of `s` that are not archived, in order.
pub open spec fn active_only(s: Seq<ProductView>) -> Seq<ProductView>
    decreases s.len(),
{
    if s.len() == 0 {
        Seq::empty()
    } else if s.last().archived_at is None {
        active_only(s.drop_last()).push(s.last())
    } else {
        active_only(s.drop_last())
    }
}

/// The answer to a lookup, as its owner sees it.
pub fn owned_product(found: Result<Product, DomainError>, user_id: u128) -> (r: Result<Product, DomainError>)
    ensures
        result_view(r) == spec_owned(result_view(found), user_id),
{
    match found {
        Err(e) => Err(e),
        Ok(p) => if p.user_id != user_id {
            Err(DomainError::NotFound)
        } else {
            Ok(p)
        },
    }
}

/// A new product with the given id and creation instant.
pub fn new_product(id: u128, user_id: u128, name: String, brand: Option<String>, now: i128) -> (p: Product)
    ensures
        p@ == spec_new_product(id, user_id, name@, brand.deep_view(), now),
{
    Product { id, user_id, name, brand, created_at: now, updated_at: now, archived_at: None }
}

/// The product archived at `now`.
pub fn archived(p: Product, now: i128) -> (r: Result<Product, DomainError>)
    ensures
        result_view(r) == spec_archived(p@, now),
{
    if p.archived_at.is_some() {
        return Err(DomainError::invalid_input("product is already archived"));
    }
    let mut q = p;
    q.archived_at = Some(now);
    Ok(q)
}

/// The products that are not archived, in order.
pub fn visible_products(products: Vec<Product>) -> (r: Vec<Product>)
    ensures
        products_view(r@) == active_only(products_view(products@)),
{
    let mut out: Vec<Product> = Vec::new();
    let ghost all = products_view(products@);
    let n = products.len();
    let mut i: usize = 0;
    assert(all.take(0) =~= Seq::<ProductView>::empty());
    assert(products_view(out@) =~= Seq::<ProductView>::empty());
    while i < n
        invariant
            n == products@.len(),
            0 <= i <= n,
            all == products_view(products@),
            products_view(out@) == active_only(all.take(i as int)),
        decreases n - i,
    {
        let ghost before = out@;
        assert(all.take(i + 1).drop_last() =~= all.take(i as int));
        assert(all.take(i + 1).last() == products@[i as int]@);
        if products[i].archived_at.is_none() {
            out.push(products[i].duplicate());
            assert(products_view(out@) =~= products_view(before).push(products@[i as int]@));
        }
        i = i + 1;
    }
    assert(all.take(n as int) =~= all);
    out
}


proof fn lemma_active_only_sound(s: Seq<ProductView>)
    ensures
        forall|j: int| 0 <= j < active_only(s).len() ==> (#[trigger] active_only(s)[j]).archived_at is None
            && exists|i: int| 0 <= i < s.len() && s[i] == active_only(s)[j],
    decreases s.len(),
{
    if s.len() > 0 {
        let t = s.drop_last();
        lemma_active_only_sound(t);
        let a = active_only(t);
        assert forall|j: int| 0 <= j < active_only(s).len() implies (#[trigger] active_only(s)[j]).archived_at is None
            && exists|i: int| 0 <= i < s.len() && s[i] == active_only(s)[j] by {
            if j < a.len() {
                assert(active_only(s)[j] == a[j]);
                let i = choose|i: int| 0 <= i < t.len() && t[i] == a[j];
                assert(s[i] == a[j]);
            } else {
                assert(s[s.len() - 1] == active_only(s)[j]);
            }
        }
    }
}

proof fn lemma_active_only_complete(s: Seq<ProductView>)
    ensures
        forall|i: int| 0 <= i < s.len() && (#[trigger] s[i]).archived_at is None
            ==> exists|j: int| 0 <= j < active_only(s).len() && active_only(s)[j] == s[i],
    decreases s.len(),
{
    if s.len() > 0 {
        let t = s.drop_last();
        lemma_active_only_complete(t);
        let a = active_only(t);
        assert forall|i: int| 0 <= i < s.len() && (#[trigger] s[i]).archived_at is None
            implies exists|j: int| 0 <= j < active_only(s).len() && active_only(s)[j] == s[i] by {
            if i < t.len() {
                assert(t[i] == s[i]);
                let j = choose|j: int| 0 <= j < a.len() && a[j] == t[i];
                assert(active_only(s)[j] == a[j]);
            } else {
                assert(active_only(s)[a.len() as int] == s[i]);
            }
        }
    }
}

proof fn lemma_active_only_unique(s: Seq<ProductView>)
    requires
        forall|i: int, k: int| 0 <= i < k < s.len() ==> s[i].id != s[k].id,
    ensures
        forall|i: int, k: int| 0 <= i < k < active_only(s).len() ==> active_only(s)[i].id != active_only(s)[k].id,
    decreases s.len(),
{
    if s.len() > 0 {
        let t = s.drop_last();
        assert forall|i: int, k: int| 0 <= i < k < t.len() implies t[i].id != t[k].id by {
            assert(t[i] == s[i] && t[k] == s[k]);
        }
        lemma_active_only_unique(t);
        lemma_active_only_sound(t);
        let a = active_only(t);
        if s.last().archived_at is None {
            assert forall|i: int, k: int| 0 <= i < k < active_only(s).len() implies active_only(s)[i].id != active_only(s)[k].id by {
                if k < a.len() {
                    assert(active_only(s)[i] == a[i] && active_only(s)[k] == a[k]);
                } else {
                    assert(active_only(s)[i] == a[i]);
                    let w = choose|w: int| 0 <= w < t.len() && t[w] == a[i];
                    assert(s[w] == a[i]);
                    assert(active_only(s)[k] == s[s.len() - 1]);
                }
            }
        }
    }
}

/// Every product kept is an unarchived product of `s`; every unarchived product of
/// `s` is kept; distinct ids stay distinct.
pub proof fn lemma_active_only(s: Seq<ProductView>)
    ensures
        forall|j: int| 0 <= j < active_only(s).len() ==> (#[trigger] active_only(s)[j]).archived_at is None
            && exists|i: int| 0 <= i < s.len() && s[i] == active_only(s)[j],
        forall|i: int| 0 <= i < s.len() && (#[trigger] s[i]).archived_at is None
            ==> exists|j: int| 0 <= j < active_only(s).len() && active_only(s)[j] == s[i],
        (forall|i: int, k: int| 0 <= i < k < s.len() ==> s[i].id != s[k].id)
            ==> (forall|i: int, k: int| 0 <= i < k < active_only(s).len() ==> active_only(s)[i].id != active_only(s)[k].id),
{
    lemma_active_only_sound(s);
    lemma_active_only_complete(s);
    if forall|i: int, k: int| 0 <= i < k < s.len() ==> s[i].id != s[k].id {
        lemma_active_only_unique(s);
    }
}

/// Keeping the unarchived products of a listing lists the active products.
pub proof fn lemma_lists_owned_active(m: Map<u128, ProductView>, user_id: u128, s: Seq<ProductView>)
    requires
        lists_owned(m, user_id, s),
    ensures
        lists_owned(active(m), user_id, active_only(s)),
{
    lemma_active_only(s);
    let a = active_only(s);
    let am = active(m);
    assert forall|j: int| 0 <= j < a.len() implies #[trigger] am.contains_key(a[j].id) && am[a[j].id] == a[j] && a[j].user_id == user_id by {
        let i = choose|i: int| 0 <= i < s.len() && s[i] == a[j];
        assert(m.contains_key(s[i].id));
    }
    assert forall|k: u128| #[trigger] am.contains_key(k) && am[k].user_id == user_id implies exists|j: int| 0 <= j < a.len() && a[j].id == k by {
        assert(m.contains_key(k) && m[k].user_id == user_id);
        let i = choose|i: int| 0 <= i < s.len() && s[i].id == k;
        assert(m.contains_key(s[i].id));
        assert(s[i].archived_at is None);
        let j = choose|j: int| 0 <= j < a.len() && a[j] == s[i];
    }
}

// ── Operations ───────────────────────────────────────────────────────────────

/// Creates a product for `user_id` and stores it; the product is returned as stored.
pub fn create_product<R: ProductRepository>(repo: &mut R, user_id: u128, name: String, brand: Option<String>) -> (r: Result<Product, DomainError>)
    ensures
        r matches Ok(p) ==> p@ == spec_new_product(p.id, user_id, name@, brand.deep_view(), p.created_at)
            && final(repo).stored() == old(repo).stored().insert(p.id, p@),
        r is Err ==> final(repo).stored() == old(repo).stored(),
        old(repo).reliable() ==> r is Ok,
{
    let now = crate::clock::now_nanos();
    let product = new_product(crate::clock::new_id(), user_id, name, brand, now);
    match repo.upsert(&product) {
        Ok(()) => Ok(product),
        Err(e) => Err(e),
    }
}

/// The product `product_id` of `user_id`: `NotFound` when there is none or it
/// belongs to another user.
pub fn get_product<R: ProductRepository>(repo: &R, product_id: u128, user_id: u128) -> (r: Result<Product, DomainError>)
    ensures
        r matches Ok(p) ==> repo.stored().contains_key(product_id) && repo.stored()[product_id] == p@ && p.user_id == user_id,
        !repo.stored().contains_key(product_id) ==> (r matches Err(e) && e@ == ErrorView::NotFound),
        repo.stored().contains_key(product_id) && repo.stored()[product_id].user_id != user_id ==> r is Err,
        repo.reliable() && repo.stored().contains_key(product_id) ==> result_view(r)
            == spec_owned(Ok::<ProductView, ErrorView>(repo.stored()[product_id]), user_id),
{
    owned_product(repo.find(product_id), user_id)
}

/// The products of `user_id` that are not archived.
pub fn list_products<R: ProductRepository>(repo: &R, user_id: u128) -> (r: Result<Vec<Product>, DomainError>)
    ensures
        r matches Ok(v) ==> lists_owned(active(repo.stored()), user_id, products_view(v@)),
        repo.reliable() ==> r is Ok,
{
    match repo.find_by_user(user_id) {
        Ok(products) => {
            let ghost found = products_view(products@);
            let kept = visible_products(products);
            proof {
                lemma_lists_owned_active(repo.stored(), user_id, found);
            }
            Ok(kept)
        },
        Err(e) => Err(e),
    }
}

/// Archives (soft-deletes) the product `product_id` of `user_id` and returns it as stored.
pub fn archive_product<R: ProductRepository>(repo: &mut R, product_id: u128, user_id: u128) -> (r: Result<Product, DomainError>)
    ensures
        r matches Ok(p) ==> old(repo).stored().contains_key(product_id)
            && old(repo).stored()[product_id].user_id == user_id
            && p.id == product_id
            && p.archived_at is Some
            && spec_archived(old(repo).stored()[product_id], p.archived_at.unwrap()) == Ok::<ProductView, ErrorView>(p@)
            && final(repo).stored() == old(repo).stored().insert(product_id, p@),
        r is Err ==> final(repo).stored() == old(repo).stored(),
        !old(repo).stored().contains_key(product_id) ==> (r matches Err(e) && e@ == ErrorView::NotFound),
        old(repo).stored().contains_key(product_id) && (old(repo).stored()[product_id].user_id != user_id
            || old(repo).stored()[product_id].archived_at is Some) ==> r is Err,
        old(repo).reliable() && old(repo).stored().contains_key(product_id) ==> match spec_owned(
            Ok::<ProductView, ErrorView>(old(repo).stored()[product_id]), user_id) {
            Err(e) => r matches Err(f) && f@ == e,
            Ok(p) => if p.archived_at is Some {
                r matches Err(f) && f@ == ErrorView::InvalidInput("product is already archived"@)
            } else {
                r is Ok
            },
        },
{
    let product = match owned_product(repo.find(product_id), user_id) {
        Ok(p) => p,
        Err(e) => return Err(e),
    };
    let now = crate::clock::now_nanos();
    let updated = match archived(product, now) {
        Ok(p) => p,
        Err(e) => return Err(e),
    };
    match repo.upsert(&updated) {
        Ok(()) => Ok(updated),
        Err(e) => Err(e),
    }
}

/// Deletes the product `product_id` of `user_id` for good.
pub fn delete_product<R: ProductRepository>(repo: &mut R, product_id: u128, user_id: u128) -> (r: Result<(), DomainError>)
    ensures
        r is Ok ==> old(repo).stored().contains_key(product_id)
            && old(repo).stored()[product_id].user_id == user_id
            && final(repo).stored() == old(repo).stored().remove(product_id),
        r is Err ==> final(repo).stored() == old(repo).stored(),
        !old(repo).stored().contains_key(product_id) ==> (r matches Err(e) && e@ == ErrorView::NotFound),
        old(repo).stored().contains_key(product_id) && old(repo).stored()[product_id].user_id != user_id ==> r is Err,
        old(repo).reliable() && old(repo).stored().contains_key(product_id) ==> if old(repo).stored()[product_id].user_id
            == user_id {
            r is Ok
        } else {
            r matches Err(e) && e@ == ErrorView::NotFound
        },
{
    match owned_product(repo.find(product_id), user_id) {
        Ok(_) => repo.delete(product_id),
        Err(e) => Err(e),
    }
}


// ── Laws ─────────────────────────────────────────────────────────────────────

/// A product is only ever handed to its owner: the owner view of a lookup
/// succeeds exactly when the product found belongs to the asking user, and a
/// product of another user reads as `NotFound`.
pub proof fn lemma_owner_only(found: Result<ProductView, ErrorView>, user_id: u128)
    ensures
        spec_owned(found, user_id) is Ok <==> (found matches Ok(p) && p.user_id == user_id),
        spec_owned(found, user_id) matches Ok(p) ==> found == Ok::<ProductView, ErrorView>(p),
        found matches Ok(p) && p.user_id != user_id ==> spec_owned(found, user_id) == Err::<ProductView, ErrorView>(ErrorView::NotFound),
{
}

/// Archiving sets the archive instant and nothing else, and a product can be archived only once.
pub proof fn lemma_archive_once(p: ProductView, t1: i128, t2: i128)
    requires
        p.archived_at is None,
    ensures
        spec_archived(p, t1) == Ok::<ProductView, ErrorView>(ProductView { archived_at: Some(t1), ..p }),
        spec_archived(ProductView { archived_at: Some(t1), ..p }, t2) is Err,
{
}

/// An archived product is left out of every listing of its owner's products.
pub proof fn lemma_archived_not_listed(m: Map<u128, ProductView>, product_id: u128, user_id: u128, s: Seq<ProductView>)
    requires
        m.contains_key(product_id),
        m[product_id].archived_at is Some,
        lists_owned(active(m), user_id, s),
    ensures
        forall|i: int| 0 <= i < s.len() ==> s[i].id != product_id,
{
    assert forall|i: int| 0 <= i < s.len() implies s[i].id != product_id by {
        assert(active(m).contains_key(s[i].id));
    }
}

/// A product just stored for a user, not archived, appears in every listing of
/// that user's products, and no other user's listing shows it.
pub proof fn lemma_created_is_listed(m: Map<u128, ProductView>, p: ProductView, user_id: u128, other: u128, s: Seq<ProductView>, t: Seq<ProductView>)
    requires
        p.user_id == user_id,
        p.archived_at is None,
        lists_owned(active(m.insert(p.id, p)), user_id, s),
        lists_owned(active(m.insert(p.id, p)), other, t),
        other != user_id,
    ensures
        exists|i: int| 0 <= i < s.len() && s[i] == p,
        forall|i: int| 0 <= i < t.len() ==> t[i].id != p.id,
{
    let am = active(m.insert(p.id, p));
    assert(am.contains_key(p.id));
    let i = choose|i: int| 0 <= i < s.len() && s[i].id == p.id;
    assert(am.contains_key(s[i].id));
    assert forall|j: int| 0 <= j < t.len() implies t[j].id != p.id by {
        assert(am.contains_key(t[j].id));
    }
}

/// A deleted product is gone: it is no longer stored, so a lookup reports
/// `NotFound` and no listing shows it, while every other product is untouched.
pub proof fn lemma_deleted_is_gone(m: Map<u128, ProductView>, product_id: u128, user_id: u128, s: Seq<ProductView>)
    requires
        lists_owned(active(m.remove(product_id)), user_id, s),
    ensures
        !m.remove(product_id).contains_key(product_id),
        forall|i: int| 0 <= i < s.len() ==> s[i].id != product_id,
        forall|k: u128| k != product_id && m.contains_key(k) ==> m.remove(product_id).contains_key(k) && m.remove(product_id)[k] == m[k],
{
    assert forall|i: int| 0 <= i < s.len() implies s[i].id != product_id by {
        assert(active(m.remove(product_id)).contains_key(s[i].id));
    }
}

// ── In-memory repository ─────────────────────────────────────────────────────

/// No two products of `s` share an id.
pub open spec fn unique_ids(s: Seq<Product>) -> bool {
    forall|i: int, j: int| 0 <= i < j < s.len() ==> s[i].id != s[j].id
}

/// Position of the product with id `k` in `s`.
pub open spec fn id_index(s: Seq<Product>, k: u128) -> int {
    choose|i: int| 0 <= i < s.len() && s[i].id == k
}

/// The products of `s`, keyed by id.
pub open spec fn model_of(s: Seq<Product>) -> Map<u128, ProductView> {
    Map::new(
        |k: u128| exists|i: int| 0 <= i < s.len() && s[i].id == k,
        |k: u128| s[id_index(s, k)]@,
    )
}

proof fn lemma_model_at(s: Seq<Product>, i: int)
    requires
        unique_ids(s),
        0 <= i < s.len(),
    ensures
        model_of(s).contains_key(s[i].id),
        model_of(s)[s[i].id] == s[i]@,
{
    assert(model_of(s).dom().contains(s[i].id));
    let j = id_index(s, s[i].id);
    assert(0 <= j < s.len() && s[j].id == s[i].id);
    if j != i {
        if j < i {
            assert(s[j].id != s[i].id);
        } else {
            assert(s[i].id != s[j].id);
        }
    }
}

proof fn lemma_model_update(s: Seq<Product>, i: int, p: Product)
    requires
        unique_ids(s),
        0 <= i < s.len(),
        s[i].id == p.id,
    ensures
        unique_ids(s.update(i, p)),
        model_of(s.update(i, p)) == model_of(s).insert(p.id, p@),
{
    let t = s.update(i, p);
    assert forall|a: int, b: int| 0 <= a < b < t.len() implies t[a].id != t[b].id by {
        assert(t[a].id == s[a].id && t[b].id == s[b].id);
    }
    assert forall|k: u128| #[trigger] model_of(t).contains_key(k) <==> model_of(s).insert(p.id, p@).contains_key(k) by {
        if model_of(s).contains_key(k) {
            let w = choose|w: int| 0 <= w < s.len() && s[w].id == k;
            assert(t[w].id == k);
        }
        if model_of(t).contains_key(k) {
            let w = choose|w: int| 0 <= w < t.len() && t[w].id == k;
            assert(s[w].id == k);
        }
    }
    assert forall|k: u128| #[trigger] model_of(t).contains_key(k) implies model_of(t)[k] == model_of(s).insert(p.id, p@)[k] by {
        let w = choose|w: int| 0 <= w < t.len() && t[w].id == k;
        lemma_model_at(t, w);
        if w != i {
            lemma_model_at(s, w);
        }
    }
    assert(model_of(t) =~= model_of(s).insert(p.id, p@));
}

proof fn lemma_model_push(s: Seq<Product>, p: Product)
    requires
        unique_ids(s),
        !model_of(s).contains_key(p.id),
    ensures
        unique_ids(s.push(p)),
        model_of(s.push(p)) == model_of(s).insert(p.id, p@),
{
    let t = s.push(p);
    assert forall|a: int, b: int| 0 <= a < b < t.len() implies t[a].id != t[b].id by {
        if b == s.len() {
            assert(t[a] == s[a]);
            if s[a].id == p.id {
                assert(model_of(s).dom().contains(p.id));
            }
        } else {
            assert(t[a] == s[a] && t[b] == s[b]);
        }
    }
    assert forall|k: u128| #[trigger] model_of(t).contains_key(k) <==> model_of(s).insert(p.id, p@).contains_key(k) by {
        if model_of(s).contains_key(k) {
            let w = choose|w: int| 0 <= w < s.len() && s[w].id == k;
            assert(t[w].id == k);
        }
        if k == p.id {
            assert(t[s.len() as int].id == k);
        }
        if model_of(t).contains_key(k) && k != p.id {
            let w = choose|w: int| 0 <= w < t.len() && t[w].id == k;
            assert(w < s.len());
            assert(s[w].id == k);
        }
    }
    assert forall|k: u128| #[trigger] model_of(t).contains_key(k) implies model_of(t)[k] == model_of(s).insert(p.id, p@)[k] by {
        let w = choose|w: int| 0 <= w < t.len() && t[w].id == k;
        lemma_model_at(t, w);
        if w < s.len() {
            assert(t[w] == s[w]);
            lemma_model_at(s, w);
        }
    }
    assert(model_of(t) =~= model_of(s).insert(p.id, p@));
}

proof fn lemma_model_remove(s: Seq<Product>, i: int)
    requires
        unique_ids(s),
        0 <= i < s.len(),
    ensures
        unique_ids(s.remove(i)),
        model_of(s.remove(i)) == model_of(s).remove(s[i].id),
{
    let t = s.remove(i);
    let gone = s[i].id;
    assert forall|a: int| 0 <= a < t.len() implies #[trigger] t[a] == (if a < i { s[a] } else { s[a + 1] }) by {}
    assert forall|a: int, b: int| 0 <= a < b < t.len() implies t[a].id != t[b].id by {
        let sa = if a < i { a } else { a + 1 };
        let sb = if b < i { b } else { b + 1 };
        assert(t[a] == s[sa] && t[b] == s[sb] && sa < sb);
    }
    assert forall|k: u128| #[trigger] model_of(t).contains_key(k) <==> model_of(s).remove(gone).contains_key(k) by {
        if model_of(t).contains_key(k) {
            let w = choose|w: int| 0 <= w < t.len() && t[w].id == k;
            let sw = if w < i { w } else { w + 1 };
            assert(s[sw].id == k);
            assert(sw != i);
            if k == gone {
                if sw < i {
                    assert(s[sw].id != s[i].id);
                } else {
                    assert(s[i].id != s[sw].id);
                }
            }
        }
        if model_of(s).contains_key(k) && k != gone {
            let w = choose|w: int| 0 <= w < s.len() && s[w].id == k;
            assert(w != i);
            let tw = if w < i { w } else { w - 1 };
            assert(t[tw].id == k);
        }
    }
    assert forall|k: u128| #[trigger] model_of(t).contains_key(k) implies model_of(t)[k] == model_of(s).remove(gone)[k] by {
        let w = choose|w: int| 0 <= w < t.len() && t[w].id == k;
        lemma_model_at(t, w);
        let sw = if w < i { w } else { w + 1 };
        assert(t[w] == s[sw]);
        lemma_model_at(s, sw);
    }
    assert(model_of(t) =~= model_of(s).remove(gone));
}

/// An in-memory product repository, for tests and local runs.
pub struct FakeProductRepository {
    products: Vec<Product>,
}

impl FakeProductRepository {
    #[verifier::type_invariant]
    spec fn ids_unique(self) -> bool {
        unique_ids(self.products@)
    }

    /// The products held, by id.
    pub closed spec fn held(&self) -> Map<u128, ProductView> {
        model_of(self.products@)
    }

    /// An empty repository.
    pub fn new() -> (r: Self)
        ensures
            r.held() == Map::<u128, ProductView>::empty(),
    {
        let r = FakeProductRepository { products: Vec::new() };
        assert(r.held() =~= Map::<u128, ProductView>::empty());
        r
    }

    /// Position of the product with id `id`.
    fn position(&self, id: u128) -> (r: Option<usize>)
        ensures
            match r {
                Some(i) => i < self.products@.len() && self.products@[i as int].id == id,
                None => !self.held().contains_key(id),
            },
    {
        let mut i: usize = 0;
        while i < self.products.len()
            invariant
                0 <= i <= self.products@.len(),
                forall|j: int| 0 <= j < i ==> self.products@[j].id != id,
            decreases self.products.len() - i,
        {
            if self.products[i].id == id {
                return Some(i);
            }
            i = i + 1;
        }
        None
    }

    /// Stores `product`, replacing any product with its id.
    pub fn put(&mut self, product: Product)
        ensures
            final(self).held() == old(self).held().insert(product.id, product@),
    {
        proof {
            use_type_invariant(&*self);
        }
        let pos = self.position(product.id);
        let mut items: Vec<Product> = Vec::new();
        std::mem::swap(&mut items, &mut self.products);
        match pos {
            Some(i) => {
                proof {
                    lemma_model_update(items@, i as int, product);
                }
                items.set(i, product);
            },
            None => {
                proof {
                    lemma_model_push(items@, product);
                }
                items.push(product);
            },
        }
        self.products = items;
    }

    /// The repository with `product` added.
    pub fn with_product(self, product: Product) -> (r: Self)
        ensures
            r.held() == self.held().insert(product.id, product@),
    {
        let mut r = self;
        r.put(product);
        r
    }
}

impl ProductRepository for FakeProductRepository {
    open spec fn stored(&self) -> Map<u128, ProductView> {
        self.held()
    }

    /// Memory never refuses.
    open spec fn reliable(&self) -> bool {
        true
    }

    fn find(&self, product_id: u128) -> (r: Result<Product, DomainError>) {
        proof {
            use_type_invariant(self);
        }
        match self.position(product_id) {
            Some(i) => {
                proof {
                    lemma_model_at(self.products@, i as int);
                }
                Ok(self.products[i].duplicate())
            },
            None => Err(DomainError::NotFound),
        }
    }

    /// Always answers: every stored product of `user_id`.
    fn find_by_user(&self, user_id: u128) -> (r: Result<Vec<Product>, DomainError>)
        ensures
            r is Ok,
    {
        proof {
            use_type_invariant(self);
        }
        let ghost s = self.products@;
        let mut out: Vec<Product> = Vec::new();
        let ghost mut idx: Seq<int> = Seq::empty();
        let mut i: usize = 0;
        while i < self.products.len()
            invariant
                s == self.products@,
                unique_ids(s),
                0 <= i <= s.len(),
                idx.len() == out@.len(),
                forall|j: int| 0 <= j < idx.len() ==> 0 <= #[trigger] idx[j] < i && out@[j]@ == s[idx[j]]@
                    && s[idx[j]].user_id == user_id,
                forall|a: int, b: int| 0 <= a < b < idx.len() ==> idx[a] < idx[b],
                forall|k: int| 0 <= k < i && (#[trigger] s[k]).user_id == user_id ==> exists|j: int| 0 <= j < idx.len() && idx[j] == k,
            decreases s.len() - i,
        {
            if self.products[i].user_id == user_id {
                out.push(self.products[i].duplicate());
                proof {
                    let old_idx = idx;
                    idx = idx.push(i as int);
                    assert forall|k: int| 0 <= k < i + 1 && (#[trigger] s[k]).user_id == user_id implies exists|j: int| 0 <= j < idx.len() && idx[j] == k by {
                        if k < i {
                            let j = choose|j: int| 0 <= j < old_idx.len() && old_idx[j] == k;
                            assert(idx[j] == k);
                        } else {
                            assert(idx[old_idx.len() as int] == k);
                        }
                    }
                }
            }
            i = i + 1;
        }
        let ghost ov = products_view(out@);
        assert forall|j: int| 0 <= j < ov.len() implies #[trigger] model_of(s).contains_key(ov[j].id) && model_of(s)[ov[j].id] == ov[j] && ov[j].user_id == user_id by {
            lemma_model_at(s, idx[j]);
        }
        assert forall|k: u128| #[trigger] model_of(s).contains_key(k) && model_of(s)[k].user_id == user_id implies exists|j: int| 0 <= j < ov.len() && ov[j].id == k by {
            let w = choose|w: int| 0 <= w < s.len() && s[w].id == k;
            lemma_model_at(s, w);
            assert(s[w].user_id == user_id);
            let j = choose|j: int| 0 <= j < idx.len() && idx[j] == w;
            assert(ov[j].id == k);
        }
        assert forall|a: int, b: int| 0 <= a < b < ov.len() implies ov[a].id != ov[b].id by {
            assert(idx[a] < idx[b]);
            assert(ov[a].id == s[idx[a]].id && ov[b].id == s[idx[b]].id);
        }
        Ok(out)
    }

    /// Stores the product; the store never refuses.
    fn upsert(&mut self, product: &Product) -> (r: Result<(), DomainError>)
        ensures
            r is Ok,
    {
        self.put(product.duplicate());
        Ok(())
    }

    fn delete(&mut self, product_id: u128) -> (r: Result<(), DomainError>) {
        proof {
            use_type_invariant(&*self);
        }
        match self.position(product_id) {
            Some(i) => {
                let mut items: Vec<Product> = Vec::new();
                std::mem::swap(&mut items, &mut self.products);
                proof {
                    lemma_model_remove(items@, i as int);
                }
                items.remove(i);
                self.products = items;
                Ok(())
            },
            None => Err(DomainError::NotFound),
        }
    }
}

} // verus!
