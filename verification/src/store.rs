//! The object layer: generic persistence for every record kind over the
//! key-value store, under `{collection}:{id}` keys, with the auxiliary
//! index sets and the product-name search index.
use vstd::prelude::*;
use crate::bytes::{s2b, lit, starts_with_spec, contains_seq, lower_spec, to_lowercase};
pub use crate::bytes::views_of;
use crate::kv::{KvStore, prefix_fn, prefix_contains_fn};
use crate::user::{User, UserView, UserType, enc_user, dec_user, lemma_user_round_trip,
    role_for_spec, role_for_username};
use crate::meal::{Meal, MealView, MealContentView, MealType, enc_meal, dec_meal, lemma_meal_round_trip};
use crate::usda::{Food, FoodView, enc_food, dec_food, lemma_food_round_trip, FoodSearchResult,
    FoodSearchResultView, enc_food_search, dec_food_search, lemma_food_search_round_trip};
use crate::product::{Product, ProductView, enc_product, dec_product, lemma_product_round_trip,
    SearchResult, SearchResultView, enc_search_result, dec_search_result,
    lemma_search_result_round_trip, NutritionistSearchQuery};
use crate::date::{Date, date_valid};

verus! {

pub const COLON: u8 = 58;

/// The storage key of a record: `{collection}:{id}`.
pub open spec fn record_key(tn: Seq<u8>, id: Seq<u8>) -> Seq<u8> {
    tn + seq![COLON] + id
}

pub fn make_key(tn: &Vec<u8>, id: &Vec<u8>) -> (r: Vec<u8>)
    ensures
        r@ == record_key(tn@, id@),
{
    let mut out = crate::bytes::clone_bytes(tn);
    out.push(COLON);
    let mut idc = crate::bytes::clone_bytes(id);
    out.append(&mut idc);
    proof {
        assert(out@ =~= record_key(tn@, id@));
    }
    out
}

/// A stored record: it names its collection, its id, its written form and
/// how the written form reads back.
pub trait RedisORM: Sized + View {
    /// The collection name.
    spec fn type_name_spec() -> Seq<u8>;

    /// The record's id.
    spec fn id_spec(&self) -> Seq<u8>;

    /// Well-formedness that storing preserves.
    spec fn rec_wf(&self) -> bool;

    /// The written form.
    spec fn enc_spec(&self) -> Seq<u8>;

    /// How a written form reads back, if it does.
    spec fn dec_spec(b: Seq<u8>) -> Option<<Self as View>::V>;

    fn redis_type_name() -> (r: Vec<u8>)
        ensures
            r@ == Self::type_name_spec(),
    ;

    fn redis_id(&self) -> (r: Vec<u8>)
        ensures
            r@ == self.id_spec(),
    ;

    fn encode_rec(&self) -> (r: Vec<u8>)
        requires
            self.rec_wf(),
        ensures
            r@ == self.enc_spec(),
    ;

    fn decode_rec(b: &Vec<u8>) -> (r: Option<Self>)
        ensures
            match r {
                Some(v) => Self::dec_spec(b@) == Some(v@) && v.rec_wf(),
                None => Self::dec_spec(b@) is None,
            },
    ;

    /// Reading a written record returns it: the law behind the fetch-after-
    /// save round trip.
    proof fn lemma_round_trip(&self)
        requires
            self.rec_wf(),
        ensures
            Self::dec_spec(self.enc_spec()) == Some(self@),
    ;
}

/// The stored view of a fetch: what reading `{collection}:{id}` yields.
pub open spec fn fetch_spec<T: RedisORM>(m: Map<Seq<u8>, Seq<u8>>, id: Seq<u8>) -> Option<<T as View>::V> {
    let k = record_key(T::type_name_spec(), id);
    if m.contains_key(k) {
        T::dec_spec(m[k])
    } else {
        None
    }
}

/// Writes a record under `{collection}:{id}`, replacing any prior value.
pub fn default_save<T: RedisORM>(kv: &mut KvStore, rec: &T)
    requires
        old(kv).wf(),
        rec.rec_wf(),
    ensures
        final(kv).wf(),
        final(kv).kv_map() == old(kv).kv_map().insert(
            record_key(T::type_name_spec(), rec.id_spec()),
            rec.enc_spec(),
        ),
        final(kv).ttl_map() == old(kv).ttl_map().insert(
            record_key(T::type_name_spec(), rec.id_spec()),
            None,
        ),
        final(kv).sets@ == old(kv).sets@,
        !old(kv).kv_map().contains_key(record_key(T::type_name_spec(), rec.id_spec()))
            ==> final(kv).kv_keys() == old(kv).kv_keys().push(
            record_key(T::type_name_spec(), rec.id_spec()),
        ),
        old(kv).kv_map().contains_key(record_key(T::type_name_spec(), rec.id_spec()))
            ==> final(kv).kv_keys().to_multiset() == old(kv).kv_keys().to_multiset(),
{
    let tn = T::redis_type_name();
    let id = rec.redis_id();
    let key = make_key(&tn, &id);
    let value = rec.encode_rec();
    kv.set_value(key, value);
}

/// Like `default_save`, with a time-to-live note for cache records: the
/// note is what the store runner hands the backend as the key's expiry.
pub fn default_save_expire<T: RedisORM>(kv: &mut KvStore, rec: &T, expiry: u64)
    requires
        old(kv).wf(),
        rec.rec_wf(),
    ensures
        final(kv).wf(),
        final(kv).kv_map() == old(kv).kv_map().insert(
            record_key(T::type_name_spec(), rec.id_spec()),
            rec.enc_spec(),
        ),
        final(kv).ttl_map() == old(kv).ttl_map().insert(
            record_key(T::type_name_spec(), rec.id_spec()),
            Some(expiry as u64),
        ),
        final(kv).sets@ == old(kv).sets@,
{
    let tn = T::redis_type_name();
    let id = rec.redis_id();
    let key = make_key(&tn, &id);
    let value = rec.encode_rec();
    kv.set_value_ttl(key, value, Some(expiry));
}

/// Reads the record stored under `{collection}:{id}`: a missing key and a
/// malformed value both read as `None`.
pub fn fetch_from_uuid<T: RedisORM>(kv: &KvStore, id: &Vec<u8>) -> (r: Option<T>)
    requires
        kv.wf(),
    ensures
        match r {
            Some(v) => fetch_spec::<T>(kv.kv_map(), id@) == Some(v@) && v.rec_wf(),
            None => fetch_spec::<T>(kv.kv_map(), id@) is None,
        },
{
    let tn = T::redis_type_name();
    let key = make_key(&tn, id);
    match kv.get_value(&key) {
        Some(bytes) => T::decode_rec(&bytes),
        None => None,
    }
}

/// Fetching right after saving returns the record saved: the save-fetch
/// round trip, for every record kind.
pub proof fn lemma_save_then_fetch<T: RedisORM>(m: Map<Seq<u8>, Seq<u8>>, rec: T)
    requires
        rec.rec_wf(),
    ensures
        fetch_spec::<T>(
            m.insert(record_key(T::type_name_spec(), rec.id_spec()), rec.enc_spec()),
            rec.id_spec(),
        ) == Some(rec@),
{
    rec.lemma_round_trip();
}

/// Saving the same record twice leaves the store exactly as one save does.
pub proof fn lemma_save_twice<T: RedisORM>(m: Map<Seq<u8>, Seq<u8>>, rec: T)
    ensures
        m.insert(record_key(T::type_name_spec(), rec.id_spec()), rec.enc_spec()).insert(
            record_key(T::type_name_spec(), rec.id_spec()),
            rec.enc_spec(),
        ) == m.insert(record_key(T::type_name_spec(), rec.id_spec()), rec.enc_spec()),
{
    let k = record_key(T::type_name_spec(), rec.id_spec());
    assert(m.insert(k, rec.enc_spec()).insert(k, rec.enc_spec()) =~= m.insert(k, rec.enc_spec()));
}

// -------------------------------------------------------------------------
// enumerating a collection
// -------------------------------------------------------------------------
/// The records the given keys hold, skipping missing keys and values that
/// do not read back.
pub open spec fn collect_records<T: RedisORM>(m: Map<Seq<u8>, Seq<u8>>, ks: Seq<Seq<u8>>) -> Seq<
    <T as View>::V,
>
    decreases ks.len(),
{
    if ks.len() == 0 {
        Seq::empty()
    } else {
        let front = collect_records::<T>(m, ks.drop_last());
        if m.contains_key(ks.last()) {
            match T::dec_spec(m[ks.last()]) {
                Some(v) => front.push(v),
                None => front,
            }
        } else {
            front
        }
    }
}

/// The collection prefix, colon included.
pub open spec fn collection_prefix<T: RedisORM>() -> Seq<u8> {
    T::type_name_spec() + seq![COLON]
}

/// Every record of the collection, in store order; entries that fail to
/// read back are skipped.
pub open spec fn all_spec<T: RedisORM>(kv: KvStore) -> Seq<<T as View>::V> {
    collect_records::<T>(kv.kv_map(), kv.kv_keys().filter(prefix_fn(collection_prefix::<T>())))
}

/// Enumerates every record of the collection.
pub fn all_records<T: RedisORM>(kv: &KvStore) -> (r: Vec<T>)
    requires
        kv.wf(),
    ensures
        views_of(r@) == all_spec::<T>(*kv),
        forall|i: int| 0 <= i < r@.len() ==> (#[trigger] r@[i]).rec_wf(),
{
    let tn = T::redis_type_name();
    let mut prefix = crate::bytes::clone_bytes(&tn);
    prefix.push(COLON);
    proof {
        assert(prefix@ =~= collection_prefix::<T>());
    }
    let keys = kv.keys_with_prefix(&prefix);
    let ghost ks = keys.deep_view();
    let mut out: Vec<T> = Vec::new();
    let mut i: usize = 0;
    while i < keys.len()
        invariant
            kv.wf(),
            i <= keys@.len(),
            ks == keys.deep_view(),
            views_of(out@) == collect_records::<T>(kv.kv_map(), ks.subrange(0, i as int)),
            forall|t: int| 0 <= t < out@.len() ==> (#[trigger] out@[t]).rec_wf(),
        decreases keys@.len() - i,
    {
        proof {
            assert(ks[i as int] == keys@[i as int]@);
            assert(ks.subrange(0, i + 1).drop_last() =~= ks.subrange(0, i as int));
            assert(ks.subrange(0, i + 1).last() == ks[i as int]);
        }
        match kv.get_value(&keys[i]) {
            Some(bytes) => {
                match T::decode_rec(&bytes) {
                    Some(v) => {
                        let ghost vv = v@;
                        out.push(v);
                        proof {
                            assert(views_of(out@) =~= collect_records::<T>(
                                kv.kv_map(),
                                ks.subrange(0, i + 1),
                            ));
                        }
                    },
                    None => {
                        proof {
                            assert(views_of(out@) =~= collect_records::<T>(
                                kv.kv_map(),
                                ks.subrange(0, i + 1),
                            ));
                        }
                    },
                }
            },
            None => {
                proof {
                    assert(views_of(out@) =~= collect_records::<T>(
                        kv.kv_map(),
                        ks.subrange(0, i + 1),
                    ));
                }
            },
        }
        i = i + 1;
    }
    proof {
        assert(ks.subrange(0, ks.len() as int) =~= ks);
    }
    out
}

// -------------------------------------------------------------------------
// the record kinds
// -------------------------------------------------------------------------
impl RedisORM for User {
    open spec fn type_name_spec() -> Seq<u8> {
        s2b("user"@)
    }

    open spec fn id_spec(&self) -> Seq<u8> {
        self.id@
    }

    open spec fn rec_wf(&self) -> bool {
        true
    }

    open spec fn enc_spec(&self) -> Seq<u8> {
        enc_user(self@)
    }

    open spec fn dec_spec(b: Seq<u8>) -> Option<UserView> {
        dec_user(b)
    }

    fn redis_type_name() -> (r: Vec<u8>) {
        proof {
            reveal_strlit("user");
        }
        lit("user")
    }

    fn redis_id(&self) -> (r: Vec<u8>) {
        crate::bytes::clone_bytes(&self.id)
    }

    fn encode_rec(&self) -> (r: Vec<u8>) {
        self.encode()
    }

    fn decode_rec(b: &Vec<u8>) -> (r: Option<User>) {
        User::decode(b)
    }

    proof fn lemma_round_trip(&self) {
        lemma_user_round_trip(self@);
    }
}


impl RedisORM for Meal {
    open spec fn type_name_spec() -> Seq<u8> {
        s2b("meal"@)
    }

    open spec fn id_spec(&self) -> Seq<u8> {
        self.id@
    }

    open spec fn rec_wf(&self) -> bool {
        date_valid(self@.date)
    }

    open spec fn enc_spec(&self) -> Seq<u8> {
        enc_meal(self@)
    }

    open spec fn dec_spec(b: Seq<u8>) -> Option<MealView> {
        dec_meal(b)
    }

    fn redis_type_name() -> (r: Vec<u8>) {
        proof {
            reveal_strlit("meal");
        }
        lit("meal")
    }

    fn redis_id(&self) -> (r: Vec<u8>) {
        crate::bytes::clone_bytes(&self.id)
    }

    fn encode_rec(&self) -> (r: Vec<u8>) {
        self.encode()
    }

    fn decode_rec(b: &Vec<u8>) -> (r: Option<Meal>) {
        let d = Meal::decode(b);
        proof {
            reveal(crate::meal::sp_meal);
        }
        match d {
            Some(m) => {
                proof {
                    assert(date_valid(m@.date)) by {
                        reveal(crate::meal::sp_meal);
                    }
                }
                Some(m)
            },
            None => None,
        }
    }

    proof fn lemma_round_trip(&self) {
        lemma_meal_round_trip(self@);
    }
}

impl RedisORM for Product {
    open spec fn type_name_spec() -> Seq<u8> {
        s2b("product"@)
    }

    open spec fn id_spec(&self) -> Seq<u8> {
        self.code@
    }

    open spec fn rec_wf(&self) -> bool {
        true
    }

    open spec fn enc_spec(&self) -> Seq<u8> {
        enc_product(self@)
    }

    open spec fn dec_spec(b: Seq<u8>) -> Option<ProductView> {
        dec_product(b)
    }

    fn redis_type_name() -> (r: Vec<u8>) {
        proof {
            reveal_strlit("product");
        }
        lit("product")
    }

    fn redis_id(&self) -> (r: Vec<u8>) {
        crate::bytes::clone_bytes(&self.code)
    }

    fn encode_rec(&self) -> (r: Vec<u8>) {
        self.encode()
    }

    fn decode_rec(b: &Vec<u8>) -> (r: Option<Product>) {
        Product::decode(b)
    }

    proof fn lemma_round_trip(&self) {
        lemma_product_round_trip(self@);
    }
}

impl RedisORM for Food {
    open spec fn type_name_spec() -> Seq<u8> {
        s2b("usda_food"@)
    }

    open spec fn id_spec(&self) -> Seq<u8> {
        crate::codec::enc_u64(self.id as int)
    }

    open spec fn rec_wf(&self) -> bool {
        true
    }

    open spec fn enc_spec(&self) -> Seq<u8> {
        enc_food(self@)
    }

    open spec fn dec_spec(b: Seq<u8>) -> Option<FoodView> {
        dec_food(b)
    }

    fn redis_type_name() -> (r: Vec<u8>) {
        proof {
            reveal_strlit("usda_food");
        }
        lit("usda_food")
    }

    fn redis_id(&self) -> (r: Vec<u8>) {
        let mut out: Vec<u8> = Vec::new();
        crate::codec::write_u64(self.id, &mut out);
        proof {
            assert(out@ =~= crate::codec::enc_u64(self.id as int));
        }
        out
    }

    fn encode_rec(&self) -> (r: Vec<u8>) {
        self.encode()
    }

    fn decode_rec(b: &Vec<u8>) -> (r: Option<Food>) {
        Food::decode(b)
    }

    proof fn lemma_round_trip(&self) {
        lemma_food_round_trip(self@);
    }
}

impl RedisORM for FoodSearchResult {
    open spec fn type_name_spec() -> Seq<u8> {
        s2b("usda_search"@)
    }

    open spec fn id_spec(&self) -> Seq<u8> {
        self.query@
    }

    open spec fn rec_wf(&self) -> bool {
        true
    }

    open spec fn enc_spec(&self) -> Seq<u8> {
        enc_food_search(self@)
    }

    open spec fn dec_spec(b: Seq<u8>) -> Option<FoodSearchResultView> {
        dec_food_search(b)
    }

    fn redis_type_name() -> (r: Vec<u8>) {
        proof {
            reveal_strlit("usda_search");
        }
        lit("usda_search")
    }

    fn redis_id(&self) -> (r: Vec<u8>) {
        crate::bytes::clone_bytes(&self.query)
    }

    fn encode_rec(&self) -> (r: Vec<u8>) {
        self.encode()
    }

    fn decode_rec(b: &Vec<u8>) -> (r: Option<FoodSearchResult>) {
        FoodSearchResult::decode(b)
    }

    proof fn lemma_round_trip(&self) {
        lemma_food_search_round_trip(self@);
    }
}

impl RedisORM for SearchResult {
    open spec fn type_name_spec() -> Seq<u8> {
        s2b("ffsearch"@)
    }

    open spec fn id_spec(&self) -> Seq<u8> {
        self.query.query@
    }

    open spec fn rec_wf(&self) -> bool {
        true
    }

    open spec fn enc_spec(&self) -> Seq<u8> {
        enc_search_result(self@)
    }

    open spec fn dec_spec(b: Seq<u8>) -> Option<SearchResultView> {
        dec_search_result(b)
    }

    fn redis_type_name() -> (r: Vec<u8>) {
        proof {
            reveal_strlit("ffsearch");
        }
        lit("ffsearch")
    }

    fn redis_id(&self) -> (r: Vec<u8>) {
        crate::bytes::clone_bytes(&self.query.query)
    }

    fn encode_rec(&self) -> (r: Vec<u8>) {
        self.encode()
    }

    fn decode_rec(b: &Vec<u8>) -> (r: Option<SearchResult>) {
        SearchResult::decode(b)
    }

    proof fn lemma_round_trip(&self) {
        lemma_search_result_round_trip(self@);
    }
}

// -------------------------------------------------------------------------
// enumeration after a fresh save
// -------------------------------------------------------------------------
proof fn lemma_collect_fresh_key<T: RedisORM>(
    m: Map<Seq<u8>, Seq<u8>>,
    ks: Seq<Seq<u8>>,
    k: Seq<u8>,
    v: Seq<u8>,
)
    requires
        !ks.contains(k),
    ensures
        collect_records::<T>(m.insert(k, v), ks) == collect_records::<T>(m, ks),
    decreases ks.len(),
{
    if ks.len() > 0 {
        assert(forall|t: int| 0 <= t < ks.drop_last().len() ==> ks.drop_last()[t] == ks[t]);
        assert(!ks.drop_last().contains(k)) by {
            if ks.drop_last().contains(k) {
                let t = choose|t: int| 0 <= t < ks.drop_last().len() && ks.drop_last()[t] == k;
                assert(ks[t] == k);
            }
        }
        lemma_collect_fresh_key::<T>(m, ks.drop_last(), k, v);
        assert(ks.last() != k) by {
            assert(ks[ks.len() - 1] == ks.last());
        }
    }
}

/// Saving a record under a key the store does not yet hold appends exactly
/// that record to the collection's enumeration: the law behind counting
/// distinct saves.
pub proof fn lemma_all_after_fresh_save<T: RedisORM>(kv0: KvStore, kv1: KvStore, rec: T)
    requires
        kv0.wf(),
        rec.rec_wf(),
        !kv0.kv_map().contains_key(record_key(T::type_name_spec(), rec.id_spec())),
        kv1.kv_map() == kv0.kv_map().insert(
            record_key(T::type_name_spec(), rec.id_spec()),
            rec.enc_spec(),
        ),
        kv1.kv_keys() == kv0.kv_keys().push(record_key(T::type_name_spec(), rec.id_spec())),
    ensures
        all_spec::<T>(kv1) == all_spec::<T>(kv0).push(rec@),
        all_spec::<T>(kv1).len() == all_spec::<T>(kv0).len() + 1,
{
    let k = record_key(T::type_name_spec(), rec.id_spec());
    let pre = collection_prefix::<T>();
    let pred = prefix_fn(pre);
    assert(pred(k) == starts_with_spec(k, pre));
    assert(k.subrange(0, pre.len() as int) =~= pre);
    assert(pred(k));
    let ks0 = kv0.kv_keys();
    let ks1 = kv1.kv_keys();
    reveal(Seq::filter);
    assert(ks1.drop_last() =~= ks0);
    assert(ks1.filter(pred) == ks0.filter(pred).push(k));
    crate::kv::KvStore::lemma_keys_in_dom(kv0);
    assert(!ks0.contains(k)) by {
        if ks0.contains(k) {
            let t = choose|t: int| 0 <= t < ks0.len() && ks0[t] == k;
            assert(kv0.kv_map().contains_key(ks0[t]));
        }
    }
    assert(!ks0.filter(pred).contains(k)) by {
        if ks0.filter(pred).contains(k) {
            lemma_filter_keys_subset(ks0, pred, k);
        }
    }
    lemma_collect_fresh_key::<T>(kv0.kv_map(), ks0.filter(pred), k, rec.enc_spec());
    rec.lemma_round_trip();
    assert(collect_records::<T>(kv1.kv_map(), ks0.filter(pred).push(k)) == collect_records::<T>(
        kv1.kv_map(),
        ks0.filter(pred),
    ).push(rec@)) by {
        let full = ks0.filter(pred).push(k);
        assert(full.drop_last() =~= ks0.filter(pred));
        assert(full.last() == k);
        assert(kv1.kv_map().contains_key(k));
        assert(kv1.kv_map()[k] == rec.enc_spec());
    }
}

proof fn lemma_filter_keys_subset(ks: Seq<Seq<u8>>, pred: spec_fn(Seq<u8>) -> bool, x: Seq<u8>)
    requires
        ks.filter(pred).contains(x),
    ensures
        ks.contains(x),
    decreases ks.len(),
{
    reveal(Seq::filter);
    if ks.len() > 0 {
        if pred(ks.last()) && x == ks.last() {
            assert(ks[ks.len() - 1] == x);
        } else {
            let f = ks.filter(pred);
            let fd = ks.drop_last().filter(pred);
            let j = choose|j: int| 0 <= j < f.len() && f[j] == x;
            if pred(ks.last()) {
                assert(f == fd.push(ks.last()));
                assert(j < f.len() - 1);
                assert(fd[j] == x);
            } else {
                assert(f == fd);
            }
            assert(fd.contains(x));
            lemma_filter_keys_subset(ks.drop_last(), pred, x);
            let t = choose|t: int| 0 <= t < ks.drop_last().len() && ks.drop_last()[t] == x;
            assert(ks[t] == x);
        }
    }
}


// -------------------------------------------------------------------------
// meals: the owner's index set and the soft uniqueness key
// -------------------------------------------------------------------------
/// The set key holding a user's meal ids.
pub open spec fn meals_set_key(user: Seq<u8>) -> Seq<u8> {
    s2b("meals:"@) + user
}

pub fn make_meals_set_key(user: &Vec<u8>) -> (r: Vec<u8>)
    ensures
        r@ == meals_set_key(user@),
{
    proof {
        reveal_strlit("meals:");
    }
    let mut out = lit("meals:");
    let mut u = crate::bytes::clone_bytes(user);
    out.append(&mut u);
    proof {
        assert(out@ =~= meals_set_key(user@));
    }
    out
}

/// Saves a meal: registers its id in the owner's index set, then writes
/// the record.
pub fn save_meal(kv: &mut KvStore, m: &Meal)
    requires
        old(kv).wf(),
        date_valid(m@.date),
    ensures
        final(kv).wf(),
        final(kv).kv_map() == old(kv).kv_map().insert(
            record_key(s2b("meal"@), m@.id),
            enc_meal(m@),
        ),
        final(kv).sets_map() == old(kv).sets_map().insert(
            meals_set_key(m@.username),
            if old(kv).set_members(meals_set_key(m@.username)).contains(m@.id) {
                old(kv).set_members(meals_set_key(m@.username))
            } else {
                old(kv).set_members(meals_set_key(m@.username)).push(m@.id)
            },
        ),
        !old(kv).kv_map().contains_key(record_key(s2b("meal"@), m@.id)) ==> final(kv).kv_keys()
            == old(kv).kv_keys().push(record_key(s2b("meal"@), m@.id)),
        old(kv).kv_map().contains_key(record_key(s2b("meal"@), m@.id))
            ==> final(kv).kv_keys().to_multiset() == old(kv).kv_keys().to_multiset(),
{
    let skey = make_meals_set_key(&m.username);
    let id = crate::bytes::clone_bytes(&m.id);
    kv.sadd(skey, id);
    default_save::<Meal>(kv, m);
}

/// The meals the given ids resolve to, skipping ids that do not.
pub open spec fn meals_of(m: Map<Seq<u8>, Seq<u8>>, ids: Seq<Seq<u8>>) -> Seq<MealView>
    decreases ids.len(),
{
    if ids.len() == 0 {
        Seq::empty()
    } else {
        let front = meals_of(m, ids.drop_last());
        match fetch_spec::<Meal>(m, ids.last()) {
            Some(v) => front.push(v),
            None => front,
        }
    }
}

impl Meal {
    /// Every meal on the user's index set, in the set's insertion order;
    /// ids that no longer resolve are skipped.
    pub fn get_meals_for_user(kv: &KvStore, user_id: &Vec<u8>) -> (r: Vec<Meal>)
        requires
            kv.wf(),
        ensures
            views_of(r@) == meals_of(kv.kv_map(), kv.set_members(meals_set_key(user_id@))),
            forall|i: int| 0 <= i < r@.len() ==> date_valid((#[trigger] r@[i])@.date),
    {
        let skey = make_meals_set_key(user_id);
        let ids = kv.smembers(&skey);
        let ghost idv = ids.deep_view();
        let mut out: Vec<Meal> = Vec::new();
        let mut i: usize = 0;
        while i < ids.len()
            invariant
                kv.wf(),
                i <= ids@.len(),
                idv == ids.deep_view(),
                views_of(out@) == meals_of(kv.kv_map(), idv.subrange(0, i as int)),
                forall|t: int| 0 <= t < out@.len() ==> date_valid((#[trigger] out@[t])@.date),
            decreases ids@.len() - i,
        {
            proof {
                assert(idv[i as int] == ids@[i as int]@);
                assert(idv.subrange(0, i + 1).drop_last() =~= idv.subrange(0, i as int));
                assert(idv.subrange(0, i + 1).last() == idv[i as int]);
            }
            match fetch_from_uuid::<Meal>(kv, &ids[i]) {
                Some(m) => {
                    out.push(m);
                    proof {
                        assert(views_of(out@) =~= meals_of(kv.kv_map(), idv.subrange(0, i + 1)));
                    }
                },
                None => {
                    proof {
                        assert(views_of(out@) =~= meals_of(kv.kv_map(), idv.subrange(0, i + 1)));
                    }
                },
            }
            i = i + 1;
        }
        proof {
            assert(idv.subrange(0, idv.len() as int) =~= idv);
        }
        out
    }
}

/// The id of the first meal in the list owned by `user` on `date` with the
/// given type, if any: the soft uniqueness key.
pub open spec fn find_matching(
    ms: Seq<MealView>,
    user: Seq<u8>,
    date: Date,
    mt: MealType,
) -> Option<Seq<u8>>
    decreases ms.len(),
{
    if ms.len() == 0 {
        None
    } else if ms[0].date == date && ms[0].meal_type == mt && ms[0].username == user {
        Some(ms[0].id)
    } else {
        find_matching(ms.drop_first(), user, date, mt)
    }
}

/// Returns the id of the user's existing meal for the date and type, or
/// creates an empty one under `new_id` and returns that: visiting a slot
/// twice yields the same id.
pub fn find_or_create_meal(
    kv: &mut KvStore,
    username: &Vec<u8>,
    date: Date,
    meal_type: MealType,
    new_id: Vec<u8>,
) -> (r: Vec<u8>)
    requires
        old(kv).wf(),
        date_valid(date),
    ensures
        final(kv).wf(),
        ({
            let found = find_matching(
                meals_of(old(kv).kv_map(), old(kv).set_members(meals_set_key(username@))),
                username@,
                date,
                meal_type,
            );
            match found {
                Some(id) => r@ == id && final(kv).kv_map() == old(kv).kv_map()
                    && final(kv).sets_map() == old(kv).sets_map(),
                None => r@ == new_id@ && final(kv).kv_map() == old(kv).kv_map().insert(
                    record_key(s2b("meal"@), new_id@),
                    enc_meal(
                        MealView {
                            contents: Seq::empty(),
                            id: new_id@,
                            username: username@,
                            date: date,
                            meal_type: meal_type,
                        },
                    ),
                ) && final(kv).sets_map() == old(kv).sets_map().insert(
                    meals_set_key(username@),
                    if old(kv).set_members(meals_set_key(username@)).contains(new_id@) {
                        old(kv).set_members(meals_set_key(username@))
                    } else {
                        old(kv).set_members(meals_set_key(username@)).push(new_id@)
                    },
                ),
            }
        }),
{
    let meals = Meal::get_meals_for_user(kv, username);
    let ghost mv = views_of(meals@);
    proof {
        assert(mv.skip(0) =~= mv);
    }
    let mut i: usize = 0;
    while i < meals.len()
        invariant
            i <= meals@.len(),
            *kv == *old(kv),
            kv.wf(),
            mv == views_of(meals@),
            mv == meals_of(old(kv).kv_map(), old(kv).set_members(meals_set_key(username@))),
            find_matching(mv, username@, date, meal_type) == find_matching(
                mv.skip(i as int),
                username@,
                date,
                meal_type,
            ),
        decreases meals@.len() - i,
    {
        proof {
            assert(mv.skip(i as int)[0] == mv[i as int]);
            assert(mv[i as int] == meals@[i as int]@);
            assert(mv.skip(i as int).drop_first() =~= mv.skip(i + 1));
        }
        let m = &meals[i];
        if m.date == date && meal_type_eq(&m.meal_type, &meal_type) && crate::bytes::bytes_eq(
            &m.username,
            username,
        ) {
            proof {
                assert(find_matching(mv.skip(i as int), username@, date, meal_type) == Some(
                    mv[i as int].id,
                ));
            }
            return crate::bytes::clone_bytes(&m.id);
        }
        i = i + 1;
    }
    proof {
        assert(mv.skip(mv.len() as int) =~= Seq::<MealView>::empty());
    }
    let meal = Meal {
        contents: Vec::new(),
        id: new_id,
        username: crate::bytes::clone_bytes(username),
        date,
        meal_type,
    };
    proof {
        assert(meal.contents.deep_view() =~= Seq::<MealContentView>::empty());
    }
    let r = crate::bytes::clone_bytes(&meal.id);
    save_meal(kv, &meal);
    r
}

fn meal_type_eq(a: &MealType, b: &MealType) -> (r: bool)
    ensures
        r == (a == b),
{
    match (a, b) {
        (MealType::Breakfast, MealType::Breakfast) => true,
        (MealType::Lunch, MealType::Lunch) => true,
        (MealType::Dinner, MealType::Dinner) => true,
        (MealType::Snack, MealType::Snack) => true,
        _ => false,
    }
}

// -------------------------------------------------------------------------
// products: the name index and local search
// -------------------------------------------------------------------------
/// The index key carrying a product's lowercased display name.
pub open spec fn name_index_key(lowered: Seq<u8>) -> Seq<u8> {
    s2b("product_name:"@) + lowered
}

/// Saves a product; one with a display name is also registered in the
/// name index, its lowercased name mapping to its code.
/// A record key and a name-index key never coincide: their fixed prefixes
/// differ where one holds a colon and the other an underscore.
proof fn lemma_product_keys_disjoint(code: Seq<u8>, lowered: Seq<u8>)
    ensures
        record_key(s2b("product"@), code) != name_index_key(lowered),
{
    reveal_strlit("product");
    reveal_strlit("product_name:");
    let k1 = record_key(s2b("product"@), code);
    let k2 = name_index_key(lowered);
    assert(k1[7] == COLON);
    assert(k2[7] == ('_' as u8));
}

pub fn save_product(kv: &mut KvStore, p: &Product)
    requires
        old(kv).wf(),
    ensures
        final(kv).wf(),
        final(kv).sets@ == old(kv).sets@,
        match p@.product_name {
            Some(name) => final(kv).kv_map() == old(kv).kv_map().insert(
                record_key(s2b("product"@), p@.code),
                enc_product(p@),
            ).insert(name_index_key(lower_spec(name)), p@.code),
            None => final(kv).kv_map() == old(kv).kv_map().insert(
                record_key(s2b("product"@), p@.code),
                enc_product(p@),
            ),
        },
        ({
            let k1 = record_key(s2b("product"@), p@.code);
            match p@.product_name {
                Some(name) => {
                    let k2 = name_index_key(lower_spec(name));
                    &&& !old(kv).kv_map().contains_key(k1) && !old(kv).kv_map().contains_key(k2)
                        ==> final(kv).kv_keys() == old(kv).kv_keys().push(k1).push(k2)
                    &&& old(kv).kv_map().contains_key(k1) && !old(kv).kv_map().contains_key(k2)
                        ==> final(kv).kv_keys().to_multiset() == old(
                        kv,
                    ).kv_keys().to_multiset().insert(k2)
                    &&& !old(kv).kv_map().contains_key(k1) && old(kv).kv_map().contains_key(k2)
                        ==> final(kv).kv_keys().to_multiset() == old(
                        kv,
                    ).kv_keys().to_multiset().insert(k1)
                    &&& old(kv).kv_map().contains_key(k1) && old(kv).kv_map().contains_key(k2)
                        ==> final(kv).kv_keys().to_multiset() == old(kv).kv_keys().to_multiset()
                },
                None => {
                    &&& !old(kv).kv_map().contains_key(k1) ==> final(kv).kv_keys() == old(
                        kv,
                    ).kv_keys().push(k1)
                    &&& old(kv).kv_map().contains_key(k1) ==> final(kv).kv_keys().to_multiset()
                        == old(kv).kv_keys().to_multiset()
                },
            }
        }),
{
    default_save::<Product>(kv, p);
    match &p.product_name {
        Some(name) => {
            let ghost mid = *kv;
            proof {
                reveal_strlit("product_name:");
            }
            let lowered = to_lowercase(name);
            let mut key = lit("product_name:");
            let mut l = lowered;
            key.append(&mut l);
            proof {
                assert(key@ =~= name_index_key(lower_spec(p@.product_name->Some_0)));
                lemma_product_keys_disjoint(p@.code, lower_spec(p@.product_name->Some_0));
            }
            kv.set_value(key, crate::bytes::clone_bytes(&p.code));
            proof {
                let k1 = record_key(s2b("product"@), p@.code);
                let k2 = name_index_key(lower_spec(p@.product_name->Some_0));
                assert(mid.kv_map().contains_key(k2) == old(kv).kv_map().contains_key(k2));
                if !old(kv).kv_map().contains_key(k1) && !old(kv).kv_map().contains_key(k2) {
                } else {
                    mid.kv_keys().to_multiset_ensures();
                    old(kv).kv_keys().to_multiset_ensures();
                    if !old(kv).kv_map().contains_key(k2) {
                        assert(kv.kv_keys() == mid.kv_keys().push(k2));
                        mid.kv_keys().push(k2).to_multiset_ensures();
                    }
                }
            }
        },
        None => {},
    }
}

/// The product a name-index key resolves to, if the chain holds.
pub open spec fn resolve_name_key(m: Map<Seq<u8>, Seq<u8>>, k: Seq<u8>) -> Option<ProductView> {
    if m.contains_key(k) {
        fetch_spec::<Product>(m, m[k])
    } else {
        None
    }
}

/// The products a list of name-index keys resolves to.
pub open spec fn resolve_name_keys(m: Map<Seq<u8>, Seq<u8>>, ks: Seq<Seq<u8>>) -> Seq<ProductView>
    decreases ks.len(),
{
    if ks.len() == 0 {
        Seq::empty()
    } else {
        let front = resolve_name_keys(m, ks.drop_last());
        match resolve_name_key(m, ks.last()) {
            Some(v) => front.push(v),
            None => front,
        }
    }
}

impl Product {
    /// Searches the name index: every stored name containing the lowered
    /// query resolves to its product; dangling index entries are skipped.
    pub fn search_local(kv: &KvStore, query: &Vec<u8>) -> (r: Vec<Product>)
        requires
            kv.wf(),
        ensures
            views_of(r@) == resolve_name_keys(
                kv.kv_map(),
                kv.kv_keys().filter(
                    prefix_contains_fn(s2b("product_name:"@), lower_spec(query@)),
                ),
            ),
    {
        proof {
            reveal_strlit("product_name:");
        }
        let lowered = to_lowercase(query);
        let prefix = lit("product_name:");
        let keys = kv.keys_with_prefix_containing(&prefix, &lowered);
        let ghost ks = keys.deep_view();
        let mut out: Vec<Product> = Vec::new();
        let mut i: usize = 0;
        while i < keys.len()
            invariant
                kv.wf(),
                i <= keys@.len(),
                ks == keys.deep_view(),
                views_of(out@) == resolve_name_keys(kv.kv_map(), ks.subrange(0, i as int)),
            decreases keys@.len() - i,
        {
            proof {
                assert(ks[i as int] == keys@[i as int]@);
                assert(ks.subrange(0, i + 1).drop_last() =~= ks.subrange(0, i as int));
                assert(ks.subrange(0, i + 1).last() == ks[i as int]);
            }
            match kv.get_value(&keys[i]) {
                Some(code) => {
                    match fetch_from_uuid::<Product>(kv, &code) {
                        Some(p) => {
                            out.push(p);
                            proof {
                                assert(views_of(out@) =~= resolve_name_keys(
                                    kv.kv_map(),
                                    ks.subrange(0, i + 1),
                                ));
                            }
                        },
                        None => {
                            proof {
                                assert(views_of(out@) =~= resolve_name_keys(
                                    kv.kv_map(),
                                    ks.subrange(0, i + 1),
                                ));
                            }
                        },
                    }
                },
                None => {
                    proof {
                        assert(views_of(out@) =~= resolve_name_keys(
                            kv.kv_map(),
                            ks.subrange(0, i + 1),
                        ));
                    }
                },
            }
            i = i + 1;
        }
        proof {
            assert(ks.subrange(0, ks.len() as int) =~= ks);
        }
        out
    }
}

// -------------------------------------------------------------------------
// users: create-if-absent, else refresh the role
// -------------------------------------------------------------------------
impl User {
    /// The stored user of that id, or an error where none is stored.
    pub fn check_if_exists_by_id(kv: &KvStore, id: &Vec<u8>) -> (r: Result<User, ()>)
        requires
            kv.wf(),
        ensures
            match r {
                Ok(u) => fetch_spec::<User>(kv.kv_map(), id@) == Some(u@),
                Err(_) => fetch_spec::<User>(kv.kv_map(), id@) is None,
            },
    {
        match fetch_from_uuid::<User>(kv, id) {
            Some(u) => Ok(u),
            None => Err(()),
        }
    }

    /// Returns the stored user with their role refreshed from the login
    /// name, or creates and stores a fresh one under that name.
    pub fn check_if_exists_or_create(kv: &mut KvStore, username: &Vec<u8>, email: &Vec<u8>) -> (r:
        User)
        requires
            old(kv).wf(),
        ensures
            final(kv).wf(),
            r@.user_type == role_for_spec(username@),
            match fetch_spec::<User>(old(kv).kv_map(), username@) {
                Some(u) => r@.id == u.id && r@.name == u.name && r@.email == u.email
                    && final(kv).kv_map() == old(kv).kv_map(),
                None => r@.id == username@ && r@.name == username@ && r@.email == email@
                    && final(kv).kv_map() == old(kv).kv_map().insert(
                    record_key(s2b("user"@), username@),
                    enc_user(r@),
                ),
            },
            final(kv).sets@ == old(kv).sets@,
    {
        let role = role_for_username(username);
        match fetch_from_uuid::<User>(kv, username) {
            Some(u) => {
                let User { id, name, email: em, user_type: _ } = u;
                User { id, name, email: em, user_type: role }
            },
            None => {
                let user = User {
                    id: crate::bytes::clone_bytes(username),
                    name: crate::bytes::clone_bytes(username),
                    email: crate::bytes::clone_bytes(email),
                    user_type: role,
                };
                default_save::<User>(kv, &user);
                user
            },
        }
    }

    /// Stores the fixed sample user.
    pub fn create_default_user(kv: &mut KvStore) -> (r: User)
        requires
            old(kv).wf(),
        ensures
            final(kv).wf(),
            final(kv).kv_map() == old(kv).kv_map().insert(
                record_key(s2b("user"@), r@.id),
                enc_user(r@),
            ),
    {
        let user = User::example();
        default_save::<User>(kv, &user);
        user
    }

    /// Every meal on this user's index set.
    pub fn fetch_user_meals(&self, kv: &KvStore) -> (r: Vec<Meal>)
        requires
            kv.wf(),
        ensures
            views_of(r@) == meals_of(kv.kv_map(), kv.set_members(meals_set_key(self@.id))),
    {
        Meal::get_meals_for_user(kv, &self.id)
    }
}

// -------------------------------------------------------------------------
// cached searches
// -------------------------------------------------------------------------
pub const SEARCH_TTL_SECONDS: u64 = 604800;

/// The cached foods for a query, if a cache record is stored.
pub fn usda_cached_lookup(kv: &KvStore, query: &Vec<u8>) -> (r: Option<Vec<Food>>)
    requires
        kv.wf(),
    ensures
        match r {
            Some(foods) => exists|v: FoodSearchResultView|
                fetch_spec::<FoodSearchResult>(kv.kv_map(), query@) == Some(v) && views_of(foods@)
                    == v.products,
            None => fetch_spec::<FoodSearchResult>(kv.kv_map(), query@) is None,
        },
{
    match fetch_from_uuid::<FoodSearchResult>(kv, query) {
        Some(sr) => {
            let ghost v = sr@;
            let FoodSearchResult { products, query: _ } = sr;
            proof {
                assert(views_of(products@) =~= v.products);
            }
            Some(products)
        },
        None => None,
    }
}

/// Saves each returned food, then the cache record for the query, with the
/// retention window.
/// The map after writing each food under `usda_food:{id}`, in order: of
/// foods sharing an id, the last one wins.
pub open spec fn save_foods_map(m: Map<Seq<u8>, Seq<u8>>, fs: Seq<FoodView>) -> Map<Seq<u8>, Seq<u8>>
    decreases fs.len(),
{
    if fs.len() == 0 {
        m
    } else {
        save_foods_map(m, fs.drop_last()).insert(
            record_key(s2b("usda_food"@), crate::codec::enc_u64(fs.last().id as int)),
            enc_food(fs.last()),
        )
    }
}

pub fn usda_cache_store(kv: &mut KvStore, query: Vec<u8>, foods: Vec<Food>)
    requires
        old(kv).wf(),
    ensures
        final(kv).wf(),
        final(kv).sets@ == old(kv).sets@,
        final(kv).kv_map() == save_foods_map(old(kv).kv_map(), views_of(foods@)).insert(
            record_key(s2b("usda_search"@), query@),
            enc_food_search(FoodSearchResultView { products: views_of(foods@), query: query@ }),
        ),
        fetch_spec::<FoodSearchResult>(final(kv).kv_map(), query@) == Some(
            FoodSearchResultView { products: views_of(foods@), query: query@ },
        ),
        final(kv).ttl_map()[record_key(s2b("usda_search"@), query@)] == Some(
            SEARCH_TTL_SECONDS as u64,
        ),
{
    let ghost fvs = views_of(foods@);
    let mut i: usize = 0;
    while i < foods.len()
        invariant
            kv.wf(),
            kv.sets@ == old(kv).sets@,
            i <= foods@.len(),
            fvs == views_of(foods@),
            kv.kv_map() == save_foods_map(old(kv).kv_map(), fvs.subrange(0, i as int)),
        decreases foods@.len() - i,
    {
        proof {
            assert(fvs[i as int] == foods@[i as int]@);
            assert(fvs.subrange(0, i + 1).drop_last() =~= fvs.subrange(0, i as int));
            assert(fvs.subrange(0, i + 1).last() == fvs[i as int]);
        }
        default_save::<Food>(kv, &foods[i]);
        i = i + 1;
    }
    proof {
        assert(fvs.subrange(0, fvs.len() as int) =~= fvs);
    }
    let sr = FoodSearchResult { products: foods, query };
    default_save_expire::<FoodSearchResult>(kv, &sr, SEARCH_TTL_SECONDS);
    proof {
        lemma_save_then_fetch::<FoodSearchResult>(kv.kv_map().remove(
            record_key(s2b("usda_search"@), sr.query@),
        ), sr);
        assert(kv.kv_map() == kv.kv_map().remove(
            record_key(s2b("usda_search"@), sr.query@),
        ).insert(record_key(s2b("usda_search"@), sr.query@), sr.enc_spec())) by {
            assert(kv.kv_map() =~= kv.kv_map().remove(
                record_key(s2b("usda_search"@), sr.query@),
            ).insert(record_key(s2b("usda_search"@), sr.query@), sr.enc_spec()));
        }
        assert(sr@.products =~= views_of(sr.products@));
    }
}

/// The cached products for a query, if a cache record is stored.
pub fn openff_cached_lookup(kv: &KvStore, query: &Vec<u8>) -> (r: Option<Vec<Product>>)
    requires
        kv.wf(),
    ensures
        match r {
            Some(products) => exists|v: SearchResultView|
                fetch_spec::<SearchResult>(kv.kv_map(), query@) == Some(v) && views_of(products@)
                    == v.products,
            None => fetch_spec::<SearchResult>(kv.kv_map(), query@) is None,
        },
{
    match fetch_from_uuid::<SearchResult>(kv, query) {
        Some(sr) => {
            let ghost v = sr@;
            let SearchResult { products, query: _ } = sr;
            proof {
                assert(views_of(products@) =~= v.products);
            }
            Some(products)
        },
        None => None,
    }
}

/// Saves each returned product (with its name-index entry), then the cache
/// record for the query, with the retention window.
/// The map after writing each product under `product:{code}` with its
/// name-index entry, in order: of products sharing a code or a lowered
/// name, the last one wins.
pub open spec fn save_products_map(m: Map<Seq<u8>, Seq<u8>>, ps: Seq<ProductView>) -> Map<
    Seq<u8>,
    Seq<u8>,
>
    decreases ps.len(),
{
    if ps.len() == 0 {
        m
    } else {
        let p = ps.last();
        let m2 = save_products_map(m, ps.drop_last()).insert(
            record_key(s2b("product"@), p.code),
            enc_product(p),
        );
        match p.product_name {
            Some(name) => m2.insert(name_index_key(lower_spec(name)), p.code),
            None => m2,
        }
    }
}

pub fn openff_cache_store(kv: &mut KvStore, query: Vec<u8>, products: Vec<Product>)
    requires
        old(kv).wf(),
    ensures
        final(kv).wf(),
        final(kv).sets@ == old(kv).sets@,
        final(kv).kv_map() == save_products_map(old(kv).kv_map(), views_of(products@)).insert(
            record_key(s2b("ffsearch"@), query@),
            enc_search_result(SearchResultView { products: views_of(products@), query: query@ }),
        ),
        fetch_spec::<SearchResult>(final(kv).kv_map(), query@) == Some(
            SearchResultView { products: views_of(products@), query: query@ },
        ),
        final(kv).ttl_map()[record_key(s2b("ffsearch"@), query@)] == Some(
            SEARCH_TTL_SECONDS as u64,
        ),
{
    let ghost pvs = views_of(products@);
    let mut i: usize = 0;
    while i < products.len()
        invariant
            kv.wf(),
            kv.sets@ == old(kv).sets@,
            i <= products@.len(),
            pvs == views_of(products@),
            kv.kv_map() == save_products_map(old(kv).kv_map(), pvs.subrange(0, i as int)),
        decreases products@.len() - i,
    {
        proof {
            assert(pvs[i as int] == products@[i as int]@);
            assert(pvs.subrange(0, i + 1).drop_last() =~= pvs.subrange(0, i as int));
            assert(pvs.subrange(0, i + 1).last() == pvs[i as int]);
        }
        save_product(kv, &products[i]);
        i = i + 1;
    }
    proof {
        assert(pvs.subrange(0, pvs.len() as int) =~= pvs);
    }
    let sr = SearchResult { products, query: NutritionistSearchQuery { query } };
    default_save_expire::<SearchResult>(kv, &sr, SEARCH_TTL_SECONDS);
    proof {
        lemma_save_then_fetch::<SearchResult>(kv.kv_map().remove(
            record_key(s2b("ffsearch"@), sr.query.query@),
        ), sr);
        assert(kv.kv_map() =~= kv.kv_map().remove(
            record_key(s2b("ffsearch"@), sr.query.query@),
        ).insert(record_key(s2b("ffsearch"@), sr.query.query@), sr.enc_spec()));
        assert(sr@.products =~= views_of(sr.products@));
    }
}

// -------------------------------------------------------------------------
// adding and removing meal contents in the store
// -------------------------------------------------------------------------
/// Why adding a content entry to a stored meal could not proceed.
#[derive(Debug, Clone, Copy, PartialEq, Eq, Structural)]
pub enum AddContentError {
    MealNotFound,
    ProductNotFound,
}

/// Fetches the meal and the food, appends a content entry of the given
/// quantity under `content_id`, and saves the meal back.
pub fn add_content_to_meal(
    kv: &mut KvStore,
    meal_id: &Vec<u8>,
    product_code: &Vec<u8>,
    quantity: u64,
    content_id: Vec<u8>,
) -> (r: Result<(), AddContentError>)
    requires
        old(kv).wf(),
    ensures
        final(kv).wf(),
        ({
            let fm = fetch_spec::<Meal>(old(kv).kv_map(), meal_id@);
            let ff = fetch_spec::<Food>(old(kv).kv_map(), product_code@);
            match r {
                Ok(_) => fm is Some && ff is Some && ({
                    let mv = fm->Some_0;
                    let grown = MealView {
                        contents: mv.contents.push(
                            MealContentView {
                                product: ff->Some_0,
                                quantity: quantity,
                                id: content_id@,
                            },
                        ),
                        id: mv.id,
                        username: mv.username,
                        date: mv.date,
                        meal_type: mv.meal_type,
                    };
                    final(kv).kv_map() == old(kv).kv_map().insert(
                        record_key(s2b("meal"@), mv.id),
                        enc_meal(grown),
                    ) && final(kv).sets_map() == old(kv).sets_map().insert(
                        meals_set_key(mv.username),
                        if old(kv).set_members(meals_set_key(mv.username)).contains(mv.id) {
                            old(kv).set_members(meals_set_key(mv.username))
                        } else {
                            old(kv).set_members(meals_set_key(mv.username)).push(mv.id)
                        },
                    )
                }),
                Err(e) => (fm is None || ff is None) && final(kv).kv_map() == old(kv).kv_map()
                    && final(kv).sets_map() == old(kv).sets_map() && (e
                    == AddContentError::MealNotFound <==> fm is None) && (e
                    == AddContentError::ProductNotFound ==> fm is Some && ff is None),
            }
        }),
{
    let meal = match fetch_from_uuid::<Meal>(kv, meal_id) {
        Some(m) => m,
        None => {
            return Err(AddContentError::MealNotFound);
        },
    };
    let food = match fetch_from_uuid::<Food>(kv, product_code) {
        Some(f) => f,
        None => {
            return Err(AddContentError::ProductNotFound);
        },
    };
    let ghost mv = meal@;
    let ghost fv = food@;
    let mut meal = meal;
    meal.add_content(crate::meal::MealContent { product: food, quantity, id: content_id });
    proof {
        assert(meal@ == MealView {
            contents: mv.contents.push(
                MealContentView { product: fv, quantity: quantity, id: content_id@ },
            ),
            id: mv.id,
            username: mv.username,
            date: mv.date,
            meal_type: mv.meal_type,
        });
    }
    save_meal(kv, &meal);
    Ok(())
}


// -------------------------------------------------------------------------
// saving many records at once
// -------------------------------------------------------------------------
proof fn lemma_record_key_injective(tn: Seq<u8>, id1: Seq<u8>, id2: Seq<u8>)
    requires
        record_key(tn, id1) == record_key(tn, id2),
    ensures
        id1 == id2,
{
    let k1 = record_key(tn, id1);
    let k2 = record_key(tn, id2);
    assert(id1 =~= k1.skip(tn.len() as int + 1));
    assert(id2 =~= k2.skip(tn.len() as int + 1));
}

/// Saves records whose ids the store does not yet hold: the collection's
/// enumeration afterwards is the old one followed by exactly these records.
/// In particular, saving N records with pairwise-distinct fresh ids leaves
/// `all_records` returning N more records, for every N.
pub fn save_all<T: RedisORM>(kv: &mut KvStore, rs: &Vec<T>)
    requires
        old(kv).wf(),
        forall|i: int| 0 <= i < rs@.len() ==> (#[trigger] rs@[i]).rec_wf(),
        forall|i: int, j: int|
            0 <= i < j < rs@.len() ==> (#[trigger] rs@[i]).id_spec() != (
            #[trigger] rs@[j]).id_spec(),
        forall|i: int|
            0 <= i < rs@.len() ==> !old(kv).kv_map().contains_key(
                record_key(T::type_name_spec(), (#[trigger] rs@[i]).id_spec()),
            ),
    ensures
        final(kv).wf(),
        all_spec::<T>(*final(kv)) == all_spec::<T>(*old(kv)) + views_of(rs@),
{
    let ghost vs = views_of(rs@);
    proof {
        assert(all_spec::<T>(*kv) =~= all_spec::<T>(*old(kv)) + vs.subrange(0, 0));
    }
    let mut i: usize = 0;
    while i < rs.len()
        invariant
            kv.wf(),
            i <= rs@.len(),
            vs == views_of(rs@),
            forall|t: int| 0 <= t < rs@.len() ==> (#[trigger] rs@[t]).rec_wf(),
            forall|a: int, b: int|
                0 <= a < b < rs@.len() ==> (#[trigger] rs@[a]).id_spec() != (
                #[trigger] rs@[b]).id_spec(),
            forall|t: int|
                i <= t < rs@.len() ==> !kv.kv_map().contains_key(
                    record_key(T::type_name_spec(), (#[trigger] rs@[t]).id_spec()),
                ),
            all_spec::<T>(*kv) == all_spec::<T>(*old(kv)) + vs.subrange(0, i as int),
        decreases rs@.len() - i,
    {
        let ghost pre = *kv;
        default_save::<T>(kv, &rs[i]);
        proof {
            lemma_all_after_fresh_save::<T>(pre, *kv, rs@[i as int]);
            assert(vs[i as int] == rs@[i as int]@);
            assert(all_spec::<T>(*old(kv)) + vs.subrange(0, i + 1) =~= (all_spec::<T>(*old(kv))
                + vs.subrange(0, i as int)).push(vs[i as int]));
            assert forall|t: int|
                i + 1 <= t < rs@.len() implies !kv.kv_map().contains_key(
                record_key(T::type_name_spec(), (#[trigger] rs@[t]).id_spec()),
            ) by {
                if record_key(T::type_name_spec(), rs@[t].id_spec()) == record_key(
                    T::type_name_spec(),
                    rs@[i as int].id_spec(),
                ) {
                    lemma_record_key_injective(
                        T::type_name_spec(),
                        rs@[t].id_spec(),
                        rs@[i as int].id_spec(),
                    );
                }
            }
        }
        i = i + 1;
    }
    proof {
        assert(vs.subrange(0, vs.len() as int) =~= vs);
    }
}

// -------------------------------------------------------------------------
// resolving delegated users
// -------------------------------------------------------------------------
/// The users the given ids resolve to, skipping ids that do not.
pub open spec fn users_of(m: Map<Seq<u8>, Seq<u8>>, ids: Seq<Seq<u8>>) -> Seq<UserView>
    decreases ids.len(),
{
    if ids.len() == 0 {
        Seq::empty()
    } else {
        let front = users_of(m, ids.drop_last());
        match fetch_spec::<User>(m, ids.last()) {
            Some(v) => front.push(v),
            None => front,
        }
    }
}

/// The stored user of each delegated id, in list order; ids without a
/// stored user are skipped.
pub fn resolve_delegated(kv: &KvStore, ids: &Vec<Vec<u8>>) -> (r: Vec<User>)
    requires
        kv.wf(),
    ensures
        views_of(r@) == users_of(kv.kv_map(), ids.deep_view()),
{
    let ghost idv = ids.deep_view();
    let mut out: Vec<User> = Vec::new();
    let mut i: usize = 0;
    while i < ids.len()
        invariant
            kv.wf(),
            i <= ids@.len(),
            idv == ids.deep_view(),
            views_of(out@) == users_of(kv.kv_map(), idv.subrange(0, i as int)),
        decreases ids@.len() - i,
    {
        proof {
            assert(idv[i as int] == ids@[i as int]@);
            assert(idv.subrange(0, i + 1).drop_last() =~= idv.subrange(0, i as int));
            assert(idv.subrange(0, i + 1).last() == idv[i as int]);
        }
        match fetch_from_uuid::<User>(kv, &ids[i]) {
            Some(u) => {
                out.push(u);
                proof {
                    assert(views_of(out@) =~= users_of(kv.kv_map(), idv.subrange(0, i + 1)));
                }
            },
            None => {
                proof {
                    assert(views_of(out@) =~= users_of(kv.kv_map(), idv.subrange(0, i + 1)));
                }
            },
        }
        i = i + 1;
    }
    proof {
        assert(idv.subrange(0, idv.len() as int) =~= idv);
    }
    out
}

} // verus!
