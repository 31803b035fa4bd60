//! Meals: a dated, typed log entry owned by a user, holding a list of food
//! snapshots with quantities. Totals are computed from the snapshots at
//! read time.
use vstd::prelude::*;
use vstd::seq_lib::lemma_concat_associative;
use vstd::multiset::Multiset;
use crate::bytes::{s2b, bytes_eq, lit, views_of};
use crate::date::{Date, date_valid, date_key, enc_date_str, sp_date_str, write_date_str,
    parse_date_str, lemma_sp_date_str_inverts};
use crate::nutrients::{NutrientValues, nv_zero, nv_add, nv_portion, sat_add, sat_add_exec};
use crate::usda::{Food, FoodView, enc_food, sp_food, food_macros, lemma_sp_food_inverts};
use crate::codec::{
    enc_str, sp_str, enc_u64, sp_u64, enc_list, sp_list, sp_lit, parser_inverts, enc_starts_clean,
    enc_not_null, write_str, parse_str, write_u64, parse_u64, write_lit, parse_lit,
    lemma_sp_lit_inverts, lemma_sp_list_inverts, lemma_step_lit, lemma_step_str, lemma_step_u64,
    is_digit, QUOTE, COMMA, LBRACE, RBRACE, LBRACKET, RBRACKET,
};

verus! {

// -------------------------------------------------------------------------
// meal types
// -------------------------------------------------------------------------
#[derive(Clone, Copy, Debug, PartialEq, Eq, Structural)]
pub enum MealType {
    Breakfast,
    Lunch,
    Dinner,
    Snack,
}

pub open spec fn enc_meal_type(mt: MealType) -> Seq<u8> {
    match mt {
        MealType::Breakfast => s2b("\"Breakfast\""@),
        MealType::Lunch => s2b("\"Lunch\""@),
        MealType::Dinner => s2b("\"Dinner\""@),
        MealType::Snack => s2b("\"Snack\""@),
    }
}

pub open spec fn sp_meal_type(s: Seq<u8>, i: int) -> Option<(MealType, int)> {
    match sp_lit(s, i, s2b("\"Breakfast\""@)) {
        Some(j) => Some((MealType::Breakfast, j)),
        None => match sp_lit(s, i, s2b("\"Lunch\""@)) {
            Some(j) => Some((MealType::Lunch, j)),
            None => match sp_lit(s, i, s2b("\"Dinner\""@)) {
                Some(j) => Some((MealType::Dinner, j)),
                None => match sp_lit(s, i, s2b("\"Snack\""@)) {
                    Some(j) => Some((MealType::Snack, j)),
                    None => None,
                },
            },
        },
    }
}

proof fn lemma_lit_mismatch_at1(s: Seq<u8>, i: int, l: Seq<u8>, b: u8)
    requires
        0 <= i,
        i + 1 < s.len(),
        l.len() >= 2,
        s[i + 1] == b,
        l[1] != b,
    ensures
        sp_lit(s, i, l) is None,
{
    if i + l.len() <= s.len() {
        assert(s.subrange(i, i + l.len())[1] == s[i + 1]);
        assert(s.subrange(i, i + l.len()) != l);
    }
}

pub proof fn lemma_step_meal_type(s: Seq<u8>, pre: Seq<u8>, mt: MealType, tail: Seq<u8>)
    requires
        s == pre + (enc_meal_type(mt) + tail),
    ensures
        sp_meal_type(s, pre.len() as int) == Some::<(MealType, int)>(
            (mt, pre.len() as int + enc_meal_type(mt).len()),
        ),
        s == (pre + enc_meal_type(mt)) + tail,
{
    lemma_concat_associative(pre, enc_meal_type(mt), tail);
    reveal_strlit("\"Breakfast\"");
    reveal_strlit("\"Lunch\"");
    reveal_strlit("\"Dinner\"");
    reveal_strlit("\"Snack\"");
    let i = pre.len() as int;
    let lb = s2b("\"Breakfast\""@);
    let ll = s2b("\"Lunch\""@);
    let ld = s2b("\"Dinner\""@);
    let ls = s2b("\"Snack\""@);
    match mt {
        MealType::Breakfast => {
            lemma_sp_lit_inverts(s, pre, lb, tail);
        },
        MealType::Lunch => {
            lemma_sp_lit_inverts(s, pre, ll, tail);
            assert(s[i + 1] == ('L' as u8));
            lemma_lit_mismatch_at1(s, i, lb, 'L' as u8);
        },
        MealType::Dinner => {
            lemma_sp_lit_inverts(s, pre, ld, tail);
            assert(s[i + 1] == ('D' as u8));
            lemma_lit_mismatch_at1(s, i, lb, 'D' as u8);
            lemma_lit_mismatch_at1(s, i, ll, 'D' as u8);
        },
        MealType::Snack => {
            lemma_sp_lit_inverts(s, pre, ls, tail);
            assert(s[i + 1] == ('S' as u8));
            lemma_lit_mismatch_at1(s, i, lb, 'S' as u8);
            lemma_lit_mismatch_at1(s, i, ll, 'S' as u8);
            lemma_lit_mismatch_at1(s, i, ld, 'S' as u8);
        },
    }
}

fn write_meal_type(mt: &MealType, out: &mut Vec<u8>)
    ensures
        final(out)@ == old(out)@ + enc_meal_type(*mt),
{
    proof {
        reveal_strlit("\"Breakfast\"");
        reveal_strlit("\"Lunch\"");
        reveal_strlit("\"Dinner\"");
        reveal_strlit("\"Snack\"");
    }
    match mt {
        MealType::Breakfast => {
            write_lit("\"Breakfast\"", out);
        },
        MealType::Lunch => {
            write_lit("\"Lunch\"", out);
        },
        MealType::Dinner => {
            write_lit("\"Dinner\"", out);
        },
        MealType::Snack => {
            write_lit("\"Snack\"", out);
        },
    }
}

fn parse_meal_type(s: &Vec<u8>, i: usize) -> (r: Option<(MealType, usize)>)
    requires
        i <= s@.len(),
    ensures
        match r {
            Some((mt, j)) => sp_meal_type(s@, i as int) == Some((mt, j as int)) && i <= j
                <= s@.len(),
            None => sp_meal_type(s@, i as int) is None,
        },
{
    proof {
        reveal_strlit("\"Breakfast\"");
        reveal_strlit("\"Lunch\"");
        reveal_strlit("\"Dinner\"");
        reveal_strlit("\"Snack\"");
    }
    match parse_lit(s, i, "\"Breakfast\"") {
        Some(j) => Some((MealType::Breakfast, j)),
        None => match parse_lit(s, i, "\"Lunch\"") {
            Some(j) => Some((MealType::Lunch, j)),
            None => match parse_lit(s, i, "\"Dinner\"") {
                Some(j) => Some((MealType::Dinner, j)),
                None => match parse_lit(s, i, "\"Snack\"") {
                    Some(j) => Some((MealType::Snack, j)),
                    None => None,
                },
            },
        },
    }
}

impl MealType {
    /// The display name of this meal type.
    pub fn name(&self) -> (r: Vec<u8>)
        ensures
            seq![QUOTE] + r@ + seq![QUOTE] == enc_meal_type(*self),
    {
        proof {
            reveal_strlit("\"Breakfast\"");
            reveal_strlit("\"Lunch\"");
            reveal_strlit("\"Dinner\"");
            reveal_strlit("\"Snack\"");
            reveal_strlit("Breakfast");
            reveal_strlit("Lunch");
            reveal_strlit("Dinner");
            reveal_strlit("Snack");
        }
        let r = match self {
            MealType::Breakfast => lit("Breakfast"),
            MealType::Lunch => lit("Lunch"),
            MealType::Dinner => lit("Dinner"),
            MealType::Snack => lit("Snack"),
        };
        proof {
            assert(seq![QUOTE] + r@ + seq![QUOTE] =~= enc_meal_type(*self));
        }
        r
    }

    /// The meal type a request path names: anything unknown reads as
    /// breakfast.
    pub fn from_path(s: &Vec<u8>) -> (r: MealType)
        ensures
            s@ == s2b("lunch"@) ==> r == MealType::Lunch,
            s@ == s2b("dinner"@) ==> r == MealType::Dinner,
            s@ == s2b("snack"@) ==> r == MealType::Snack,
            s@ != s2b("lunch"@) && s@ != s2b("dinner"@) && s@ != s2b("snack"@) ==> r
                == MealType::Breakfast,
    {
        proof {
            reveal_strlit("lunch");
            reveal_strlit("dinner");
            reveal_strlit("snack");
            assert(s2b("lunch"@).len() == 5 && s2b("dinner"@).len() == 6 && s2b("snack"@).len()
                == 5);
            assert(s2b("lunch"@)[0] == ('l' as u8) && s2b("snack"@)[0] == ('s' as u8));
            assert(s2b("lunch"@) != s2b("dinner"@));
            assert(s2b("lunch"@) != s2b("snack"@));
            assert(s2b("dinner"@) != s2b("snack"@));
        }
        let l = lit("lunch");
        let d = lit("dinner");
        let k = lit("snack");
        if bytes_eq(s, &l) {
            MealType::Lunch
        } else if bytes_eq(s, &d) {
            MealType::Dinner
        } else if bytes_eq(s, &k) {
            MealType::Snack
        } else {
            MealType::Breakfast
        }
    }
}

// -------------------------------------------------------------------------
// meal contents
// -------------------------------------------------------------------------
/// One line item of a meal: an embedded food snapshot, a quantity in grams
/// of the per-100g snapshot, and an entry id used for removal.
#[derive(Debug, Clone, PartialEq, Eq)]
pub struct MealContent {
    pub product: Food,
    pub quantity: u64,
    pub id: Vec<u8>,
}

pub struct MealContentView {
    pub product: FoodView,
    pub quantity: u64,
    pub id: Seq<u8>,
}

impl View for MealContent {
    type V = MealContentView;

    open spec fn view(&self) -> MealContentView {
        MealContentView { product: self.product@, quantity: self.quantity, id: self.id@ }
    }
}

impl DeepView for MealContent {
    type V = MealContentView;

    open spec fn deep_view(&self) -> MealContentView {
        self@
    }
}

#[verifier::opaque]
pub open spec fn enc_content(c: MealContentView) -> Seq<u8> {
    s2b("{\"product\":"@) + enc_food(c.product) + s2b(",\"quantity\":"@) + enc_u64(
        c.quantity as int,
    ) + s2b(",\"id\":"@) + enc_str(c.id) + seq![RBRACE]
}

#[verifier::opaque]
pub open spec fn sp_content(s: Seq<u8>, i: int) -> Option<(MealContentView, int)> {
    match sp_lit(s, i, s2b("{\"product\":"@)) {
        None => None,
        Some(j1) => match sp_food(s, j1) {
            None => None,
            Some((product, j2)) => match sp_lit(s, j2, s2b(",\"quantity\":"@)) {
                None => None,
                Some(j3) => match sp_u64(s, j3) {
                    None => None,
                    Some((quantity, j4)) => match sp_lit(s, j4, s2b(",\"id\":"@)) {
                        None => None,
                        Some(j5) => match sp_str(s, j5) {
                            None => None,
                            Some((id, j6)) => match sp_lit(s, j6, seq![RBRACE]) {
                                None => None,
                                Some(j7) => Some((MealContentView { product, quantity, id }, j7)),
                            },
                        },
                    },
                },
            },
        },
    }
}

#[verifier::rlimit(100)]
pub proof fn lemma_sp_content_inverts(s: Seq<u8>, pre: Seq<u8>, c: MealContentView, rest: Seq<u8>)
    requires
        s == pre + enc_content(c) + rest,
    ensures
        sp_content(s, pre.len() as int) == Some::<(MealContentView, int)>(
            (c, pre.len() as int + enc_content(c).len()),
        ),
{
    reveal(enc_content);
    reveal(sp_content);
    let l1 = s2b("{\"product\":"@);
    let l2 = s2b(",\"quantity\":"@);
    let l3 = s2b(",\"id\":"@);
    reveal_strlit(",\"quantity\":");
    reveal_strlit(",\"id\":");
    let t6 = seq![RBRACE] + rest;
    let t5 = enc_str(c.id) + t6;
    let t4 = l3 + t5;
    let t3 = enc_u64(c.quantity as int) + t4;
    let t2 = l2 + t3;
    let t1 = enc_food(c.product) + t2;
    lemma_concat_associative(l1, enc_food(c.product), t2);
    let q1 = l1 + enc_food(c.product);
    lemma_concat_associative(q1, l2, t3);
    let q2 = q1 + l2;
    lemma_concat_associative(q2, enc_u64(c.quantity as int), t4);
    let q3 = q2 + enc_u64(c.quantity as int);
    lemma_concat_associative(q3, l3, t5);
    let q4 = q3 + l3;
    lemma_concat_associative(q4, enc_str(c.id), t6);
    let q5 = q4 + enc_str(c.id);
    lemma_concat_associative(q5, seq![RBRACE], rest);
    lemma_concat_associative(pre, enc_content(c), rest);
    assert(l1 + t1 == enc_content(c) + rest);
    assert(s == pre + (l1 + t1));
    lemma_step_lit(s, pre, l1, t1);
    let p1 = pre + l1;
    lemma_concat_associative(p1, enc_food(c.product), t2);
    lemma_sp_food_inverts(s, p1, c.product, t2);
    let p2 = p1 + enc_food(c.product);
    lemma_step_lit(s, p2, l2, t3);
    let p3 = p2 + l2;
    assert(t4[0] == (',' as u8));
    lemma_step_u64(s, p3, c.quantity, t4);
    let p4 = p3 + enc_u64(c.quantity as int);
    lemma_step_lit(s, p4, l3, t5);
    let p5 = p4 + l3;
    lemma_step_str(s, p5, c.id, t6);
    let p6 = p5 + enc_str(c.id);
    lemma_step_lit(s, p6, seq![RBRACE], rest);
}

fn write_content(c: &MealContent, out: &mut Vec<u8>)
    ensures
        final(out)@ == old(out)@ + enc_content(c@),
{
    proof {
        reveal(enc_content);
        reveal_strlit("{\"product\":");
        reveal_strlit(",\"quantity\":");
        reveal_strlit(",\"id\":");
    }
    write_lit("{\"product\":", out);
    let mut f = c.product.encode();
    out.append(&mut f);
    write_lit(",\"quantity\":", out);
    write_u64(c.quantity, out);
    write_lit(",\"id\":", out);
    write_str(&c.id, out);
    out.push(RBRACE);
    proof {
        assert(out@ =~= old(out)@ + enc_content(c@));
    }
}

#[verifier::rlimit(100)]
fn parse_content(s: &Vec<u8>, i: usize) -> (r: Option<(MealContent, usize)>)
    requires
        i <= s@.len(),
    ensures
        match r {
            Some((c, j)) => sp_content(s@, i as int) == Some((c@, j as int)) && i < j <= s@.len(),
            None => sp_content(s@, i as int) is None,
        },
{
    proof {
        reveal(sp_content);
        reveal_strlit("{\"product\":");
        reveal_strlit(",\"quantity\":");
        reveal_strlit(",\"id\":");
    }
    let j1 = match parse_lit(s, i, "{\"product\":") {
        Some(j) => j,
        None => {
            return None;
        },
    };
    let (product, j2) = match Food::parse_at(s, j1) {
        Some(x) => x,
        None => {
            return None;
        },
    };
    let j3 = match parse_lit(s, j2, ",\"quantity\":") {
        Some(j) => j,
        None => {
            return None;
        },
    };
    let (quantity, j4) = match parse_u64(s, j3) {
        Some(x) => x,
        None => {
            return None;
        },
    };
    let j5 = match parse_lit(s, j4, ",\"id\":") {
        Some(j) => j,
        None => {
            return None;
        },
    };
    let (id, j6) = match parse_str(s, j5) {
        Some(x) => x,
        None => {
            return None;
        },
    };
    if j6 < s.len() && s[j6] == RBRACE {
        proof {
            assert(s@.subrange(j6 as int, j6 + 1) =~= seq![RBRACE]);
            assert(sp_lit(s@, j6 as int, seq![RBRACE]) == Some(j6 + 1 as int));
        }
        Some((MealContent { product, quantity, id }, j6 + 1))
    } else {
        proof {
            if j6 < s@.len() {
                assert(s@.subrange(j6 as int, j6 + 1)[0] == s@[j6 as int]);
            }
        }
        None
    }
}

// lists of contents
pub open spec fn content_enc_fn() -> spec_fn(MealContentView) -> Seq<u8> {
    |c: MealContentView| enc_content(c)
}

pub open spec fn content_parse_fn() -> spec_fn(Seq<u8>, int) -> Option<(MealContentView, int)> {
    |s: Seq<u8>, i: int| sp_content(s, i)
}

pub proof fn lemma_content_parser_inverts()
    ensures
        parser_inverts(content_enc_fn(), content_parse_fn()),
        enc_starts_clean(content_enc_fn()),
        enc_not_null(content_enc_fn()),
{
    assert forall|x: MealContentView, pre: Seq<u8>, rest: Seq<u8>|
        #[trigger] content_parse_fn()(pre + content_enc_fn()(x) + rest, pre.len() as int)
            == Some::<(MealContentView, int)>(
            (x, pre.len() as int + content_enc_fn()(x).len()),
        ) by {
        lemma_sp_content_inverts(pre + enc_content(x) + rest, pre, x, rest);
    }
    assert forall|x: MealContentView|
        (#[trigger] content_enc_fn()(x)).len() > 0 && content_enc_fn()(x)[0] != RBRACKET
            && content_enc_fn()(x)[0] != COMMA && content_enc_fn()(x)[0] != 110 by {
        reveal(enc_content);
        reveal_strlit("{\"product\":");
        assert(enc_content(x)[0] == LBRACE);
    }
}

#[verifier::rlimit(100)]
fn write_content_items(xs: &Vec<MealContent>, k: usize, out: &mut Vec<u8>)
    requires
        k <= xs@.len(),
    ensures
        final(out)@ == old(out)@ + crate::codec::enc_items(
            xs.deep_view().skip(k as int),
            content_enc_fn(),
        ),
    decreases xs@.len() - k,
{
    if k == xs.len() {
        proof {
            assert(xs.deep_view().skip(k as int) =~= Seq::<MealContentView>::empty());
            assert(out@ =~= old(out)@ + crate::codec::enc_items(
                xs.deep_view().skip(k as int),
                content_enc_fn(),
            ));
        }
    } else {
        write_content(&xs[k], out);
        proof {
            assert(xs.deep_view().skip(k as int)[0] == xs@[k as int]@);
        }
        if k + 1 < xs.len() {
            out.push(COMMA);
            write_content_items(xs, k + 1, out);
            proof {
                let tail = xs.deep_view().skip(k as int);
                assert(tail.drop_first() =~= xs.deep_view().skip(k + 1));
                assert(crate::codec::enc_items(tail, content_enc_fn()) == content_enc_fn()(tail[0])
                    + seq![COMMA] + crate::codec::enc_items(tail.drop_first(), content_enc_fn()));
                assert(out@ =~= old(out)@ + crate::codec::enc_items(tail, content_enc_fn()));
            }
        } else {
            proof {
                let tail = xs.deep_view().skip(k as int);
                assert(tail.len() == 1);
                assert(out@ =~= old(out)@ + crate::codec::enc_items(tail, content_enc_fn()));
            }
        }
    }
}

pub fn write_content_list(xs: &Vec<MealContent>, out: &mut Vec<u8>)
    ensures
        final(out)@ == old(out)@ + enc_list(xs.deep_view(), content_enc_fn()),
{
    out.push(LBRACKET);
    write_content_items(xs, 0, out);
    out.push(RBRACKET);
    proof {
        assert(xs.deep_view().skip(0) =~= xs.deep_view());
        assert(out@ =~= old(out)@ + enc_list(xs.deep_view(), content_enc_fn()));
    }
}

fn parse_content_items(s: &Vec<u8>, i: usize) -> (r: Option<(Vec<MealContent>, usize)>)
    requires
        i <= s@.len(),
    ensures
        match r {
            Some((v, j)) => crate::codec::sp_items(s@, i as int, content_parse_fn()) == Some(
                (v.deep_view(), j as int),
            ) && i < j <= s@.len(),
            None => crate::codec::sp_items(s@, i as int, content_parse_fn()) is None,
        },
    decreases s@.len() - i,
{
    proof {
        assert(content_parse_fn()(s@, i as int) == sp_content(s@, i as int));
    }
    match parse_content(s, i) {
        None => None,
        Some((x, j)) => {
            if j < s.len() && s[j] == COMMA {
                match parse_content_items(s, j + 1) {
                    None => None,
                    Some((tail, k)) => {
                        let ghost taildv = tail.deep_view();
                        let mut v: Vec<MealContent> = Vec::new();
                        v.push(x);
                        let mut t = tail;
                        v.append(&mut t);
                        proof {
                            assert(v.deep_view() =~~= seq![x@] + taildv);
                        }
                        Some((v, k))
                    },
                }
            } else if j < s.len() && s[j] == RBRACKET {
                let mut v: Vec<MealContent> = Vec::new();
                v.push(x);
                proof {
                    assert(v.deep_view() =~~= seq![x@]);
                }
                Some((v, j + 1))
            } else {
                None
            }
        },
    }
}

pub fn parse_content_list(s: &Vec<u8>, i: usize) -> (r: Option<(Vec<MealContent>, usize)>)
    requires
        i <= s@.len(),
    ensures
        match r {
            Some((v, j)) => sp_list(s@, i as int, content_parse_fn()) == Some(
                (v.deep_view(), j as int),
            ) && i < j <= s@.len(),
            None => sp_list(s@, i as int, content_parse_fn()) is None,
        },
{
    if i >= s.len() {
        return None;
    }
    if i + 1 < s.len() && s[i] == LBRACKET {
        if s[i + 1] == RBRACKET {
            let v: Vec<MealContent> = Vec::new();
            proof {
                assert(v.deep_view() =~= Seq::<MealContentView>::empty());
            }
            Some((v, i + 2))
        } else {
            parse_content_items(s, i + 1)
        }
    } else {
        None
    }
}

// -------------------------------------------------------------------------
// meals
// -------------------------------------------------------------------------
/// A meal: its id never changes once given; the owner, date and type form
/// the soft uniqueness key handlers check before creating a new one.
#[derive(Debug, Clone, PartialEq, Eq)]
pub struct Meal {
    pub contents: Vec<MealContent>,
    pub id: Vec<u8>,
    pub username: Vec<u8>,
    pub date: Date,
    pub meal_type: MealType,
}

pub struct MealView {
    pub contents: Seq<MealContentView>,
    pub id: Seq<u8>,
    pub username: Seq<u8>,
    pub date: Date,
    pub meal_type: MealType,
}

impl View for Meal {
    type V = MealView;

    open spec fn view(&self) -> MealView {
        MealView {
            contents: self.contents.deep_view(),
            id: self.id@,
            username: self.username@,
            date: self.date,
            meal_type: self.meal_type,
        }
    }
}

impl DeepView for Meal {
    type V = MealView;

    open spec fn deep_view(&self) -> MealView {
        self@
    }
}

#[verifier::opaque]
pub open spec fn enc_meal(m: MealView) -> Seq<u8> {
    s2b("{\"contents\":"@) + enc_list(m.contents, content_enc_fn()) + s2b(",\"id\":"@) + enc_str(
        m.id,
    ) + s2b(",\"username\":"@) + enc_str(m.username) + s2b(",\"date\":"@) + enc_date_str(m.date)
        + s2b(",\"meal_type\":"@) + enc_meal_type(m.meal_type) + seq![RBRACE]
}

/// Reads the date, the meal type and the closing brace.
pub open spec fn sp_meal_tail(s: Seq<u8>, i: int) -> Option<((Date, MealType), int)> {
    match sp_lit(s, i, s2b(",\"date\":"@)) {
        None => None,
        Some(j7) => match sp_date_str(s, j7) {
            None => None,
            Some((date, j8)) => match sp_lit(s, j8, s2b(",\"meal_type\":"@)) {
                None => None,
                Some(j9) => match sp_meal_type(s, j9) {
                    None => None,
                    Some((meal_type, j10)) => match sp_lit(s, j10, seq![RBRACE]) {
                        None => None,
                        Some(j11) => Some(((date, meal_type), j11)),
                    },
                },
            },
        },
    }
}

#[verifier::opaque]
pub open spec fn sp_meal(s: Seq<u8>, i: int) -> Option<(MealView, int)> {
    match sp_lit(s, i, s2b("{\"contents\":"@)) {
        None => None,
        Some(j1) => match sp_list(s, j1, content_parse_fn()) {
            None => None,
            Some((contents, j2)) => match sp_lit(s, j2, s2b(",\"id\":"@)) {
                None => None,
                Some(j3) => match sp_str(s, j3) {
                    None => None,
                    Some((id, j4)) => match sp_lit(s, j4, s2b(",\"username\":"@)) {
                        None => None,
                        Some(j5) => match sp_str(s, j5) {
                            None => None,
                            Some((username, j6)) => match sp_meal_tail(s, j6) {
                                None => None,
                                Some(((date, meal_type), j11)) => Some(
                                    (MealView { contents, id, username, date, meal_type }, j11),
                                ),
                            },
                        },
                    },
                },
            },
        },
    }
}

pub open spec fn dec_meal(s: Seq<u8>) -> Option<MealView> {
    match sp_meal(s, 0) {
        Some((m, j)) => {
            if j == s.len() {
                Some(m)
            } else {
                None
            }
        },
        None => None,
    }
}

#[verifier::rlimit(100)]
proof fn lemma_sp_meal_tail_inverts(
    s: Seq<u8>,
    pre6: Seq<u8>,
    m: MealView,
    rest: Seq<u8>,
    tail: Seq<u8>,
)
    requires
        date_valid(m.date),
        tail == s2b(",\"date\":"@) + (enc_date_str(m.date) + (s2b(",\"meal_type\":"@) + (
        enc_meal_type(m.meal_type) + (seq![RBRACE] + rest)))),
        s == pre6 + tail,
    ensures
        sp_meal_tail(s, pre6.len() as int) == Some(
            ((m.date, m.meal_type), pre6.len() + tail.len() - rest.len()),
        ),
{
    let l4 = s2b(",\"date\":"@);
    let l5 = s2b(",\"meal_type\":"@);
    reveal_strlit(",\"date\":");
    reveal_strlit(",\"meal_type\":");
    let t10 = seq![RBRACE] + rest;
    let t9 = enc_meal_type(m.meal_type) + t10;
    let t8 = l5 + t9;
    let t7 = enc_date_str(m.date) + t8;
    lemma_step_lit(s, pre6, l4, t7);
    let p7 = pre6 + l4;
    lemma_concat_associative(p7, enc_date_str(m.date), t8);
    lemma_sp_date_str_inverts(s, p7, m.date, t8);
    let p8 = p7 + enc_date_str(m.date);
    lemma_step_lit(s, p8, l5, t9);
    let p9 = p8 + l5;
    lemma_step_meal_type(s, p9, m.meal_type, t10);
    let p10 = p9 + enc_meal_type(m.meal_type);
    lemma_step_lit(s, p10, seq![RBRACE], rest);
    assert(crate::date::enc_date_str(m.date).len() == 12);
}

#[verifier::rlimit(100)]
pub proof fn lemma_sp_meal_inverts(s: Seq<u8>, pre: Seq<u8>, m: MealView, rest: Seq<u8>)
    requires
        s == pre + enc_meal(m) + rest,
        date_valid(m.date),
    ensures
        sp_meal(s, pre.len() as int) == Some::<(MealView, int)>(
            (m, pre.len() as int + enc_meal(m).len()),
        ),
{
    reveal(enc_meal);
    reveal(sp_meal);
    let l1 = s2b("{\"contents\":"@);
    let l2 = s2b(",\"id\":"@);
    let l3 = s2b(",\"username\":"@);
    let l4 = s2b(",\"date\":"@);
    let l5 = s2b(",\"meal_type\":"@);
    reveal_strlit(",\"id\":");
    reveal_strlit(",\"username\":");
    let el = enc_list(m.contents, content_enc_fn());
    let t10 = seq![RBRACE] + rest;
    let t9 = enc_meal_type(m.meal_type) + t10;
    let t8 = l5 + t9;
    let t7 = enc_date_str(m.date) + t8;
    let t6 = l4 + t7;
    let t5 = enc_str(m.username) + t6;
    let t4 = l3 + t5;
    let t3 = enc_str(m.id) + t4;
    let t2 = l2 + t3;
    let t1 = el + t2;
    lemma_concat_associative(l1, el, t2);
    let q1 = l1 + el;
    lemma_concat_associative(q1, l2, t3);
    let q2 = q1 + l2;
    lemma_concat_associative(q2, enc_str(m.id), t4);
    let q3 = q2 + enc_str(m.id);
    lemma_concat_associative(q3, l3, t5);
    let q4 = q3 + l3;
    lemma_concat_associative(q4, enc_str(m.username), t6);
    let q5 = q4 + enc_str(m.username);
    lemma_concat_associative(q5, l4, t7);
    let q6 = q5 + l4;
    lemma_concat_associative(q6, enc_date_str(m.date), t8);
    let q7 = q6 + enc_date_str(m.date);
    lemma_concat_associative(q7, l5, t9);
    let q8 = q7 + l5;
    lemma_concat_associative(q8, enc_meal_type(m.meal_type), t10);
    let q9 = q8 + enc_meal_type(m.meal_type);
    lemma_concat_associative(q9, seq![RBRACE], rest);
    lemma_concat_associative(pre, enc_meal(m), rest);
    assert(l1 + t1 == enc_meal(m) + rest);
    assert(s == pre + (l1 + t1));
    lemma_step_lit(s, pre, l1, t1);
    let p1 = pre + l1;
    lemma_concat_associative(p1, el, t2);
    lemma_content_parser_inverts();
    lemma_sp_list_inverts(s, p1, m.contents, t2, content_enc_fn(), content_parse_fn());
    let p2 = p1 + el;
    lemma_step_lit(s, p2, l2, t3);
    let p3 = p2 + l2;
    lemma_step_str(s, p3, m.id, t4);
    let p4 = p3 + enc_str(m.id);
    lemma_step_lit(s, p4, l3, t5);
    let p5 = p4 + l3;
    lemma_step_str(s, p5, m.username, t6);
    let p6 = p5 + enc_str(m.username);
    lemma_sp_meal_tail_inverts(s, p6, m, rest, t6);
    assert(pre.len() + enc_meal(m).len() == p6.len() + t6.len() - rest.len());
}

/// Decoding the written form of a meal returns that meal.
pub proof fn lemma_meal_round_trip(m: MealView)
    requires
        date_valid(m.date),
    ensures
        dec_meal(enc_meal(m)) == Some(m),
{
    let s = enc_meal(m);
    assert(s =~= Seq::<u8>::empty() + enc_meal(m) + Seq::<u8>::empty());
    lemma_sp_meal_inverts(s, Seq::<u8>::empty(), m, Seq::<u8>::empty());
}

impl Meal {
    /// The stored JSON form of this meal.
    pub fn encode(&self) -> (r: Vec<u8>)
        requires
            date_valid(self@.date),
        ensures
            r@ == enc_meal(self@),
    {
        let mut out: Vec<u8> = Vec::new();
        proof {
            reveal(enc_meal);
            reveal_strlit("{\"contents\":");
            reveal_strlit(",\"id\":");
            reveal_strlit(",\"username\":");
            reveal_strlit(",\"date\":");
            reveal_strlit(",\"meal_type\":");
        }
        write_lit("{\"contents\":", &mut out);
        write_content_list(&self.contents, &mut out);
        write_lit(",\"id\":", &mut out);
        write_str(&self.id, &mut out);
        write_lit(",\"username\":", &mut out);
        write_str(&self.username, &mut out);
        write_lit(",\"date\":", &mut out);
        write_date_str(&self.date, &mut out);
        write_lit(",\"meal_type\":", &mut out);
        write_meal_type(&self.meal_type, &mut out);
        out.push(RBRACE);
        proof {
            assert(out@ =~= enc_meal(self@));
        }
        out
    }

    /// Reads a stored meal; anything malformed reads as `None`.
    pub fn decode(s: &Vec<u8>) -> (r: Option<Meal>)
        ensures
            match r {
                Some(m) => dec_meal(s@) == Some(m@),
                None => dec_meal(s@) is None,
            },
    {
        match Meal::parse_at(s, 0) {
            Some((m, j)) => {
                if j == s.len() {
                    Some(m)
                } else {
                    None
                }
            },
            None => None,
        }
    }

    /// Reads a meal at `i`; mirrors `sp_meal`.
    #[verifier::rlimit(100)]
    pub fn parse_at(s: &Vec<u8>, i: usize) -> (r: Option<(Meal, usize)>)
        requires
            i <= s@.len(),
        ensures
            match r {
                Some((m, j)) => sp_meal(s@, i as int) == Some((m@, j as int)) && i < j <= s@.len(),
                None => sp_meal(s@, i as int) is None,
            },
    {
        proof {
            reveal(sp_meal);
            reveal_strlit("{\"contents\":");
            reveal_strlit(",\"id\":");
            reveal_strlit(",\"username\":");
            reveal_strlit(",\"date\":");
            reveal_strlit(",\"meal_type\":");
        }
        let j1 = match parse_lit(s, i, "{\"contents\":") {
            Some(j) => j,
            None => {
                return None;
            },
        };
        let (contents, j2) = match parse_content_list(s, j1) {
            Some(x) => x,
            None => {
                return None;
            },
        };
        let j3 = match parse_lit(s, j2, ",\"id\":") {
            Some(j) => j,
            None => {
                return None;
            },
        };
        let (id, j4) = match parse_str(s, j3) {
            Some(x) => x,
            None => {
                return None;
            },
        };
        let j5 = match parse_lit(s, j4, ",\"username\":") {
            Some(j) => j,
            None => {
                return None;
            },
        };
        let (username, j6) = match parse_str(s, j5) {
            Some(x) => x,
            None => {
                return None;
            },
        };
        match Meal::parse_tail(s, j6) {
            Some(((date, meal_type), j11)) => Some(
                (Meal { contents, id, username, date, meal_type }, j11),
            ),
            None => None,
        }
    }

    /// Reads the trailing meal fields; mirrors `sp_meal_tail`.
    fn parse_tail(s: &Vec<u8>, i: usize) -> (r: Option<((Date, MealType), usize)>)
        requires
            i <= s@.len(),
        ensures
            match r {
                Some((q, j)) => sp_meal_tail(s@, i as int) == Some((q, j as int)) && i < j
                    <= s@.len(),
                None => sp_meal_tail(s@, i as int) is None,
            },
    {
        proof {
            reveal_strlit(",\"date\":");
            reveal_strlit(",\"meal_type\":");
        }
        let j7 = match parse_lit(s, i, ",\"date\":") {
            Some(j) => j,
            None => {
                return None;
            },
        };
        let (date, j8) = match parse_date_str(s, j7) {
            Some(x) => x,
            None => {
                return None;
            },
        };
        let j9 = match parse_lit(s, j8, ",\"meal_type\":") {
            Some(j) => j,
            None => {
                return None;
            },
        };
        let (meal_type, j10) = match parse_meal_type(s, j9) {
            Some(x) => x,
            None => {
                return None;
            },
        };
        if j10 < s.len() && s[j10] == RBRACE {
            proof {
                assert(s@.subrange(j10 as int, j10 + 1) =~= seq![RBRACE]);
                assert(sp_lit(s@, j10 as int, seq![RBRACE]) == Some(j10 + 1 as int));
            }
            Some(((date, meal_type), j10 + 1))
        } else {
            proof {
                if j10 < s@.len() {
                    assert(s@.subrange(j10 as int, j10 + 1)[0] == s@[j10 as int]);
                }
            }
            None
        }
    }
}

// -------------------------------------------------------------------------
// totals
// -------------------------------------------------------------------------
/// Meal totals: for each content, the snapshot's canonical per-100g
/// amounts scaled by its quantity of grams, summed element-wise.
pub open spec fn meal_macros(cs: Seq<MealContentView>) -> NutrientValues
    decreases cs.len(),
{
    if cs.len() == 0 {
        nv_zero()
    } else {
        nv_add(
            meal_macros(cs.drop_last()),
            nv_portion(food_macros(cs.last().product), cs.last().quantity),
        )
    }
}

/// The per-100g energy of the snapshots summed, without scaling.
pub open spec fn meal_kcal(cs: Seq<MealContentView>) -> u64
    decreases cs.len(),
{
    if cs.len() == 0 {
        0u64
    } else {
        sat_add(meal_kcal(cs.drop_last()), food_macros(cs.last().product).energy)
    }
}

impl Meal {
    /// The meal's nutrient totals.
    pub fn get_macros(&self) -> (r: NutrientValues)
        ensures
            r == meal_macros(self@.contents),
    {
        let mut acc = NutrientValues::zero();
        let mut i: usize = 0;
        while i < self.contents.len()
            invariant
                i <= self.contents@.len(),
                acc == meal_macros(self.contents.deep_view().subrange(0, i as int)),
            decreases self.contents@.len() - i,
        {
            let nv = self.contents[i].product.get_numerical_macros();
            let part = nv.portion(self.contents[i].quantity);
            proof {
                let dv = self.contents.deep_view();
                assert(dv[i as int] == self.contents@[i as int]@);
                assert(dv.subrange(0, i + 1).drop_last() =~= dv.subrange(0, i as int));
                assert(dv.subrange(0, i + 1).last() == dv[i as int]);
            }
            acc = acc.add(&part);
            i = i + 1;
        }
        proof {
            assert(self.contents.deep_view().subrange(
                0,
                self.contents.deep_view().len() as int,
            ) =~= self.contents.deep_view());
        }
        acc
    }

    /// The summed per-100g energy of the snapshots, unscaled.
    pub fn get_kcal(&self) -> (r: u64)
        ensures
            r == meal_kcal(self@.contents),
    {
        let mut acc: u64 = 0;
        let mut i: usize = 0;
        while i < self.contents.len()
            invariant
                i <= self.contents@.len(),
                acc == meal_kcal(self.contents.deep_view().subrange(0, i as int)),
            decreases self.contents@.len() - i,
        {
            let nv = self.contents[i].product.get_numerical_macros();
            proof {
                let dv = self.contents.deep_view();
                assert(dv[i as int] == self.contents@[i as int]@);
                assert(dv.subrange(0, i + 1).drop_last() =~= dv.subrange(0, i as int));
                assert(dv.subrange(0, i + 1).last() == dv[i as int]);
            }
            acc = sat_add_exec(acc, nv.energy);
            i = i + 1;
        }
        proof {
            assert(self.contents.deep_view().subrange(
                0,
                self.contents.deep_view().len() as int,
            ) =~= self.contents.deep_view());
        }
        acc
    }

    /// Appends one content entry.
    pub fn add_content(&mut self, content: MealContent)
        ensures
            final(self)@.contents == old(self)@.contents.push(content@),
            final(self)@.id == old(self)@.id,
            final(self)@.username == old(self)@.username,
            final(self)@.date == old(self)@.date,
            final(self)@.meal_type == old(self)@.meal_type,
    {
        let ghost cv = content@;
        self.contents.push(content);
        proof {
            assert(self.contents.deep_view() =~~= old(self).contents.deep_view().push(cv));
        }
    }

    /// Removes every content entry carrying the given id.
    pub fn remove_content(&mut self, content_id: &Vec<u8>)
        ensures
            final(self)@.contents == old(self)@.contents.filter(content_id_ne(content_id@)),
            final(self)@.id == old(self)@.id,
            final(self)@.username == old(self)@.username,
            final(self)@.date == old(self)@.date,
            final(self)@.meal_type == old(self)@.meal_type,
    {
        let ghost pred = content_id_ne(content_id@);
        let ghost dv = self.contents.deep_view();
        let mut kept: Vec<MealContent> = Vec::new();
        let mut i: usize = 0;
        while i < self.contents.len()
            invariant
                i <= self.contents@.len(),
                dv == self.contents.deep_view(),
                pred == content_id_ne(content_id@),
                kept.deep_view() == dv.subrange(0, i as int).filter(pred),
            decreases self.contents@.len() - i,
        {
            proof {
                assert(dv[i as int] == self.contents@[i as int]@);
                assert(dv.subrange(0, i + 1).drop_last() =~= dv.subrange(0, i as int));
                assert(dv.subrange(0, i + 1).last() == dv[i as int]);
                reveal(Seq::filter);
                assert(pred(dv[i as int]) == (dv[i as int].id != content_id@));
            }
            let c = &self.contents[i];
            if !bytes_eq(&c.id, content_id) {
                let copy = MealContent {
                    product: clone_food(&c.product),
                    quantity: c.quantity,
                    id: crate::bytes::clone_bytes(&c.id),
                };
                proof {
                    assert(copy@ == dv[i as int]);
                }
                kept.push(copy);
                proof {
                    assert(kept.deep_view() =~~= dv.subrange(0, i + 1).filter(pred));
                }
            } else {
                proof {
                    assert(kept.deep_view() =~~= dv.subrange(0, i + 1).filter(pred));
                }
            }
            i = i + 1;
        }
        proof {
            assert(dv.subrange(0, dv.len() as int) =~= dv);
        }
        self.contents = kept;
    }

    /// A fixed sample meal.
    pub fn example() -> (r: Meal)
        ensures
            r@.contents == Seq::<MealContentView>::empty(),
            r@.username == s2b("12345"@),
            r@.date == (Date { year: 2024, month: 1, day: 1 }),
            r@.meal_type == MealType::Breakfast,
            date_valid(r@.date),
    {
        proof {
            reveal_strlit("12345");
            reveal_strlit("00000000-0000-0000-0000-000000000000");
        }
        let r = Meal {
            contents: Vec::new(),
            id: lit("00000000-0000-0000-0000-000000000000"),
            username: lit("12345"),
            date: Date { year: 2024, month: 1, day: 1 },
            meal_type: MealType::Breakfast,
        };
        proof {
            assert(r.contents.deep_view() =~= Seq::<MealContentView>::empty());
        }
        r
    }

    /// The written date of this meal.
    pub fn to_date(&self) -> (r: Vec<u8>)
        requires
            date_valid(self@.date),
        ensures
            r@ == crate::date::enc_date(self@.date),
    {
        let mut out: Vec<u8> = Vec::new();
        crate::date::write_date(&self.date, &mut out);
        proof {
            assert(out@ =~= crate::date::enc_date(self@.date));
        }
        out
    }

    /// The display name of this meal's type.
    pub fn to_meal_type(&self) -> (r: Vec<u8>)
        ensures
            seq![QUOTE] + r@ + seq![QUOTE] == enc_meal_type(self@.meal_type),
    {
        self.meal_type.name()
    }
}

/// Copies a food value; spelled out so that contracts can speak of views.
pub fn clone_food(f: &Food) -> (r: Food)
    ensures
        r@ == f@,
{
    let r = Food {
        description: crate::bytes::clone_bytes(&f.description),
        nutrients: clone_nutrient_vec(&f.nutrients),
        id: f.id,
        nutrient_values: f.nutrient_values,
    };
    r
}

fn clone_nutrient_vec(ns: &Vec<crate::usda::Nutrient>) -> (r: Vec<crate::usda::Nutrient>)
    ensures
        r.deep_view() == ns.deep_view(),
{
    let mut out: Vec<crate::usda::Nutrient> = Vec::new();
    let mut k: usize = 0;
    while k < ns.len()
        invariant
            k <= ns@.len(),
            out@.len() == k,
            out.deep_view() == ns.deep_view().subrange(0, k as int),
        decreases ns@.len() - k,
    {
        let n = &ns[k];
        let copy = crate::usda::Nutrient {
            id: n.id,
            name: crate::bytes::clone_bytes(&n.name),
            amount: n.amount,
            unit: crate::bytes::clone_bytes(&n.unit),
            median: n.median,
        };
        proof {
            assert(copy@ == ns@[k as int]@);
            assert(ns.deep_view()[k as int] == ns@[k as int]@);
        }
        out.push(copy);
        proof {
            assert(out.deep_view() =~= ns.deep_view().subrange(0, k + 1));
        }
        k = k + 1;
    }
    proof {
        assert(out.deep_view() =~= ns.deep_view());
        assert(ns.deep_view().subrange(0, ns.deep_view().len() as int) =~= ns.deep_view());
    }
    out
}

// -------------------------------------------------------------------------
// the day view: one slot per meal type
// -------------------------------------------------------------------------
/// Contents whose entry id differs from `id`.
pub open spec fn content_id_ne(id: Seq<u8>) -> spec_fn(MealContentView) -> bool {
    |c: MealContentView| c.id != id
}

/// The last meal of the given type in the list, if any.
pub open spec fn last_of_type(ms: Seq<MealView>, mt: MealType) -> Option<MealView>
    decreases ms.len(),
{
    if ms.len() == 0 {
        None
    } else if ms.last().meal_type == mt {
        Some(ms.last())
    } else {
        last_of_type(ms.drop_last(), mt)
    }
}

/// One calendar day of a user's log, one slot per meal type.
#[derive(Debug, Clone, PartialEq, Eq)]
pub struct DailyMealCombo {
    pub date: Date,
    pub breakfast: Option<Meal>,
    pub lunch: Option<Meal>,
    pub dinner: Option<Meal>,
    pub snack: Option<Meal>,
    pub username: Vec<u8>,
}

impl DailyMealCombo {
    /// Groups a day's meals into slots: of several meals of one type, the
    /// last in the list wins; the date and owner come from the first meal.
    pub fn from_meals_vec(meals: Vec<Meal>) -> (r: DailyMealCombo)
        requires
            meals@.len() > 0,
        ensures
            r@.date == meals.deep_view()[0].date,
            r@.username == meals.deep_view()[0].username,
            r.breakfast.deep_view() == last_of_type(meals.deep_view(), MealType::Breakfast),
            r.lunch.deep_view() == last_of_type(meals.deep_view(), MealType::Lunch),
            r.dinner.deep_view() == last_of_type(meals.deep_view(), MealType::Dinner),
            r.snack.deep_view() == last_of_type(meals.deep_view(), MealType::Snack),
    {
        let ghost dv = meals.deep_view();
        let date = meals[0].date;
        let username = crate::bytes::clone_bytes(&meals[0].username);
        proof {
            assert(dv[0] == meals@[0]@);
        }
        let mut breakfast: Option<Meal> = None;
        let mut lunch: Option<Meal> = None;
        let mut dinner: Option<Meal> = None;
        let mut snack: Option<Meal> = None;
        let mut i: usize = 0;
        while i < meals.len()
            invariant
                i <= meals@.len(),
                dv == meals.deep_view(),
                breakfast.deep_view() == last_of_type(dv.subrange(0, i as int), MealType::Breakfast),
                lunch.deep_view() == last_of_type(dv.subrange(0, i as int), MealType::Lunch),
                dinner.deep_view() == last_of_type(dv.subrange(0, i as int), MealType::Dinner),
                snack.deep_view() == last_of_type(dv.subrange(0, i as int), MealType::Snack),
            decreases meals@.len() - i,
        {
            proof {
                assert(dv[i as int] == meals@[i as int]@);
                assert(dv.subrange(0, i + 1).drop_last() =~= dv.subrange(0, i as int));
                assert(dv.subrange(0, i + 1).last() == dv[i as int]);
            }
            let m = &meals[i];
            let copy = Meal {
                contents: clone_contents(&m.contents),
                id: crate::bytes::clone_bytes(&m.id),
                username: crate::bytes::clone_bytes(&m.username),
                date: m.date,
                meal_type: m.meal_type,
            };
            proof {
                assert(copy@ == dv[i as int]);
            }
            match copy.meal_type {
                MealType::Breakfast => {
                    breakfast = Some(copy);
                },
                MealType::Lunch => {
                    lunch = Some(copy);
                },
                MealType::Dinner => {
                    dinner = Some(copy);
                },
                MealType::Snack => {
                    snack = Some(copy);
                },
            }
            i = i + 1;
        }
        proof {
            assert(dv.subrange(0, dv.len() as int) =~= dv);
        }
        DailyMealCombo { date, breakfast, lunch, dinner, snack, username }
    }

    /// The written date of this day.
    pub fn to_date(&self) -> (r: Vec<u8>)
        requires
            date_valid(self@.date),
        ensures
            r@ == crate::date::enc_date(self@.date),
    {
        let mut out: Vec<u8> = Vec::new();
        crate::date::write_date(&self.date, &mut out);
        proof {
            assert(out@ =~= crate::date::enc_date(self@.date));
        }
        out
    }
}

pub struct DailyMealComboView {
    pub date: Date,
    pub breakfast: Option<MealView>,
    pub lunch: Option<MealView>,
    pub dinner: Option<MealView>,
    pub snack: Option<MealView>,
    pub username: Seq<u8>,
}

impl View for DailyMealCombo {
    type V = DailyMealComboView;

    open spec fn view(&self) -> DailyMealComboView {
        DailyMealComboView {
            date: self.date,
            breakfast: self.breakfast.deep_view(),
            lunch: self.lunch.deep_view(),
            dinner: self.dinner.deep_view(),
            snack: self.snack.deep_view(),
            username: self.username@,
        }
    }
}

fn clone_contents(cs: &Vec<MealContent>) -> (r: Vec<MealContent>)
    ensures
        r.deep_view() == cs.deep_view(),
{
    let mut out: Vec<MealContent> = Vec::new();
    let mut k: usize = 0;
    while k < cs.len()
        invariant
            k <= cs@.len(),
            out@.len() == k,
            out.deep_view() == cs.deep_view().subrange(0, k as int),
        decreases cs@.len() - k,
    {
        let c = &cs[k];
        let copy = MealContent {
            product: clone_food(&c.product),
            quantity: c.quantity,
            id: crate::bytes::clone_bytes(&c.id),
        };
        proof {
            assert(copy@ == cs@[k as int]@);
            assert(cs.deep_view()[k as int] == cs@[k as int]@);
        }
        out.push(copy);
        proof {
            assert(out.deep_view() =~= cs.deep_view().subrange(0, k + 1));
        }
        k = k + 1;
    }
    proof {
        assert(out.deep_view() =~= cs.deep_view());
        assert(cs.deep_view().subrange(0, cs.deep_view().len() as int) =~= cs.deep_view());
    }
    out
}

/// Whether any meal in the list falls on the given date.
pub fn any_meal_on(meals: &Vec<Meal>, d: &Date) -> (r: bool)
    ensures
        r == exists|k: int| 0 <= k < meals.deep_view().len() && (#[trigger] meals.deep_view()[k]).date == d,
{
    let mut i: usize = 0;
    while i < meals.len()
        invariant
            i <= meals@.len(),
            forall|k: int| 0 <= k < i ==> (#[trigger] meals.deep_view()[k]).date != d,
        decreases meals@.len() - i,
    {
        proof {
            assert(meals.deep_view()[i as int] == meals@[i as int]@);
        }
        if meals[i].date == *d {
            proof {
                assert((meals.deep_view()[i as int]).date == d);
            }
            return true;
        }
        i = i + 1;
    }
    false
}


// -------------------------------------------------------------------------
// grouping a meal list into days
// -------------------------------------------------------------------------
/// Meals falling on the given date.
pub open spec fn on_date_fn(d: Date) -> spec_fn(MealView) -> bool {
    |m: MealView| m.date == d
}

pub open spec fn meals_on(ms: Seq<MealView>, d: Date) -> Seq<MealView> {
    ms.filter(on_date_fn(d))
}

/// Copies a meal; spelled out so that contracts can speak of views.
pub fn clone_meal(m: &Meal) -> (r: Meal)
    ensures
        r@ == m@,
{
    Meal {
        contents: clone_contents(&m.contents),
        id: crate::bytes::clone_bytes(&m.id),
        username: crate::bytes::clone_bytes(&m.username),
        date: m.date,
        meal_type: m.meal_type,
    }
}

/// The meals of the list falling on `d`, in list order.
fn meals_on_exec(meals: &Vec<Meal>, d: &Date) -> (r: Vec<Meal>)
    ensures
        views_of(r@) == meals_on(views_of(meals@), *d),
{
    let ghost mvs = views_of(meals@);
    let ghost pred = on_date_fn(*d);
    let mut out: Vec<Meal> = Vec::new();
    let mut i: usize = 0;
    while i < meals.len()
        invariant
            i <= meals@.len(),
            mvs == views_of(meals@),
            pred == on_date_fn(*d),
            views_of(out@) == mvs.subrange(0, i as int).filter(pred),
        decreases meals@.len() - i,
    {
        proof {
            assert(mvs[i as int] == meals@[i as int]@);
            assert(mvs.subrange(0, i + 1).drop_last() =~= mvs.subrange(0, i as int));
            assert(mvs.subrange(0, i + 1).last() == mvs[i as int]);
            reveal(Seq::filter);
            assert(pred(mvs[i as int]) == (mvs[i as int].date == d));
        }
        if meals[i].date == *d {
            out.push(clone_meal(&meals[i]));
            proof {
                assert(views_of(out@) =~= mvs.subrange(0, i + 1).filter(pred));
            }
        } else {
            proof {
                assert(views_of(out@) =~= mvs.subrange(0, i + 1).filter(pred));
            }
        }
        i = i + 1;
    }
    proof {
        assert(mvs.subrange(0, mvs.len() as int) =~= mvs);
    }
    out
}

/// The date of each meal in the list, in order.
pub open spec fn meal_dates(ms: Seq<MealView>) -> Seq<Date> {
    Seq::new(ms.len(), |i: int| ms[i].date)
}

fn date_listed(dates: &Vec<Date>, d: &Date) -> (r: bool)
    ensures
        r == dates@.contains(*d),
{
    let mut i: usize = 0;
    while i < dates.len()
        invariant
            i <= dates@.len(),
            forall|k: int| 0 <= k < i ==> dates@[k] != d,
        decreases dates@.len() - i,
    {
        if dates[i] == *d {
            return true;
        }
        i = i + 1;
    }
    false
}

/// The distinct dates occurring in the list, in first-occurrence order.
fn collect_dates(meals: &Vec<Meal>) -> (r: Vec<Date>)
    ensures
        r@.no_duplicates(),
        forall|i: int| 0 <= i < meals@.len() ==> r@.contains((#[trigger] meals@[i])@.date),
        forall|i: int|
            0 <= i < r@.len() ==> meal_dates(views_of(meals@)).contains(#[trigger] r@[i]),
{
    let ghost ds = meal_dates(views_of(meals@));
    let mut out: Vec<Date> = Vec::new();
    let mut i: usize = 0;
    while i < meals.len()
        invariant
            i <= meals@.len(),
            ds == meal_dates(views_of(meals@)),
            out@.no_duplicates(),
            forall|k: int| 0 <= k < i ==> out@.contains((#[trigger] meals@[k])@.date),
            forall|k: int| 0 <= k < out@.len() ==> ds.contains(#[trigger] out@[k]),
        decreases meals@.len() - i,
    {
        let d = meals[i].date;
        let ghost outv = out@;
        if !date_listed(&out, &d) {
            out.push(d);
            proof {
                assert(out@[out@.len() - 1] == meals@[i as int]@.date);
                assert(out@.contains(meals@[i as int]@.date));
                assert(ds[i as int] == meals@[i as int]@.date);
                assert(ds.contains(out@[out@.len() - 1]));
                assert forall|k: int| 0 <= k < i implies out@.contains(
                    (#[trigger] meals@[k])@.date,
                ) by {
                    let w = choose|w: int| 0 <= w < outv.len() && outv[w] == meals@[k]@.date;
                    assert(out@[w] == meals@[k]@.date);
                }
            }
        } else {
            proof {
                assert(out@.contains(meals@[i as int]@.date));
            }
        }
        i = i + 1;
    }
    out
}

/// Two valid dates with one chronological key are the same date.
proof fn lemma_date_key_injective(a: Date, b: Date)
    requires
        date_valid(a),
        date_valid(b),
        date_key(a) == date_key(b),
    ensures
        a == b,
{
    assert(a.year == b.year && a.month == b.month && a.day == b.day) by (nonlinear_arith)
        requires
            a.year <= 9999,
            b.year <= 9999,
            1 <= a.month <= 12,
            1 <= b.month <= 12,
            1 <= a.day <= 31,
            1 <= b.day <= 31,
            a.year * 10000 + a.month * 100 + a.day == b.year * 10000 + b.month * 100 + b.day,
    ;
}

fn find_max_date_idx(dates: &Vec<Date>) -> (r: usize)
    requires
        dates@.len() > 0,
        forall|k: int| 0 <= k < dates@.len() ==> date_valid(#[trigger] dates@[k]),
    ensures
        r < dates@.len(),
        forall|k: int| 0 <= k < dates@.len() ==> date_key(#[trigger] dates@[k]) <= date_key(
            dates@[r as int],
        ),
{
    let mut best: usize = 0;
    let mut i: usize = 1;
    while i < dates.len()
        invariant
            1 <= i <= dates@.len(),
            best < i,
            forall|k: int| 0 <= k < dates@.len() ==> date_valid(#[trigger] dates@[k]),
            forall|k: int| 0 <= k < i ==> date_key(#[trigger] dates@[k]) <= date_key(
                dates@[best as int],
            ),
        decreases dates@.len() - i,
    {
        if dates[best].le(&dates[i]) {
            best = i;
        }
        i = i + 1;
    }
    best
}

/// The dates ordered latest first; the same dates, each kept once.
fn sort_dates_desc(dates: Vec<Date>) -> (r: Vec<Date>)
    requires
        forall|k: int| 0 <= k < dates@.len() ==> date_valid(#[trigger] dates@[k]),
    ensures
        r@.to_multiset() == dates@.to_multiset(),
        r@.len() == dates@.len(),
        forall|a: int, b: int|
            0 <= a <= b < r@.len() ==> date_key(r@[b]) <= date_key(r@[a]),
        forall|k: int| 0 <= k < r@.len() ==> date_valid(#[trigger] r@[k]),
{
    let mut rem = dates;
    let ghost orig = rem@;
    let mut out: Vec<Date> = Vec::new();
    proof {
        orig.to_multiset_ensures();
        out@.to_multiset_ensures();
        assert(out@.to_multiset().add(rem@.to_multiset()) =~= orig.to_multiset());
    }
    while rem.len() > 0
        invariant
            out@.to_multiset().add(rem@.to_multiset()) == orig.to_multiset(),
            out@.len() + rem@.len() == orig.len(),
            forall|k: int| 0 <= k < rem@.len() ==> date_valid(#[trigger] rem@[k]),
            forall|k: int| 0 <= k < out@.len() ==> date_valid(#[trigger] out@[k]),
            forall|a: int, b: int|
                0 <= a <= b < out@.len() ==> date_key(out@[b]) <= date_key(out@[a]),
            forall|o: int, t: int|
                0 <= o < out@.len() && 0 <= t < rem@.len() ==> date_key(#[trigger] rem@[t])
                    <= date_key(#[trigger] out@[o]),
        decreases rem@.len(),
    {
        let idx = find_max_date_idx(&rem);
        let ghost remv = rem@;
        let d = rem.remove(idx);
        let ghost outv = out@;
        out.push(d);
        proof {
            remv.to_multiset_ensures();
            outv.to_multiset_ensures();
            assert(rem@.to_multiset() =~= remv.to_multiset().remove(d));
            assert(out@.to_multiset() =~= outv.to_multiset().insert(d));
            assert(remv.contains(d)) by {
                assert(remv[idx as int] == d);
            }
            assert(remv.to_multiset().count(d) > 0);
            assert(out@.to_multiset().add(rem@.to_multiset()) =~= outv.to_multiset().add(
                remv.to_multiset(),
            ));
        }
    }
    proof {
        rem@.to_multiset_ensures();
        assert(rem@ =~= Seq::<Date>::empty());
        assert forall|x: Date| rem@.to_multiset().count(x) == 0 by {
            if rem@.to_multiset().count(x) > 0 {
                assert(rem@.contains(x));
            }
        }
        assert(rem@.to_multiset() =~= Multiset::<Date>::empty());
        assert(out@.to_multiset() =~= orig.to_multiset());
    }
    out
}

/// The day view of a meal list: one entry per date occurring in the list,
/// latest date first, each day's slots filled from the meals of that date
/// with the last of each type winning.
pub fn group_meals_by_day(meals: &Vec<Meal>) -> (r: Vec<(Date, DailyMealCombo)>)
    requires
        forall|i: int| 0 <= i < meals@.len() ==> date_valid((#[trigger] meals@[i])@.date),
    ensures
        forall|i: int, j: int| 0 <= i < j < r@.len() ==> date_key(r@[j].0) < date_key(r@[i].0),
        forall|i: int|
            0 <= i < r@.len() ==> {
                let ms = meals_on(views_of(meals@), (#[trigger] r@[i]).0);
                &&& ms.len() > 0
                &&& r@[i].1@.date == r@[i].0
                &&& r@[i].1@.username == ms[0].username
                &&& r@[i].1.breakfast.deep_view() == last_of_type(ms, MealType::Breakfast)
                &&& r@[i].1.lunch.deep_view() == last_of_type(ms, MealType::Lunch)
                &&& r@[i].1.dinner.deep_view() == last_of_type(ms, MealType::Dinner)
                &&& r@[i].1.snack.deep_view() == last_of_type(ms, MealType::Snack)
            },
        forall|i: int|
            0 <= i < meals@.len() ==> exists|t: int|
                0 <= t < r@.len() && (#[trigger] r@[t]).0 == (#[trigger] meals@[i])@.date,
{
    let ghost mvs = views_of(meals@);
    let ghost ds = meal_dates(mvs);
    let dates = collect_dates(meals);
    proof {
        assert forall|k: int| 0 <= k < dates@.len() implies date_valid(
            #[trigger] dates@[k],
        ) by {
            assert(ds.contains(dates@[k]));
            let t = choose|t: int| 0 <= t < ds.len() && ds[t] == dates@[k];
            assert(mvs[t].date == dates@[k]);
            assert(mvs[t] == meals@[t]@);
            assert(date_valid(meals@[t]@.date));
        }
        dates@.lemma_multiset_has_no_duplicates();
    }
    let ghost datesv = dates@;
    let sorted = sort_dates_desc(dates);
    proof {
        sorted@.lemma_multiset_has_no_duplicates_conv();
        // the same dates, latest first, each once
        assert forall|k: int| 0 <= k < sorted@.len() implies datesv.contains(
            #[trigger] sorted@[k],
        ) by {
            sorted@.to_multiset_ensures();
            datesv.to_multiset_ensures();
            assert(sorted@.to_multiset().contains(sorted@[k]));
        }
        assert forall|k: int| 0 <= k < datesv.len() implies sorted@.contains(
            #[trigger] datesv[k],
        ) by {
            sorted@.to_multiset_ensures();
            datesv.to_multiset_ensures();
            assert(datesv.to_multiset().contains(datesv[k]));
        }
        assert forall|t: int| 0 <= t < sorted@.len() implies ds.contains(
            #[trigger] sorted@[t],
        ) by {
            assert(datesv.contains(sorted@[t]));
            let p = choose|p: int| 0 <= p < datesv.len() && datesv[p] == sorted@[t];
            assert(ds.contains(datesv[p]));
        }
    }
    let mut out: Vec<(Date, DailyMealCombo)> = Vec::new();
    let mut k: usize = 0;
    while k < sorted.len()
        invariant
            mvs == views_of(meals@),
            k <= sorted@.len(),
            sorted@.no_duplicates(),
            forall|t: int| 0 <= t < sorted@.len() ==> date_valid(#[trigger] sorted@[t]),
            forall|a: int, b: int|
                0 <= a <= b < sorted@.len() ==> date_key(sorted@[b]) <= date_key(sorted@[a]),
            ds == meal_dates(views_of(meals@)),
            forall|t: int| 0 <= t < sorted@.len() ==> ds.contains(#[trigger] sorted@[t]),
            out@.len() == k,
            forall|t: int| 0 <= t < k ==> (#[trigger] out@[t]).0 == sorted@[t],
            forall|i: int|
                0 <= i < out@.len() ==> {
                    let ms = meals_on(views_of(meals@), (#[trigger] out@[i]).0);
                    &&& ms.len() > 0
                    &&& out@[i].1@.date == out@[i].0
                    &&& out@[i].1@.username == ms[0].username
                    &&& out@[i].1.breakfast.deep_view() == last_of_type(ms, MealType::Breakfast)
                    &&& out@[i].1.lunch.deep_view() == last_of_type(ms, MealType::Lunch)
                    &&& out@[i].1.dinner.deep_view() == last_of_type(ms, MealType::Dinner)
                    &&& out@[i].1.snack.deep_view() == last_of_type(ms, MealType::Snack)
                },
        decreases sorted@.len() - k,
    {
        let d = sorted[k];
        let day = meals_on_exec(meals, &d);
        proof {
            // the date came from some meal, so its day is not empty
            assert(ds.contains(sorted@[k as int]));
            let u = choose|u: int| 0 <= u < ds.len() && ds[u] == sorted@[k as int];
            assert(mvs[u].date == sorted@[k as int]);
            assert(mvs[u] == meals@[u]@);
            assert(on_date_fn(d)(mvs[u]));
            mvs.lemma_filter_contains(on_date_fn(d), u);
            assert(meals_on(mvs, d).contains(mvs[u]));
            assert(views_of(day@).len() > 0);
            assert(day@.len() > 0);
            // the day's first meal falls on the date
            mvs.lemma_filter_pred(on_date_fn(d), 0);
            assert(meals_on(mvs, d)[0].date == d);
            // the two view sequences of the day agree
            assert(day.deep_view() =~= views_of(day@));
            assert(day.deep_view()[0] == views_of(day@)[0]);
        }
        let combo = DailyMealCombo::from_meals_vec(day);
        out.push((d, combo));
        proof {
            assert(out@.last().0 == sorted@[k as int]);
        }
        k = k + 1;
    }
    proof {
        // strictly descending: equal keys of distinct valid dates cannot be
        assert forall|i: int, j: int| 0 <= i < j < out@.len() implies date_key(out@[j].0)
            < date_key(out@[i].0) by {
            if date_key(out@[j].0) == date_key(out@[i].0) {
                lemma_date_key_injective(out@[i].0, out@[j].0);
            }
        }
        assert forall|i: int|
            0 <= i < meals@.len() implies exists|t: int|
            0 <= t < out@.len() && (#[trigger] out@[t]).0 == (#[trigger] meals@[i])@.date by {
            let d = meals@[i]@.date;
            assert(datesv.contains(d));
            let p = choose|p: int| 0 <= p < datesv.len() && datesv[p] == d;
            assert(sorted@.contains(datesv[p]));
            let t = choose|t: int| 0 <= t < sorted@.len() && sorted@[t] == d;
            assert(out@[t].0 == d);
            assert(0 <= t < out@.len() && out@[t].0 == meals@[i]@.date);
        }
    }
    out
}

} // verus!
