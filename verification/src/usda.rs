//! Foods from the nutrient database: a food carries a list of named
//! nutrients, from which the eight canonical per-100g amounts are derived.
use vstd::prelude::*;
use vstd::seq_lib::lemma_concat_associative;
use crate::bytes::{s2b, bytes_eq, lit};
use crate::nutrients::NutrientValues;
use crate::codec::{
    enc_str, sp_str, enc_u64, sp_u64, enc_opt, sp_opt, enc_list, sp_list, sp_lit, enc_not_null,
    parser_inverts, enc_starts_clean, write_str, parse_str, write_u64, parse_u64, write_lit,
    parse_lit, lemma_sp_list_inverts, enc_amount, sp_amount, lemma_step_amount, amount_enc_fn, amount_parse_fn, parse_opt_amount,
    write_opt_amount, lemma_step_lit, lemma_step_str, lemma_step_u64, lemma_step_opt_amount,
    is_digit, QUOTE, COMMA, DOT, LBRACE, RBRACE, LBRACKET, RBRACKET,
};

verus! {

/// One named nutrient of a food, as the upstream database reports it.
/// Amounts are thousandths of the reported unit.
#[derive(Debug, Clone, PartialEq, Eq)]
pub struct Nutrient {
    pub id: u64,
    pub name: Vec<u8>,
    pub amount: Option<u64>,
    pub unit: Vec<u8>,
    pub median: Option<u64>,
}

pub struct NutrientView {
    pub id: u64,
    pub name: Seq<u8>,
    pub amount: Option<u64>,
    pub unit: Seq<u8>,
    pub median: Option<u64>,
}

impl View for Nutrient {
    type V = NutrientView;

    open spec fn view(&self) -> NutrientView {
        NutrientView {
            id: self.id,
            name: self.name@,
            amount: self.amount,
            unit: self.unit@,
            median: self.median,
        }
    }
}

impl DeepView for Nutrient {
    type V = NutrientView;

    open spec fn deep_view(&self) -> NutrientView {
        self@
    }
}

impl Nutrient {
    /// An empty nutrient whose amounts read as zero.
    pub fn zero_entry() -> (r: Nutrient)
        ensures
            r@.id == 0,
            r@.amount == Some(0u64),
            r@.median == Some(0u64),
            r@.name == Seq::<u8>::empty(),
            r@.unit == Seq::<u8>::empty(),
    {
        Nutrient { id: 0, name: Vec::new(), amount: Some(0), unit: Vec::new(), median: Some(0) }
    }
}

// -------------------------------------------------------------------------
// one nutrient
// -------------------------------------------------------------------------
#[verifier::opaque]
pub open spec fn enc_nutrient(n: NutrientView) -> Seq<u8> {
    s2b("{\"nutrientId\":"@) + enc_u64(n.id as int) + s2b(",\"nutrientName\":"@) + enc_str(n.name)
        + s2b(",\"value\":"@) + enc_opt(n.amount, amount_enc_fn()) + s2b(",\"unitName\":"@)
        + enc_str(n.unit) + s2b(",\"median\":"@) + enc_opt(n.median, amount_enc_fn())
        + seq![RBRACE]
}

#[verifier::opaque]
pub open spec fn sp_nutrient(s: Seq<u8>, i: int) -> Option<(NutrientView, int)> {
    match sp_lit(s, i, s2b("{\"nutrientId\":"@)) {
        None => None,
        Some(j1) => match sp_u64(s, j1) {
            None => None,
            Some((id, j2)) => match sp_lit(s, j2, s2b(",\"nutrientName\":"@)) {
                None => None,
                Some(j3) => match sp_str(s, j3) {
                    None => None,
                    Some((name, j4)) => match sp_lit(s, j4, s2b(",\"value\":"@)) {
                        None => None,
                        Some(j5) => match sp_opt(s, j5, amount_parse_fn()) {
                            None => None,
                            Some((amount, j6)) => match sp_lit(s, j6, s2b(",\"unitName\":"@)) {
                                None => None,
                                Some(j7) => match sp_str(s, j7) {
                                    None => None,
                                    Some((unit, j8)) => match sp_lit(s, j8, s2b(",\"median\":"@)) {
                                        None => None,
                                        Some(j9) => match sp_opt(s, j9, amount_parse_fn()) {
                                            None => None,
                                            Some((median, j10)) => match sp_lit(
                                                s,
                                                j10,
                                                seq![RBRACE],
                                            ) {
                                                None => None,
                                                Some(j11) => Some(
                                                    (
                                                        NutrientView {
                                                            id: id,
                                                            name: name,
                                                            amount: amount,
                                                            unit: unit,
                                                            median: median,
                                                        },
                                                        j11,
                                                    ),
                                                ),
                                            },
                                        },
                                    },
                                },
                            },
                        },
                    },
                },
            },
        },
    }
}

#[verifier::rlimit(100)]
pub proof fn lemma_sp_nutrient_inverts(s: Seq<u8>, pre: Seq<u8>, n: NutrientView, rest: Seq<u8>)
    requires
        s == pre + enc_nutrient(n) + rest,
    ensures
        sp_nutrient(s, pre.len() as int) == Some::<(NutrientView, int)>(
            (n, pre.len() as int + enc_nutrient(n).len()),
        ),
{
    reveal(enc_nutrient);
    reveal(sp_nutrient);
    let l1 = s2b("{\"nutrientId\":"@);
    let l2 = s2b(",\"nutrientName\":"@);
    let l3 = s2b(",\"value\":"@);
    let l4 = s2b(",\"unitName\":"@);
    let l5 = s2b(",\"median\":"@);
    reveal_strlit(",\"nutrientName\":");
    reveal_strlit(",\"unitName\":");
    let t10 = seq![RBRACE] + rest;
    let t9 = enc_opt(n.median, amount_enc_fn()) + t10;
    let t8 = l5 + t9;
    let t7 = enc_str(n.unit) + t8;
    let t6 = l4 + t7;
    let t5 = enc_opt(n.amount, amount_enc_fn()) + t6;
    let t4 = l3 + t5;
    let t3 = enc_str(n.name) + t4;
    let t2 = l2 + t3;
    let t1 = enc_u64(n.id as int) + t2;
    lemma_concat_associative(l1, enc_u64(n.id as int), t2);
    let q1 = l1 + enc_u64(n.id as int);
    lemma_concat_associative(q1, l2, t3);
    let q2 = q1 + l2;
    lemma_concat_associative(q2, enc_str(n.name), t4);
    let q3 = q2 + enc_str(n.name);
    lemma_concat_associative(q3, l3, t5);
    let q4 = q3 + l3;
    lemma_concat_associative(q4, enc_opt(n.amount, amount_enc_fn()), t6);
    let q5 = q4 + enc_opt(n.amount, amount_enc_fn());
    lemma_concat_associative(q5, l4, t7);
    let q6 = q5 + l4;
    lemma_concat_associative(q6, enc_str(n.unit), t8);
    let q7 = q6 + enc_str(n.unit);
    lemma_concat_associative(q7, l5, t9);
    let q8 = q7 + l5;
    lemma_concat_associative(q8, enc_opt(n.median, amount_enc_fn()), t10);
    let q9 = q8 + enc_opt(n.median, amount_enc_fn());
    lemma_concat_associative(q9, seq![RBRACE], rest);
    lemma_concat_associative(pre, enc_nutrient(n), rest);
    assert(l1 + t1 == enc_nutrient(n) + rest);
    assert(s == pre + (l1 + t1));
    lemma_step_lit(s, pre, l1, t1);
    let p1 = pre + l1;
    assert(t2[0] == (',' as u8));
    lemma_step_u64(s, p1, n.id, t2);
    let p2 = p1 + enc_u64(n.id as int);
    lemma_step_lit(s, p2, l2, t3);
    let p3 = p2 + l2;
    lemma_step_str(s, p3, n.name, t4);
    let p4 = p3 + enc_str(n.name);
    lemma_step_lit(s, p4, l3, t5);
    let p5 = p4 + l3;
    assert(t6[0] == (',' as u8));
    lemma_step_opt_amount(s, p5, n.amount, t6);
    let p6 = p5 + enc_opt(n.amount, amount_enc_fn());
    lemma_step_lit(s, p6, l4, t7);
    let p7 = p6 + l4;
    lemma_step_str(s, p7, n.unit, t8);
    let p8 = p7 + enc_str(n.unit);
    lemma_step_lit(s, p8, l5, t9);
    let p9 = p8 + l5;
    assert(t10[0] == RBRACE);
    lemma_step_opt_amount(s, p9, n.median, t10);
    let p10 = p9 + enc_opt(n.median, amount_enc_fn());
    lemma_step_lit(s, p10, seq![RBRACE], rest);
}

fn write_nutrient(n: &Nutrient, out: &mut Vec<u8>)
    ensures
        final(out)@ == old(out)@ + enc_nutrient(n@),
{
    proof {
        reveal(enc_nutrient);
        reveal_strlit("{\"nutrientId\":");
        reveal_strlit(",\"nutrientName\":");
        reveal_strlit(",\"value\":");
        reveal_strlit(",\"unitName\":");
        reveal_strlit(",\"median\":");
    }
    write_lit("{\"nutrientId\":", out);
    write_u64(n.id, out);
    write_lit(",\"nutrientName\":", out);
    write_str(&n.name, out);
    write_lit(",\"value\":", out);
    write_opt_amount(&n.amount, out);
    write_lit(",\"unitName\":", out);
    write_str(&n.unit, out);
    write_lit(",\"median\":", out);
    write_opt_amount(&n.median, out);
    out.push(RBRACE);
    proof {
        assert(out@ =~= old(out)@ + enc_nutrient(n@));
    }
}

fn parse_nutrient(s: &Vec<u8>, i: usize) -> (r: Option<(Nutrient, usize)>)
    requires
        i <= s@.len(),
    ensures
        match r {
            Some((n, j)) => sp_nutrient(s@, i as int) == Some((n@, j as int)) && i < j <= s@.len(),
            None => sp_nutrient(s@, i as int) is None,
        },
{
    proof {
        reveal(sp_nutrient);
        reveal_strlit("{\"nutrientId\":");
        reveal_strlit(",\"nutrientName\":");
        reveal_strlit(",\"value\":");
        reveal_strlit(",\"unitName\":");
        reveal_strlit(",\"median\":");
    }
    let j1 = match parse_lit(s, i, "{\"nutrientId\":") {
        Some(j) => j,
        None => {
            return None;
        },
    };
    let (id, j2) = match parse_u64(s, j1) {
        Some(x) => x,
        None => {
            return None;
        },
    };
    let j3 = match parse_lit(s, j2, ",\"nutrientName\":") {
        Some(j) => j,
        None => {
            return None;
        },
    };
    let (name, j4) = match parse_str(s, j3) {
        Some(x) => x,
        None => {
            return None;
        },
    };
    let j5 = match parse_lit(s, j4, ",\"value\":") {
        Some(j) => j,
        None => {
            return None;
        },
    };
    let (amount, j6) = match parse_opt_amount(s, j5) {
        Some(x) => x,
        None => {
            return None;
        },
    };
    let j7 = match parse_lit(s, j6, ",\"unitName\":") {
        Some(j) => j,
        None => {
            return None;
        },
    };
    let (unit, j8) = match parse_str(s, j7) {
        Some(x) => x,
        None => {
            return None;
        },
    };
    let j9 = match parse_lit(s, j8, ",\"median\":") {
        Some(j) => j,
        None => {
            return None;
        },
    };
    let (median, j10) = match parse_opt_amount(s, j9) {
        Some(x) => x,
        None => {
            return None;
        },
    };
    if j10 < s.len() && s[j10] == RBRACE {
        proof {
            assert(s@.subrange(j10 as int, j10 + 1) =~= seq![RBRACE]);
            assert(sp_lit(s@, j10 as int, seq![RBRACE]) == Some(j10 + 1 as int));
        }
        Some((Nutrient { id, name, amount, unit, median }, j10 + 1))
    } else {
        proof {
            if j10 < s@.len() {
                assert(s@.subrange(j10 as int, j10 + 1)[0] == s@[j10 as int]);
            }
        }
        None
    }
}

// -------------------------------------------------------------------------
// lists of nutrients
// -------------------------------------------------------------------------
pub open spec fn nutrient_enc_fn() -> spec_fn(NutrientView) -> Seq<u8> {
    |n: NutrientView| enc_nutrient(n)
}

pub open spec fn nutrient_parse_fn() -> spec_fn(Seq<u8>, int) -> Option<(NutrientView, int)> {
    |s: Seq<u8>, i: int| sp_nutrient(s, i)
}

pub proof fn lemma_nutrient_parser_inverts()
    ensures
        parser_inverts(nutrient_enc_fn(), nutrient_parse_fn()),
        enc_starts_clean(nutrient_enc_fn()),
        enc_not_null(nutrient_enc_fn()),
{
    assert forall|x: NutrientView, pre: Seq<u8>, rest: Seq<u8>|
        #[trigger] nutrient_parse_fn()(pre + nutrient_enc_fn()(x) + rest, pre.len() as int)
            == Some::<(NutrientView, int)>(
            (x, pre.len() as int + nutrient_enc_fn()(x).len()),
        ) by {
        lemma_sp_nutrient_inverts(pre + enc_nutrient(x) + rest, pre, x, rest);
    }
    assert forall|x: NutrientView|
        (#[trigger] nutrient_enc_fn()(x)).len() > 0 && nutrient_enc_fn()(x)[0] != RBRACKET
            && nutrient_enc_fn()(x)[0] != COMMA && nutrient_enc_fn()(x)[0] != 110 by {
        reveal(enc_nutrient);
        reveal_strlit("{\"nutrientId\":");
        assert(enc_nutrient(x)[0] == LBRACE);
    }
}

fn write_nutrient_items(xs: &Vec<Nutrient>, k: usize, out: &mut Vec<u8>)
    requires
        k <= xs@.len(),
    ensures
        final(out)@ == old(out)@ + crate::codec::enc_items(
            xs.deep_view().skip(k as int),
            nutrient_enc_fn(),
        ),
    decreases xs@.len() - k,
{
    if k == xs.len() {
        proof {
            assert(xs.deep_view().skip(k as int) =~= Seq::<NutrientView>::empty());
            assert(out@ =~= old(out)@ + crate::codec::enc_items(
                xs.deep_view().skip(k as int),
                nutrient_enc_fn(),
            ));
        }
    } else {
        write_nutrient(&xs[k], out);
        proof {
            assert(xs.deep_view().skip(k as int)[0] == xs@[k as int]@);
        }
        if k + 1 < xs.len() {
            out.push(COMMA);
            write_nutrient_items(xs, k + 1, out);
            proof {
                let tail = xs.deep_view().skip(k as int);
                assert(tail.drop_first() =~= xs.deep_view().skip(k + 1));
                assert(crate::codec::enc_items(tail, nutrient_enc_fn()) == nutrient_enc_fn()(
                    tail[0],
                ) + seq![COMMA] + crate::codec::enc_items(tail.drop_first(), nutrient_enc_fn()));
                assert(out@ =~= old(out)@ + crate::codec::enc_items(tail, nutrient_enc_fn()));
            }
        } else {
            proof {
                let tail = xs.deep_view().skip(k as int);
                assert(tail.len() == 1);
                assert(out@ =~= old(out)@ + crate::codec::enc_items(tail, nutrient_enc_fn()));
            }
        }
    }
}

pub fn write_nutrient_list(xs: &Vec<Nutrient>, out: &mut Vec<u8>)
    ensures
        final(out)@ == old(out)@ + enc_list(xs.deep_view(), nutrient_enc_fn()),
{
    out.push(LBRACKET);
    write_nutrient_items(xs, 0, out);
    out.push(RBRACKET);
    proof {
        assert(xs.deep_view().skip(0) =~= xs.deep_view());
        assert(out@ =~= old(out)@ + enc_list(xs.deep_view(), nutrient_enc_fn()));
    }
}

fn parse_nutrient_items(s: &Vec<u8>, i: usize) -> (r: Option<(Vec<Nutrient>, usize)>)
    requires
        i <= s@.len(),
    ensures
        match r {
            Some((v, j)) => crate::codec::sp_items(s@, i as int, nutrient_parse_fn()) == Some(
                (v.deep_view(), j as int),
            ) && i < j <= s@.len(),
            None => crate::codec::sp_items(s@, i as int, nutrient_parse_fn()) is None,
        },
    decreases s@.len() - i,
{
    proof {
        assert(nutrient_parse_fn()(s@, i as int) == sp_nutrient(s@, i as int));
    }
    match parse_nutrient(s, i) {
        None => None,
        Some((x, j)) => {
            if j < s.len() && s[j] == COMMA {
                match parse_nutrient_items(s, j + 1) {
                    None => None,
                    Some((tail, k)) => {
                        let ghost taildv = tail.deep_view();
                        let mut v: Vec<Nutrient> = Vec::new();
                        v.push(x);
                        let mut t = tail;
                        v.append(&mut t);
                        proof {
                            assert(v.deep_view() =~~= seq![x@] + taildv);
                        }
                        Some((v, k))
                    },
                }
            } else if j < s.len() && s[j] == RBRACKET {
                let mut v: Vec<Nutrient> = Vec::new();
                v.push(x);
                proof {
                    assert(v.deep_view() =~~= seq![x@]);
                }
                Some((v, j + 1))
            } else {
                None
            }
        },
    }
}

pub fn parse_nutrient_list(s: &Vec<u8>, i: usize) -> (r: Option<(Vec<Nutrient>, usize)>)
    requires
        i <= s@.len(),
    ensures
        match r {
            Some((v, j)) => sp_list(s@, i as int, nutrient_parse_fn()) == Some(
                (v.deep_view(), j as int),
            ) && i < j <= s@.len(),
            None => sp_list(s@, i as int, nutrient_parse_fn()) is None,
        },
{
    if i >= s.len() {
        return None;
    }
    if i + 1 < s.len() && s[i] == LBRACKET {
        if s[i + 1] == RBRACKET {
            let v: Vec<Nutrient> = Vec::new();
            proof {
                assert(v.deep_view() =~= Seq::<NutrientView>::empty());
            }
            Some((v, i + 2))
        } else {
            parse_nutrient_items(s, i + 1)
        }
    } else {
        None
    }
}


// -------------------------------------------------------------------------
// the eight canonical amounts
// -------------------------------------------------------------------------
#[verifier::opaque]
pub open spec fn enc_nv(v: NutrientValues) -> Seq<u8> {
    s2b("{\"carbohydrates\":"@) + enc_amount(v.carbohydrates as int) + s2b(",\"proteins\":"@)
        + enc_amount(v.proteins as int) + s2b(",\"fats\":"@) + enc_amount(v.fats as int) + s2b(
        ",\"energy\":"@,
    ) + enc_amount(v.energy as int) + s2b(",\"fiber\":"@) + enc_amount(v.fiber as int) + s2b(
        ",\"salt\":"@,
    ) + enc_amount(v.salt as int) + s2b(",\"sodium\":"@) + enc_amount(v.sodium as int) + s2b(
        ",\"sugar\":"@,
    ) + enc_amount(v.sugar as int) + seq![RBRACE]
}

/// Reads the last four amounts and the closing brace.
pub open spec fn sp_nv_tail(s: Seq<u8>, i: int) -> Option<((u64, u64, u64, u64), int)> {
    match sp_lit(s, i, s2b(",\"fiber\":"@)) {
        None => None,
        Some(j9) => match sp_amount(s, j9) {
            None => None,
            Some((fiber, j10)) => match sp_lit(s, j10, s2b(",\"salt\":"@)) {
                None => None,
                Some(j11) => match sp_amount(s, j11) {
                    None => None,
                    Some((salt, j12)) => match sp_lit(s, j12, s2b(",\"sodium\":"@)) {
                        None => None,
                        Some(j13) => match sp_amount(s, j13) {
                            None => None,
                            Some((sodium, j14)) => match sp_lit(s, j14, s2b(",\"sugar\":"@)) {
                                None => None,
                                Some(j15) => match sp_amount(s, j15) {
                                    None => None,
                                    Some((sugar, j16)) => match sp_lit(s, j16, seq![RBRACE]) {
                                        None => None,
                                        Some(j17) => Some(((fiber, salt, sodium, sugar), j17)),
                                    },
                                },
                            },
                        },
                    },
                },
            },
        },
    }
}

#[verifier::opaque]
pub open spec fn sp_nv(s: Seq<u8>, i: int) -> Option<(NutrientValues, int)> {
    match sp_lit(s, i, s2b("{\"carbohydrates\":"@)) {
        None => None,
        Some(j1) => match sp_amount(s, j1) {
            None => None,
            Some((carbohydrates, j2)) => match sp_lit(s, j2, s2b(",\"proteins\":"@)) {
                None => None,
                Some(j3) => match sp_amount(s, j3) {
                    None => None,
                    Some((proteins, j4)) => match sp_lit(s, j4, s2b(",\"fats\":"@)) {
                        None => None,
                        Some(j5) => match sp_amount(s, j5) {
                            None => None,
                            Some((fats, j6)) => match sp_lit(s, j6, s2b(",\"energy\":"@)) {
                                None => None,
                                Some(j7) => match sp_amount(s, j7) {
                                    None => None,
                                    Some((energy, j8)) => match sp_nv_tail(s, j8) {
                                        None => None,
                                        Some(((fiber, salt, sodium, sugar), j17)) => Some(
                                            (
                                                NutrientValues {
                                                    carbohydrates,
                                                    proteins,
                                                    fats,
                                                    energy,
                                                    fiber,
                                                    salt,
                                                    sodium,
                                                    sugar,
                                                },
                                                j17,
                                            ),
                                        ),
                                    },
                                },
                            },
                        },
                    },
                },
            },
        },
    }
}

#[verifier::rlimit(100)]
proof fn lemma_sp_nv_tail_inverts(
    s: Seq<u8>,
    pre8: Seq<u8>,
    v: NutrientValues,
    rest: Seq<u8>,
    tail: Seq<u8>,
)
    requires
        tail == s2b(",\"fiber\":"@) + (enc_amount(v.fiber as int) + (s2b(",\"salt\":"@) + (
        enc_amount(v.salt as int) + (s2b(",\"sodium\":"@) + (enc_amount(v.sodium as int) + (s2b(
            ",\"sugar\":"@,
        ) + (enc_amount(v.sugar as int) + (seq![RBRACE] + rest)))))))),
        s == pre8 + tail,
    ensures
        sp_nv_tail(s, pre8.len() as int) == Some::<((u64, u64, u64, u64), int)>(
            ((v.fiber, v.salt, v.sodium, v.sugar), pre8.len() + tail.len() - rest.len()),
        ),
{
    let l5 = s2b(",\"fiber\":"@);
    let l6 = s2b(",\"salt\":"@);
    let l7 = s2b(",\"sodium\":"@);
    let l8 = s2b(",\"sugar\":"@);
    reveal_strlit(",\"fiber\":");
    reveal_strlit(",\"salt\":");
    reveal_strlit(",\"sodium\":");
    reveal_strlit(",\"sugar\":");
    let t16 = seq![RBRACE] + rest;
    let t15 = enc_amount(v.sugar as int) + t16;
    let t14 = l8 + t15;
    let t13 = enc_amount(v.sodium as int) + t14;
    let t12 = l7 + t13;
    let t11 = enc_amount(v.salt as int) + t12;
    let t10 = l6 + t11;
    let t9 = enc_amount(v.fiber as int) + t10;
    lemma_step_lit(s, pre8, l5, t9);
    let p9 = pre8 + l5;
    assert(t10[0] == (',' as u8));
    lemma_step_amount(s, p9, v.fiber, t10);
    let p10 = p9 + enc_amount(v.fiber as int);
    lemma_step_lit(s, p10, l6, t11);
    let p11 = p10 + l6;
    assert(t12[0] == (',' as u8));
    lemma_step_amount(s, p11, v.salt, t12);
    let p12 = p11 + enc_amount(v.salt as int);
    lemma_step_lit(s, p12, l7, t13);
    let p13 = p12 + l7;
    assert(t14[0] == (',' as u8));
    lemma_step_amount(s, p13, v.sodium, t14);
    let p14 = p13 + enc_amount(v.sodium as int);
    lemma_step_lit(s, p14, l8, t15);
    let p15 = p14 + l8;
    assert(t16[0] == RBRACE);
    lemma_step_amount(s, p15, v.sugar, t16);
    let p16 = p15 + enc_amount(v.sugar as int);
    lemma_step_lit(s, p16, seq![RBRACE], rest);
}

#[verifier::rlimit(100)]
pub proof fn lemma_sp_nv_inverts(s: Seq<u8>, pre: Seq<u8>, v: NutrientValues, rest: Seq<u8>)
    requires
        s == pre + enc_nv(v) + rest,
    ensures
        sp_nv(s, pre.len() as int) == Some::<(NutrientValues, int)>(
            (v, pre.len() as int + enc_nv(v).len()),
        ),
{
    reveal(enc_nv);
    reveal(sp_nv);
    let l1 = s2b("{\"carbohydrates\":"@);
    let l2 = s2b(",\"proteins\":"@);
    let l3 = s2b(",\"fats\":"@);
    let l4 = s2b(",\"energy\":"@);
    let l5 = s2b(",\"fiber\":"@);
    let l6 = s2b(",\"salt\":"@);
    let l7 = s2b(",\"sodium\":"@);
    let l8 = s2b(",\"sugar\":"@);
    reveal_strlit(",\"proteins\":");
    reveal_strlit(",\"fats\":");
    reveal_strlit(",\"energy\":");
    reveal_strlit(",\"fiber\":");
    let t16 = seq![RBRACE] + rest;
    let t15 = enc_amount(v.sugar as int) + t16;
    let t14 = l8 + t15;
    let t13 = enc_amount(v.sodium as int) + t14;
    let t12 = l7 + t13;
    let t11 = enc_amount(v.salt as int) + t12;
    let t10 = l6 + t11;
    let t9 = enc_amount(v.fiber as int) + t10;
    let t8 = l5 + t9;
    let t7 = enc_amount(v.energy as int) + t8;
    let t6 = l4 + t7;
    let t5 = enc_amount(v.fats as int) + t6;
    let t4 = l3 + t5;
    let t3 = enc_amount(v.proteins as int) + t4;
    let t2 = l2 + t3;
    let t1 = enc_amount(v.carbohydrates as int) + t2;
    lemma_concat_associative(l1, enc_amount(v.carbohydrates as int), t2);
    let q1 = l1 + enc_amount(v.carbohydrates as int);
    lemma_concat_associative(q1, l2, t3);
    let q2 = q1 + l2;
    lemma_concat_associative(q2, enc_amount(v.proteins as int), t4);
    let q3 = q2 + enc_amount(v.proteins as int);
    lemma_concat_associative(q3, l3, t5);
    let q4 = q3 + l3;
    lemma_concat_associative(q4, enc_amount(v.fats as int), t6);
    let q5 = q4 + enc_amount(v.fats as int);
    lemma_concat_associative(q5, l4, t7);
    let q6 = q5 + l4;
    lemma_concat_associative(q6, enc_amount(v.energy as int), t8);
    let q7 = q6 + enc_amount(v.energy as int);
    lemma_concat_associative(q7, l5, t9);
    let q8 = q7 + l5;
    lemma_concat_associative(q8, enc_amount(v.fiber as int), t10);
    let q9 = q8 + enc_amount(v.fiber as int);
    lemma_concat_associative(q9, l6, t11);
    let q10 = q9 + l6;
    lemma_concat_associative(q10, enc_amount(v.salt as int), t12);
    let q11 = q10 + enc_amount(v.salt as int);
    lemma_concat_associative(q11, l7, t13);
    let q12 = q11 + l7;
    lemma_concat_associative(q12, enc_amount(v.sodium as int), t14);
    let q13 = q12 + enc_amount(v.sodium as int);
    lemma_concat_associative(q13, l8, t15);
    let q14 = q13 + l8;
    lemma_concat_associative(q14, enc_amount(v.sugar as int), t16);
    let q15 = q14 + enc_amount(v.sugar as int);
    lemma_concat_associative(q15, seq![RBRACE], rest);
    lemma_concat_associative(pre, enc_nv(v), rest);
    assert(l1 + t1 == enc_nv(v) + rest);
    assert(s == pre + (l1 + t1));
    lemma_step_lit(s, pre, l1, t1);
    let p1 = pre + l1;
    assert(t2[0] == (',' as u8));
    lemma_step_amount(s, p1, v.carbohydrates, t2);
    let p2 = p1 + enc_amount(v.carbohydrates as int);
    lemma_step_lit(s, p2, l2, t3);
    let p3 = p2 + l2;
    assert(t4[0] == (',' as u8));
    lemma_step_amount(s, p3, v.proteins, t4);
    let p4 = p3 + enc_amount(v.proteins as int);
    lemma_step_lit(s, p4, l3, t5);
    let p5 = p4 + l3;
    assert(t6[0] == (',' as u8));
    lemma_step_amount(s, p5, v.fats, t6);
    let p6 = p5 + enc_amount(v.fats as int);
    lemma_step_lit(s, p6, l4, t7);
    let p7 = p6 + l4;
    assert(t8[0] == (',' as u8));
    lemma_step_amount(s, p7, v.energy, t8);
    let p8 = p7 + enc_amount(v.energy as int);
    lemma_sp_nv_tail_inverts(s, p8, v, rest, t8);
    assert(pre.len() + enc_nv(v).len() == p8.len() + t8.len() - rest.len());
}

pub fn write_nv(v: &NutrientValues, out: &mut Vec<u8>)
    ensures
        final(out)@ == old(out)@ + enc_nv(*v),
{
    proof {
        reveal(enc_nv);
        reveal_strlit("{\"carbohydrates\":");
        reveal_strlit(",\"proteins\":");
        reveal_strlit(",\"fats\":");
        reveal_strlit(",\"energy\":");
        reveal_strlit(",\"fiber\":");
        reveal_strlit(",\"salt\":");
        reveal_strlit(",\"sodium\":");
        reveal_strlit(",\"sugar\":");
    }
    write_lit("{\"carbohydrates\":", out);
    crate::codec::write_amount(v.carbohydrates, out);
    write_lit(",\"proteins\":", out);
    crate::codec::write_amount(v.proteins, out);
    write_lit(",\"fats\":", out);
    crate::codec::write_amount(v.fats, out);
    write_lit(",\"energy\":", out);
    crate::codec::write_amount(v.energy, out);
    write_lit(",\"fiber\":", out);
    crate::codec::write_amount(v.fiber, out);
    write_lit(",\"salt\":", out);
    crate::codec::write_amount(v.salt, out);
    write_lit(",\"sodium\":", out);
    crate::codec::write_amount(v.sodium, out);
    write_lit(",\"sugar\":", out);
    crate::codec::write_amount(v.sugar, out);
    out.push(RBRACE);
    proof {
        let l1 = s2b("{\"carbohydrates\":"@);
        let l2 = s2b(",\"proteins\":"@);
        let l3 = s2b(",\"fats\":"@);
        let l4 = s2b(",\"energy\":"@);
        let l5 = s2b(",\"fiber\":"@);
        let l6 = s2b(",\"salt\":"@);
        let l7 = s2b(",\"sodium\":"@);
        let l8 = s2b(",\"sugar\":"@);
        let o = old(out)@;
        let e1 = l1;
        lemma_concat_associative(o, e1, enc_amount(v.carbohydrates as int));
        let e2 = e1 + enc_amount(v.carbohydrates as int);
        lemma_concat_associative(o, e2, l2);
        let e3 = e2 + l2;
        lemma_concat_associative(o, e3, enc_amount(v.proteins as int));
        let e4 = e3 + enc_amount(v.proteins as int);
        lemma_concat_associative(o, e4, l3);
        let e5 = e4 + l3;
        lemma_concat_associative(o, e5, enc_amount(v.fats as int));
        let e6 = e5 + enc_amount(v.fats as int);
        lemma_concat_associative(o, e6, l4);
        let e7 = e6 + l4;
        lemma_concat_associative(o, e7, enc_amount(v.energy as int));
        let e8 = e7 + enc_amount(v.energy as int);
        lemma_concat_associative(o, e8, l5);
        let e9 = e8 + l5;
        lemma_concat_associative(o, e9, enc_amount(v.fiber as int));
        let e10 = e9 + enc_amount(v.fiber as int);
        lemma_concat_associative(o, e10, l6);
        let e11 = e10 + l6;
        lemma_concat_associative(o, e11, enc_amount(v.salt as int));
        let e12 = e11 + enc_amount(v.salt as int);
        lemma_concat_associative(o, e12, l7);
        let e13 = e12 + l7;
        lemma_concat_associative(o, e13, enc_amount(v.sodium as int));
        let e14 = e13 + enc_amount(v.sodium as int);
        lemma_concat_associative(o, e14, l8);
        let e15 = e14 + l8;
        lemma_concat_associative(o, e15, enc_amount(v.sugar as int));
        let e16 = e15 + enc_amount(v.sugar as int);
        lemma_concat_associative(o, e16, seq![RBRACE]);
        assert(out@ == o + enc_nv(*v));
    }
}

fn parse_nv_tail(s: &Vec<u8>, i: usize) -> (r: Option<((u64, u64, u64, u64), usize)>)
    requires
        i <= s@.len(),
    ensures
        match r {
            Some((q, j)) => sp_nv_tail(s@, i as int) == Some((q, j as int)) && i < j <= s@.len(),
            None => sp_nv_tail(s@, i as int) is None,
        },
{
    proof {
        reveal_strlit(",\"fiber\":");
        reveal_strlit(",\"salt\":");
        reveal_strlit(",\"sodium\":");
        reveal_strlit(",\"sugar\":");
    }
    let j9 = match parse_lit(s, i, ",\"fiber\":") {
        Some(j) => j,
        None => {
            return None;
        },
    };
    let (fiber, j10) = match crate::codec::parse_amount(s, j9) {
        Some(x) => x,
        None => {
            return None;
        },
    };
    let j11 = match parse_lit(s, j10, ",\"salt\":") {
        Some(j) => j,
        None => {
            return None;
        },
    };
    let (salt, j12) = match crate::codec::parse_amount(s, j11) {
        Some(x) => x,
        None => {
            return None;
        },
    };
    let j13 = match parse_lit(s, j12, ",\"sodium\":") {
        Some(j) => j,
        None => {
            return None;
        },
    };
    let (sodium, j14) = match crate::codec::parse_amount(s, j13) {
        Some(x) => x,
        None => {
            return None;
        },
    };
    let j15 = match parse_lit(s, j14, ",\"sugar\":") {
        Some(j) => j,
        None => {
            return None;
        },
    };
    let (sugar, j16) = match crate::codec::parse_amount(s, j15) {
        Some(x) => x,
        None => {
            return None;
        },
    };
    if j16 < s.len() && s[j16] == RBRACE {
        proof {
            assert(s@.subrange(j16 as int, j16 + 1) =~= seq![RBRACE]);
            assert(sp_lit(s@, j16 as int, seq![RBRACE]) == Some(j16 + 1 as int));
        }
        Some(((fiber, salt, sodium, sugar), j16 + 1))
    } else {
        proof {
            if j16 < s@.len() {
                assert(s@.subrange(j16 as int, j16 + 1)[0] == s@[j16 as int]);
            }
        }
        None
    }
}

#[verifier::rlimit(100)]
pub fn parse_nv(s: &Vec<u8>, i: usize) -> (r: Option<(NutrientValues, usize)>)
    requires
        i <= s@.len(),
    ensures
        match r {
            Some((v, j)) => sp_nv(s@, i as int) == Some((v, j as int)) && i < j <= s@.len(),
            None => sp_nv(s@, i as int) is None,
        },
{
    proof {
        reveal(sp_nv);
        reveal_strlit("{\"carbohydrates\":");
        reveal_strlit(",\"proteins\":");
        reveal_strlit(",\"fats\":");
        reveal_strlit(",\"energy\":");
    }
    let j1 = match parse_lit(s, i, "{\"carbohydrates\":") {
        Some(j) => j,
        None => {
            return None;
        },
    };
    let (carbohydrates, j2) = match crate::codec::parse_amount(s, j1) {
        Some(x) => x,
        None => {
            return None;
        },
    };
    let j3 = match parse_lit(s, j2, ",\"proteins\":") {
        Some(j) => j,
        None => {
            return None;
        },
    };
    let (proteins, j4) = match crate::codec::parse_amount(s, j3) {
        Some(x) => x,
        None => {
            return None;
        },
    };
    let j5 = match parse_lit(s, j4, ",\"fats\":") {
        Some(j) => j,
        None => {
            return None;
        },
    };
    let (fats, j6) = match crate::codec::parse_amount(s, j5) {
        Some(x) => x,
        None => {
            return None;
        },
    };
    let j7 = match parse_lit(s, j6, ",\"energy\":") {
        Some(j) => j,
        None => {
            return None;
        },
    };
    let (energy, j8) = match crate::codec::parse_amount(s, j7) {
        Some(x) => x,
        None => {
            return None;
        },
    };
    match parse_nv_tail(s, j8) {
        Some(((fiber, salt, sodium, sugar), j17)) => Some(
            (
                NutrientValues { carbohydrates, proteins, fats, energy, fiber, salt, sodium, sugar },
                j17,
            ),
        ),
        None => None,
    }
}

// -------------------------------------------------------------------------
// foods
// -------------------------------------------------------------------------
/// A food as cached from the nutrient database, with its derived canonical
/// amounts.
#[derive(Debug, Clone, PartialEq, Eq)]
pub struct Food {
    pub description: Vec<u8>,
    pub nutrients: Vec<Nutrient>,
    pub id: u64,
    pub nutrient_values: NutrientValues,
}

pub struct FoodView {
    pub description: Seq<u8>,
    pub nutrients: Seq<NutrientView>,
    pub id: u64,
    pub nutrient_values: NutrientValues,
}

impl View for Food {
    type V = FoodView;

    open spec fn view(&self) -> FoodView {
        FoodView {
            description: self.description@,
            nutrients: self.nutrients.deep_view(),
            id: self.id,
            nutrient_values: self.nutrient_values,
        }
    }
}

impl DeepView for Food {
    type V = FoodView;

    open spec fn deep_view(&self) -> FoodView {
        self@
    }
}

#[verifier::opaque]
pub open spec fn enc_food(f: FoodView) -> Seq<u8> {
    s2b("{\"description\":"@) + enc_str(f.description) + s2b(",\"foodNutrients\":"@) + enc_list(
        f.nutrients,
        nutrient_enc_fn(),
    ) + s2b(",\"fdcId\":"@) + enc_u64(f.id as int) + s2b(",\"nutrient_values\":"@) + enc_nv(
        f.nutrient_values,
    ) + seq![RBRACE]
}

/// Reads the numeric id, the derived amounts and the closing brace.
#[verifier::opaque]
pub open spec fn sp_food_tail(s: Seq<u8>, i: int) -> Option<((u64, NutrientValues), int)> {
    match sp_lit(s, i, s2b(",\"fdcId\":"@)) {
        None => None,
        Some(j5) => match sp_u64(s, j5) {
            None => None,
            Some((id, j6)) => match sp_lit(s, j6, s2b(",\"nutrient_values\":"@)) {
                None => None,
                Some(j7) => match sp_nv(s, j7) {
                    None => None,
                    Some((nutrient_values, j8)) => match sp_lit(s, j8, seq![RBRACE]) {
                        None => None,
                        Some(j9) => Some(((id, nutrient_values), j9)),
                    },
                },
            },
        },
    }
}

#[verifier::opaque]
pub open spec fn sp_food(s: Seq<u8>, i: int) -> Option<(FoodView, int)> {
    match sp_lit(s, i, s2b("{\"description\":"@)) {
        None => None,
        Some(j1) => match sp_str(s, j1) {
            None => None,
            Some((description, j2)) => match sp_lit(s, j2, s2b(",\"foodNutrients\":"@)) {
                None => None,
                Some(j3) => match sp_list(s, j3, nutrient_parse_fn()) {
                    None => None,
                    Some((nutrients, j4)) => match sp_food_tail(s, j4) {
                        None => None,
                        Some(((id, nutrient_values), j9)) => Some(
                            (FoodView { description, nutrients, id, nutrient_values }, j9),
                        ),
                    },
                },
            },
        },
    }
}

pub open spec fn dec_food(s: Seq<u8>) -> Option<FoodView> {
    match sp_food(s, 0) {
        Some((f, j)) => {
            if j == s.len() {
                Some(f)
            } else {
                None
            }
        },
        None => None,
    }
}

#[verifier::rlimit(100)]
pub proof fn lemma_sp_food_inverts(s: Seq<u8>, pre: Seq<u8>, f: FoodView, rest: Seq<u8>)
    requires
        s == pre + enc_food(f) + rest,
    ensures
        sp_food(s, pre.len() as int) == Some::<(FoodView, int)>(
            (f, pre.len() as int + enc_food(f).len()),
        ),
{
    reveal(enc_food);
    reveal(sp_food);
    reveal(sp_food_tail);
    let l1 = s2b("{\"description\":"@);
    let l2 = s2b(",\"foodNutrients\":"@);
    let l3 = s2b(",\"fdcId\":"@);
    let l4 = s2b(",\"nutrient_values\":"@);
    reveal_strlit(",\"foodNutrients\":");
    reveal_strlit(",\"fdcId\":");
    reveal_strlit(",\"nutrient_values\":");
    let el = enc_list(f.nutrients, nutrient_enc_fn());
    let t8 = seq![RBRACE] + rest;
    let t7 = enc_nv(f.nutrient_values) + t8;
    let t6 = l4 + t7;
    let t5 = enc_u64(f.id as int) + t6;
    let t4 = l3 + t5;
    let t3 = el + t4;
    let t2 = l2 + t3;
    let t1 = enc_str(f.description) + t2;
    lemma_concat_associative(l1, enc_str(f.description), t2);
    let q1 = l1 + enc_str(f.description);
    lemma_concat_associative(q1, l2, t3);
    let q2 = q1 + l2;
    lemma_concat_associative(q2, el, t4);
    let q3 = q2 + el;
    lemma_concat_associative(q3, l3, t5);
    let q4 = q3 + l3;
    lemma_concat_associative(q4, enc_u64(f.id as int), t6);
    let q5 = q4 + enc_u64(f.id as int);
    lemma_concat_associative(q5, l4, t7);
    let q6 = q5 + l4;
    lemma_concat_associative(q6, enc_nv(f.nutrient_values), t8);
    let q7 = q6 + enc_nv(f.nutrient_values);
    lemma_concat_associative(q7, seq![RBRACE], rest);
    lemma_concat_associative(pre, enc_food(f), rest);
    assert(l1 + t1 == enc_food(f) + rest);
    assert(s == pre + (l1 + t1));
    lemma_step_lit(s, pre, l1, t1);
    let p1 = pre + l1;
    lemma_step_str(s, p1, f.description, t2);
    let p2 = p1 + enc_str(f.description);
    lemma_step_lit(s, p2, l2, t3);
    let p3 = p2 + l2;
    lemma_concat_associative(p3, el, t4);
    lemma_nutrient_parser_inverts();
    lemma_sp_list_inverts(s, p3, f.nutrients, t4, nutrient_enc_fn(), nutrient_parse_fn());
    let p4 = p3 + el;
    lemma_step_lit(s, p4, l3, t5);
    let p5 = p4 + l3;
    assert(t6[0] == (',' as u8));
    lemma_step_u64(s, p5, f.id, t6);
    let p6 = p5 + enc_u64(f.id as int);
    lemma_step_lit(s, p6, l4, t7);
    let p7 = p6 + l4;
    lemma_concat_associative(p7, enc_nv(f.nutrient_values), t8);
    lemma_sp_nv_inverts(s, p7, f.nutrient_values, t8);
    let p8 = p7 + enc_nv(f.nutrient_values);
    lemma_step_lit(s, p8, seq![RBRACE], rest);
}

/// Decoding the written form of a food returns that food.
pub proof fn lemma_food_round_trip(f: FoodView)
    ensures
        dec_food(enc_food(f)) == Some(f),
{
    let s = enc_food(f);
    assert(s =~= Seq::<u8>::empty() + enc_food(f) + Seq::<u8>::empty());
    lemma_sp_food_inverts(s, Seq::<u8>::empty(), f, Seq::<u8>::empty());
}

impl Food {
    /// The stored JSON form of this food.
    pub fn encode(&self) -> (r: Vec<u8>)
        ensures
            r@ == enc_food(self@),
    {
        let mut out: Vec<u8> = Vec::new();
        proof {
            reveal(enc_food);
            reveal_strlit("{\"description\":");
            reveal_strlit(",\"foodNutrients\":");
            reveal_strlit(",\"fdcId\":");
            reveal_strlit(",\"nutrient_values\":");
        }
        write_lit("{\"description\":", &mut out);
        write_str(&self.description, &mut out);
        write_lit(",\"foodNutrients\":", &mut out);
        write_nutrient_list(&self.nutrients, &mut out);
        write_lit(",\"fdcId\":", &mut out);
        write_u64(self.id, &mut out);
        write_lit(",\"nutrient_values\":", &mut out);
        write_nv(&self.nutrient_values, &mut out);
        out.push(RBRACE);
        proof {
            assert(out@ =~= enc_food(self@));
        }
        out
    }

    /// Reads a stored food; anything malformed reads as `None`.
    pub fn decode(s: &Vec<u8>) -> (r: Option<Food>)
        ensures
            match r {
                Some(f) => dec_food(s@) == Some(f@),
                None => dec_food(s@) is None,
            },
    {
        match Food::parse_at(s, 0) {
            Some((f, j)) => {
                if j == s.len() {
                    Some(f)
                } else {
                    None
                }
            },
            None => None,
        }
    }

    /// Reads a food at `i`; mirrors `sp_food`.
    #[verifier::rlimit(100)]
    pub fn parse_at(s: &Vec<u8>, i: usize) -> (r: Option<(Food, usize)>)
        requires
            i <= s@.len(),
        ensures
            match r {
                Some((f, j)) => sp_food(s@, i as int) == Some((f@, j as int)) && i < j <= s@.len(),
                None => sp_food(s@, i as int) is None,
            },
    {
        proof {
            reveal(sp_food);
            reveal_strlit("{\"description\":");
            reveal_strlit(",\"foodNutrients\":");
        }
        let j1 = match parse_lit(s, i, "{\"description\":") {
            Some(j) => j,
            None => {
                return None;
            },
        };
        let (description, j2) = match parse_str(s, j1) {
            Some(x) => x,
            None => {
                return None;
            },
        };
        let j3 = match parse_lit(s, j2, ",\"foodNutrients\":") {
            Some(j) => j,
            None => {
                return None;
            },
        };
        let (nutrients, j4) = match parse_nutrient_list(s, j3) {
            Some(x) => x,
            None => {
                return None;
            },
        };
        match Food::parse_tail(s, j4) {
            Some(((id, nutrient_values), j9)) => Some(
                (Food { description, nutrients, id, nutrient_values }, j9),
            ),
            None => None,
        }
    }

    /// Reads the trailing food fields; mirrors `sp_food_tail`.
    #[verifier::rlimit(100)]
    fn parse_tail(s: &Vec<u8>, i: usize) -> (r: Option<((u64, NutrientValues), usize)>)
        requires
            i <= s@.len(),
        ensures
            match r {
                Some((q, j)) => sp_food_tail(s@, i as int) == Some((q, j as int)) && i < j
                    <= s@.len(),
                None => sp_food_tail(s@, i as int) is None,
            },
    {
        proof {
            reveal(sp_food_tail);
            reveal_strlit(",\"fdcId\":");
            reveal_strlit(",\"nutrient_values\":");
        }
        let j5 = match parse_lit(s, i, ",\"fdcId\":") {
            Some(j) => j,
            None => {
                return None;
            },
        };
        let (id, j6) = match parse_u64(s, j5) {
            Some(x) => x,
            None => {
                return None;
            },
        };
        let j7 = match parse_lit(s, j6, ",\"nutrient_values\":") {
            Some(j) => j,
            None => {
                return None;
            },
        };
        let (nutrient_values, j8) = match parse_nv(s, j7) {
            Some(x) => x,
            None => {
                return None;
            },
        };
        if j8 < s.len() && s[j8] == RBRACE {
            proof {
                assert(s@.subrange(j8 as int, j8 + 1) =~= seq![RBRACE]);
                assert(sp_lit(s@, j8 as int, seq![RBRACE]) == Some(j8 + 1 as int));
            }
            Some(((id, nutrient_values), j8 + 1))
        } else {
            proof {
                if j8 < s@.len() {
                    assert(s@.subrange(j8 as int, j8 + 1)[0] == s@[j8 as int]);
                }
            }
            None
        }
    }
}

// -------------------------------------------------------------------------
// deriving the canonical amounts from the nutrient list
// -------------------------------------------------------------------------
/// The amount of the first nutrient named `name`, zero when there is none
/// or its amount is absent.
pub open spec fn find_amt(ns: Seq<NutrientView>, name: Seq<u8>) -> u64
    decreases ns.len(),
{
    if ns.len() == 0 {
        0u64
    } else if ns[0].name == name {
        match ns[0].amount {
            Some(a) => a,
            None => 0u64,
        }
    } else {
        find_amt(ns.drop_first(), name)
    }
}

/// Like `find_amt`, matching either of two names.
pub open spec fn find_amt2(ns: Seq<NutrientView>, name_a: Seq<u8>, name_b: Seq<u8>) -> u64
    decreases ns.len(),
{
    if ns.len() == 0 {
        0u64
    } else if ns[0].name == name_a || ns[0].name == name_b {
        match ns[0].amount {
            Some(a) => a,
            None => 0u64,
        }
    } else {
        find_amt2(ns.drop_first(), name_a, name_b)
    }
}

/// The canonical amounts of a food: named nutrients looked up by their
/// upstream names; sodium arrives in thousandths of a milligram and is
/// carried as thousandths of a gram; salt is sodium times two and a half.
pub open spec fn food_macros(f: FoodView) -> NutrientValues {
    NutrientValues {
        carbohydrates: find_amt(f.nutrients, s2b("Carbohydrate, by difference"@)),
        proteins: find_amt(f.nutrients, s2b("Protein"@)),
        fats: find_amt(f.nutrients, s2b("Total lipid (fat)"@)),
        energy: find_amt2(
            f.nutrients,
            s2b("Energy"@),
            s2b("Energy (Atwater Specific Factors)"@),
        ),
        fiber: find_amt(f.nutrients, s2b("Fiber, total dietary"@)),
        salt: (find_amt(f.nutrients, s2b("Sodium, Na"@)) / 400) as u64,
        sodium: (find_amt(f.nutrients, s2b("Sodium, Na"@)) / 1000) as u64,
        sugar: find_amt(f.nutrients, s2b("Total Sugars"@)),
    }
}

fn find_amt_exec(ns: &Vec<Nutrient>, k: usize, name: &Vec<u8>) -> (r: u64)
    requires
        k <= ns@.len(),
    ensures
        r == find_amt(ns.deep_view().skip(k as int), name@),
    decreases ns@.len() - k,
{
    if k == ns.len() {
        proof {
            assert(ns.deep_view().skip(k as int) =~= Seq::<NutrientView>::empty());
        }
        0
    } else {
        proof {
            assert(ns.deep_view().skip(k as int)[0] == ns@[k as int]@);
            assert(ns.deep_view().skip(k as int).drop_first() =~= ns.deep_view().skip(k + 1));
        }
        if bytes_eq(&ns[k].name, name) {
            match ns[k].amount {
                Some(a) => a,
                None => 0,
            }
        } else {
            find_amt_exec(ns, k + 1, name)
        }
    }
}

fn find_amt2_exec(ns: &Vec<Nutrient>, k: usize, name_a: &Vec<u8>, name_b: &Vec<u8>) -> (r: u64)
    requires
        k <= ns@.len(),
    ensures
        r == find_amt2(ns.deep_view().skip(k as int), name_a@, name_b@),
    decreases ns@.len() - k,
{
    if k == ns.len() {
        proof {
            assert(ns.deep_view().skip(k as int) =~= Seq::<NutrientView>::empty());
        }
        0
    } else {
        proof {
            assert(ns.deep_view().skip(k as int)[0] == ns@[k as int]@);
            assert(ns.deep_view().skip(k as int).drop_first() =~= ns.deep_view().skip(k + 1));
        }
        if bytes_eq(&ns[k].name, name_a) || bytes_eq(&ns[k].name, name_b) {
            match ns[k].amount {
                Some(a) => a,
                None => 0,
            }
        } else {
            find_amt2_exec(ns, k + 1, name_a, name_b)
        }
    }
}

impl Food {
    /// The canonical per-100g amounts derived from the nutrient list.
    pub fn get_numerical_macros(&self) -> (r: NutrientValues)
        ensures
            r == food_macros(self@),
    {
        proof {
            reveal_strlit("Carbohydrate, by difference");
            reveal_strlit("Protein");
            reveal_strlit("Total lipid (fat)");
            reveal_strlit("Energy");
            reveal_strlit("Energy (Atwater Specific Factors)");
            reveal_strlit("Fiber, total dietary");
            reveal_strlit("Sodium, Na");
            reveal_strlit("Total Sugars");
            assert(self.nutrients.deep_view().skip(0) =~= self.nutrients.deep_view());
        }
        let n_carb = lit("Carbohydrate, by difference");
        let n_prot = lit("Protein");
        let n_fat = lit("Total lipid (fat)");
        let n_energy_a = lit("Energy");
        let n_energy_b = lit("Energy (Atwater Specific Factors)");
        let n_fiber = lit("Fiber, total dietary");
        let n_sodium = lit("Sodium, Na");
        let n_sugar = lit("Total Sugars");
        let sodium_raw = find_amt_exec(&self.nutrients, 0, &n_sodium);
        NutrientValues {
            carbohydrates: find_amt_exec(&self.nutrients, 0, &n_carb),
            proteins: find_amt_exec(&self.nutrients, 0, &n_prot),
            fats: find_amt_exec(&self.nutrients, 0, &n_fat),
            energy: find_amt2_exec(&self.nutrients, 0, &n_energy_a, &n_energy_b),
            fiber: find_amt_exec(&self.nutrients, 0, &n_fiber),
            salt: sodium_raw / 400,
            sodium: sodium_raw / 1000,
            sugar: find_amt_exec(&self.nutrients, 0, &n_sugar),
        }
    }

    /// The same food with its canonical amounts recomputed from the
    /// nutrient list.
    pub fn generate_nutrient_values(self) -> (r: Food)
        ensures
            r@.description == self@.description,
            r@.nutrients == self@.nutrients,
            r@.id == self@.id,
            r@.nutrient_values == food_macros(self@),
    {
        let nv = self.get_numerical_macros();
        Food { nutrient_values: nv, ..self }
    }

    /// Builds a food and derives its canonical amounts.
    pub fn new(id: u64, description: Vec<u8>, nutrients: Vec<Nutrient>) -> (r: Food)
        ensures
            r@.id == id,
            r@.description == description@,
            r@.nutrients == nutrients.deep_view(),
            r@.nutrient_values == food_macros(r@),
    {
        let food = Food { description, nutrients, id, nutrient_values: NutrientValues::zero() };
        food.generate_nutrient_values()
    }

    /// Scales only the derived amounts, as a portion of `quantity` grams.
    pub fn scaled_portion(&self, quantity: u64) -> (r: Food)
        ensures
            r@.description == self@.description,
            r@.nutrients == self@.nutrients,
            r@.id == self@.id,
            r@.nutrient_values == crate::nutrients::nv_portion(self@.nutrient_values, quantity),
    {
        Food {
            description: crate::bytes::clone_bytes(&self.description),
            nutrients: self.clone_nutrients(),
            id: self.id,
            nutrient_values: self.nutrient_values.portion(quantity),
        }
    }

    fn clone_nutrients(&self) -> (r: Vec<Nutrient>)
        ensures
            r.deep_view() == self.nutrients.deep_view(),
    {
        let mut out: Vec<Nutrient> = Vec::new();
        let mut k: usize = 0;
        while k < self.nutrients.len()
            invariant
                k <= self.nutrients@.len(),
                out@.len() == k,
                out.deep_view() == self.nutrients.deep_view().subrange(0, k as int),
            decreases self.nutrients@.len() - k,
        {
            let ghost old_outv = out@;
            let n = &self.nutrients[k];
            let copy = Nutrient {
                id: n.id,
                name: crate::bytes::clone_bytes(&n.name),
                amount: n.amount,
                unit: crate::bytes::clone_bytes(&n.unit),
                median: n.median,
            };
            proof {
                assert(copy@ == self.nutrients@[k as int]@);
                assert(self.nutrients.deep_view()[k as int] == self.nutrients@[k as int]@);
            }
            out.push(copy);
            proof {
                let dv = self.nutrients.deep_view();
                assert(out.deep_view().len() == k + 1);
                assert forall|t: int| 0 <= t < k + 1 implies out.deep_view()[t] == dv.subrange(
                    0,
                    k + 1,
                )[t] by {
                    assert(out.deep_view()[t] == out@[t]@);
                    if t < k {
                        assert(out@[t] == old_outv[t]);
                        assert(Seq::new(old_outv.len(), |i: int| old_outv[i]@)[t] == old_outv[t]@);
                    }
                }
                assert(out.deep_view() =~= dv.subrange(0, k + 1));
            }
            k = k + 1;
        }
        proof {
            assert(out.deep_view() =~~= self.nutrients.deep_view());
        }
        out
    }

    /// A fixed sample food.
    pub fn example() -> (r: Food)
        ensures
            r@.id == 1,
            r@.description == Seq::<u8>::empty(),
            r@.nutrients == Seq::<NutrientView>::empty(),
            r@.nutrient_values == crate::nutrients::nv_zero(),
    {
        let r = Food {
            description: Vec::new(),
            nutrients: Vec::new(),
            id: 1,
            nutrient_values: NutrientValues::zero(),
        };
        proof {
            assert(r.nutrients.deep_view() =~= Seq::<NutrientView>::empty());
        }
        r
    }
}

// -------------------------------------------------------------------------
// lists of foods
// -------------------------------------------------------------------------
pub open spec fn food_enc_fn() -> spec_fn(FoodView) -> Seq<u8> {
    |f: FoodView| enc_food(f)
}

pub open spec fn food_parse_fn() -> spec_fn(Seq<u8>, int) -> Option<(FoodView, int)> {
    |s: Seq<u8>, i: int| sp_food(s, i)
}

pub proof fn lemma_food_parser_inverts()
    ensures
        parser_inverts(food_enc_fn(), food_parse_fn()),
        enc_starts_clean(food_enc_fn()),
        enc_not_null(food_enc_fn()),
{
    assert forall|x: FoodView, pre: Seq<u8>, rest: Seq<u8>|
        #[trigger] food_parse_fn()(pre + food_enc_fn()(x) + rest, pre.len() as int) == Some::<
            (FoodView, int),
        >((x, pre.len() as int + food_enc_fn()(x).len())) by {
        lemma_sp_food_inverts(pre + enc_food(x) + rest, pre, x, rest);
    }
    assert forall|x: FoodView|
        (#[trigger] food_enc_fn()(x)).len() > 0 && food_enc_fn()(x)[0] != RBRACKET && food_enc_fn()(
            x,
        )[0] != COMMA && food_enc_fn()(x)[0] != 110 by {
        reveal(enc_food);
        reveal_strlit("{\"description\":");
        assert(enc_food(x)[0] == LBRACE);
    }
}

#[verifier::rlimit(100)]
fn write_food_items(xs: &Vec<Food>, k: usize, out: &mut Vec<u8>)
    requires
        k <= xs@.len(),
    ensures
        final(out)@ == old(out)@ + crate::codec::enc_items(
            xs.deep_view().skip(k as int),
            food_enc_fn(),
        ),
    decreases xs@.len() - k,
{
    if k == xs.len() {
        proof {
            assert(xs.deep_view().skip(k as int) =~= Seq::<FoodView>::empty());
            assert(out@ =~= old(out)@ + crate::codec::enc_items(
                xs.deep_view().skip(k as int),
                food_enc_fn(),
            ));
        }
    } else {
        let mut enc = xs[k].encode();
        out.append(&mut enc);
        proof {
            assert(xs.deep_view().skip(k as int)[0] == xs@[k as int]@);
        }
        if k + 1 < xs.len() {
            out.push(COMMA);
            write_food_items(xs, k + 1, out);
            proof {
                let tail = xs.deep_view().skip(k as int);
                assert(tail.drop_first() =~= xs.deep_view().skip(k + 1));
                assert(crate::codec::enc_items(tail, food_enc_fn()) == food_enc_fn()(tail[0])
                    + seq![COMMA] + crate::codec::enc_items(tail.drop_first(), food_enc_fn()));
                assert(out@ =~= old(out)@ + crate::codec::enc_items(tail, food_enc_fn()));
            }
        } else {
            proof {
                let tail = xs.deep_view().skip(k as int);
                assert(tail.len() == 1);
                assert(out@ =~= old(out)@ + crate::codec::enc_items(tail, food_enc_fn()));
            }
        }
    }
}

pub fn write_food_list(xs: &Vec<Food>, out: &mut Vec<u8>)
    ensures
        final(out)@ == old(out)@ + enc_list(xs.deep_view(), food_enc_fn()),
{
    out.push(LBRACKET);
    write_food_items(xs, 0, out);
    out.push(RBRACKET);
    proof {
        assert(xs.deep_view().skip(0) =~= xs.deep_view());
        assert(out@ =~= old(out)@ + enc_list(xs.deep_view(), food_enc_fn()));
    }
}

fn parse_food_items(s: &Vec<u8>, i: usize) -> (r: Option<(Vec<Food>, usize)>)
    requires
        i <= s@.len(),
    ensures
        match r {
            Some((v, j)) => crate::codec::sp_items(s@, i as int, food_parse_fn()) == Some(
                (v.deep_view(), j as int),
            ) && i < j <= s@.len(),
            None => crate::codec::sp_items(s@, i as int, food_parse_fn()) is None,
        },
    decreases s@.len() - i,
{
    proof {
        assert(food_parse_fn()(s@, i as int) == sp_food(s@, i as int));
    }
    match Food::parse_at(s, i) {
        None => None,
        Some((x, j)) => {
            if j < s.len() && s[j] == COMMA {
                match parse_food_items(s, j + 1) {
                    None => None,
                    Some((tail, k)) => {
                        let ghost taildv = tail.deep_view();
                        let mut v: Vec<Food> = Vec::new();
                        v.push(x);
                        let mut t = tail;
                        v.append(&mut t);
                        proof {
                            assert(v.deep_view() =~~= seq![x@] + taildv);
                        }
                        Some((v, k))
                    },
                }
            } else if j < s.len() && s[j] == RBRACKET {
                let mut v: Vec<Food> = Vec::new();
                v.push(x);
                proof {
                    assert(v.deep_view() =~~= seq![x@]);
                }
                Some((v, j + 1))
            } else {
                None
            }
        },
    }
}

pub fn parse_food_list(s: &Vec<u8>, i: usize) -> (r: Option<(Vec<Food>, usize)>)
    requires
        i <= s@.len(),
    ensures
        match r {
            Some((v, j)) => sp_list(s@, i as int, food_parse_fn()) == Some(
                (v.deep_view(), j as int),
            ) && i < j <= s@.len(),
            None => sp_list(s@, i as int, food_parse_fn()) is None,
        },
{
    if i >= s.len() {
        return None;
    }
    if i + 1 < s.len() && s[i] == LBRACKET {
        if s[i + 1] == RBRACKET {
            let v: Vec<Food> = Vec::new();
            proof {
                assert(v.deep_view() =~= Seq::<FoodView>::empty());
            }
            Some((v, i + 2))
        } else {
            parse_food_items(s, i + 1)
        }
    } else {
        None
    }
}


// -------------------------------------------------------------------------
// cached food searches
// -------------------------------------------------------------------------
/// A cached food search: the query string and the foods it returned.
#[derive(Debug, Clone, PartialEq, Eq)]
pub struct FoodSearchResult {
    pub products: Vec<Food>,
    pub query: Vec<u8>,
}

pub struct FoodSearchResultView {
    pub products: Seq<FoodView>,
    pub query: Seq<u8>,
}

impl DeepView for FoodSearchResult {
    type V = FoodSearchResultView;

    open spec fn deep_view(&self) -> FoodSearchResultView {
        self@
    }
}

impl View for FoodSearchResult {
    type V = FoodSearchResultView;

    open spec fn view(&self) -> FoodSearchResultView {
        FoodSearchResultView { products: self.products.deep_view(), query: self.query@ }
    }
}

#[verifier::opaque]
pub open spec fn enc_food_search(r: FoodSearchResultView) -> Seq<u8> {
    s2b("{\"products\":"@) + enc_list(r.products, food_enc_fn()) + s2b(",\"query\":"@) + enc_str(
        r.query,
    ) + seq![RBRACE]
}

#[verifier::opaque]
pub open spec fn sp_food_search(s: Seq<u8>, i: int) -> Option<(FoodSearchResultView, int)> {
    match sp_lit(s, i, s2b("{\"products\":"@)) {
        None => None,
        Some(j1) => match sp_list(s, j1, food_parse_fn()) {
            None => None,
            Some((products, j2)) => match sp_lit(s, j2, s2b(",\"query\":"@)) {
                None => None,
                Some(j3) => match sp_str(s, j3) {
                    None => None,
                    Some((query, j4)) => match sp_lit(s, j4, seq![RBRACE]) {
                        None => None,
                        Some(j5) => Some((FoodSearchResultView { products, query }, j5)),
                    },
                },
            },
        },
    }
}

pub open spec fn dec_food_search(s: Seq<u8>) -> Option<FoodSearchResultView> {
    match sp_food_search(s, 0) {
        Some((r, j)) => {
            if j == s.len() {
                Some(r)
            } else {
                None
            }
        },
        None => None,
    }
}

#[verifier::rlimit(100)]
pub proof fn lemma_sp_food_search_inverts(
    s: Seq<u8>,
    pre: Seq<u8>,
    r: FoodSearchResultView,
    rest: Seq<u8>,
)
    requires
        s == pre + enc_food_search(r) + rest,
    ensures
        sp_food_search(s, pre.len() as int) == Some::<(FoodSearchResultView, int)>(
            (r, pre.len() as int + enc_food_search(r).len()),
        ),
{
    reveal(enc_food_search);
    reveal(sp_food_search);
    let l1 = s2b("{\"products\":"@);
    let l2 = s2b(",\"query\":"@);
    reveal_strlit(",\"query\":");
    let el = enc_list(r.products, food_enc_fn());
    let t4 = seq![RBRACE] + rest;
    let t3 = enc_str(r.query) + t4;
    let t2 = l2 + t3;
    let t1 = el + t2;
    lemma_concat_associative(l1, el, t2);
    let q1 = l1 + el;
    lemma_concat_associative(q1, l2, t3);
    let q2 = q1 + l2;
    lemma_concat_associative(q2, enc_str(r.query), t4);
    let q3 = q2 + enc_str(r.query);
    lemma_concat_associative(q3, seq![RBRACE], rest);
    lemma_concat_associative(pre, enc_food_search(r), rest);
    assert(l1 + t1 == enc_food_search(r) + rest);
    assert(s == pre + (l1 + t1));
    lemma_step_lit(s, pre, l1, t1);
    let p1 = pre + l1;
    lemma_concat_associative(p1, el, t2);
    lemma_food_parser_inverts();
    lemma_sp_list_inverts(s, p1, r.products, t2, food_enc_fn(), food_parse_fn());
    let p2 = p1 + el;
    lemma_step_lit(s, p2, l2, t3);
    let p3 = p2 + l2;
    lemma_step_str(s, p3, r.query, t4);
    let p4 = p3 + enc_str(r.query);
    lemma_step_lit(s, p4, seq![RBRACE], rest);
}

/// Decoding the written form of a cached food search returns it.
pub proof fn lemma_food_search_round_trip(r: FoodSearchResultView)
    ensures
        dec_food_search(enc_food_search(r)) == Some(r),
{
    let s = enc_food_search(r);
    assert(s =~= Seq::<u8>::empty() + enc_food_search(r) + Seq::<u8>::empty());
    lemma_sp_food_search_inverts(s, Seq::<u8>::empty(), r, Seq::<u8>::empty());
}

impl FoodSearchResult {
    /// The stored JSON form of this cached search.
    pub fn encode(&self) -> (r: Vec<u8>)
        ensures
            r@ == enc_food_search(self@),
    {
        let mut out: Vec<u8> = Vec::new();
        proof {
            reveal(enc_food_search);
            reveal_strlit("{\"products\":");
            reveal_strlit(",\"query\":");
        }
        write_lit("{\"products\":", &mut out);
        write_food_list(&self.products, &mut out);
        write_lit(",\"query\":", &mut out);
        write_str(&self.query, &mut out);
        out.push(RBRACE);
        proof {
            assert(out@ =~= enc_food_search(self@));
        }
        out
    }

    /// Reads a stored cached search; anything malformed reads as `None`.
    pub fn decode(s: &Vec<u8>) -> (r: Option<FoodSearchResult>)
        ensures
            match r {
                Some(v) => dec_food_search(s@) == Some(v@),
                None => dec_food_search(s@) is None,
            },
    {
        proof {
            reveal(sp_food_search);
            reveal_strlit("{\"products\":");
            reveal_strlit(",\"query\":");
        }
        let j1 = match parse_lit(s, 0, "{\"products\":") {
            Some(j) => j,
            None => {
                return None;
            },
        };
        let (products, j2) = match parse_food_list(s, j1) {
            Some(x) => x,
            None => {
                return None;
            },
        };
        let j3 = match parse_lit(s, j2, ",\"query\":") {
            Some(j) => j,
            None => {
                return None;
            },
        };
        let (query, j4) = match parse_str(s, j3) {
            Some(x) => x,
            None => {
                return None;
            },
        };
        if j4 < s.len() && s[j4] == RBRACE {
            proof {
                assert(s@.subrange(j4 as int, j4 + 1) =~= seq![RBRACE]);
                assert(sp_lit(s@, j4 as int, seq![RBRACE]) == Some(j4 + 1 as int));
            }
            if j4 + 1 == s.len() {
                Some(FoodSearchResult { products, query })
            } else {
                None
            }
        } else {
            proof {
                if j4 < s@.len() {
                    assert(s@.subrange(j4 as int, j4 + 1)[0] == s@[j4 as int]);
                }
            }
            None
        }
    }

    /// A fixed sample cached search.
    pub fn example() -> (r: FoodSearchResult)
        ensures
            r@.products == Seq::<FoodView>::empty(),
            r@.query == Seq::<u8>::empty(),
    {
        let r = FoodSearchResult { products: Vec::new(), query: Vec::new() };
        proof {
            assert(r.products.deep_view() =~= Seq::<FoodView>::empty());
        }
        r
    }
}

} // verus!
