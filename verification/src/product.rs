//! Products from the barcode food database. The upstream API reports each
//! nutrient amount either as a number or as a numeric string, so values are
//! a union of the two; a normalization step turns them into plain amounts.
use vstd::prelude::*;
use vstd::seq_lib::lemma_concat_associative;
use crate::bytes::s2b;
use crate::codec::{
    enc_str, sp_str, enc_amount, sp_amount, enc_opt, sp_opt, enc_list, sp_list, sp_lit, null_lit,
    enc_not_null, parser_inverts, enc_starts_clean, write_str, parse_str, write_amount,
    parse_amount, write_lit, parse_lit, lemma_sp_str_inverts, lemma_sp_lit_inverts,
    lemma_sp_amount_inverts, lemma_sp_list_inverts, lemma_null_lit, lemma_enc_u64_digits,
    lemma_step_lit, lemma_step_str, lemma_step_opt_str, enc_u64, is_digit, str_enc_fn,
    str_parse_fn, QUOTE, COMMA, DOT, LBRACE, RBRACE, LBRACKET, RBRACKET,
};

verus! {

/// A nutrient amount as the upstream API reports it: a number (held as
/// thousandths) or a free-form string.
#[derive(Debug, Clone, PartialEq, Eq)]
pub enum OpenFFValue {
    Num(u64),
    Str(Vec<u8>),
}

pub enum OpenFFValueView {
    Num(u64),
    Str(Seq<u8>),
}

impl View for OpenFFValue {
    type V = OpenFFValueView;

    open spec fn view(&self) -> OpenFFValueView {
        match self {
            OpenFFValue::Num(m) => OpenFFValueView::Num(*m),
            OpenFFValue::Str(t) => OpenFFValueView::Str(t@),
        }
    }
}

impl DeepView for OpenFFValue {
    type V = OpenFFValueView;

    open spec fn deep_view(&self) -> OpenFFValueView {
        self@
    }
}

/// The numeric reading of a value: a number reads as itself; a string
/// reads as a decimal if it is one in whole, else as zero.
pub open spec fn ffv_numeric(v: OpenFFValueView) -> u64 {
    match v {
        OpenFFValueView::Num(m) => m,
        OpenFFValueView::Str(t) => match sp_amount(t, 0) {
            Some((m, j)) => {
                if j == t.len() {
                    m
                } else {
                    0u64
                }
            },
            None => 0u64,
        },
    }
}

impl OpenFFValue {
    /// The numeric reading: unparseable text reads as zero.
    pub fn to_numerical(&self) -> (r: u64)
        ensures
            r == ffv_numeric(self@),
    {
        match self {
            OpenFFValue::Num(m) => *m,
            OpenFFValue::Str(t) => {
                match parse_amount(t, 0) {
                    Some((m, j)) => {
                        if j == t.len() {
                            m
                        } else {
                            0
                        }
                    },
                    None => 0,
                }
            },
        }
    }

    /// The numeric reading, or an error where the text is not a decimal.
    pub fn to_numerical_checked(&self) -> (r: Result<u64, ()>)
        ensures
            match self@ {
                OpenFFValueView::Num(m) => r == Ok::<u64, ()>(m),
                OpenFFValueView::Str(t) => match sp_amount(t, 0) {
                    Some((m, j)) => {
                        if j == t.len() {
                            r == Ok::<u64, ()>(m)
                        } else {
                            r == Err::<u64, ()>(())
                        }
                    },
                    None => r == Err::<u64, ()>(()),
                },
            },
    {
        match self {
            OpenFFValue::Num(m) => Ok(*m),
            OpenFFValue::Str(t) => {
                match parse_amount(t, 0) {
                    Some((m, j)) => {
                        if j == t.len() {
                            Ok(m)
                        } else {
                            Err(())
                        }
                    },
                    None => Err(()),
                }
            },
        }
    }
}

// -------------------------------------------------------------------------
// value codec: a number or a string
// -------------------------------------------------------------------------
pub open spec fn enc_ffv(v: OpenFFValueView) -> Seq<u8> {
    match v {
        OpenFFValueView::Num(m) => enc_amount(m as int),
        OpenFFValueView::Str(t) => enc_str(t),
    }
}

pub open spec fn sp_ffv(s: Seq<u8>, i: int) -> Option<(OpenFFValueView, int)> {
    if 0 <= i < s.len() && s[i] == QUOTE {
        match sp_str(s, i) {
            Some((t, j)) => Some((OpenFFValueView::Str(t), j)),
            None => None,
        }
    } else {
        match sp_amount(s, i) {
            Some((m, j)) => Some((OpenFFValueView::Num(m), j)),
            None => None,
        }
    }
}

pub proof fn lemma_step_ffv(s: Seq<u8>, pre: Seq<u8>, v: OpenFFValueView, tail: Seq<u8>)
    requires
        s == pre + (enc_ffv(v) + tail),
        tail.len() == 0 || (!is_digit(tail[0]) && tail[0] != DOT),
    ensures
        sp_ffv(s, pre.len() as int) == Some::<(OpenFFValueView, int)>(
            (v, pre.len() as int + enc_ffv(v).len()),
        ),
        s == (pre + enc_ffv(v)) + tail,
{
    lemma_concat_associative(pre, enc_ffv(v), tail);
    let i = pre.len() as int;
    match v {
        OpenFFValueView::Num(m) => {
            lemma_enc_u64_digits((m / 1000) as int);
            assert(enc_amount(m as int)[0] == enc_u64((m / 1000) as int)[0]);
            assert(s[i] == enc_amount(m as int)[0]);
            assert(is_digit(s[i]));
            assert(s[i] != QUOTE);
            lemma_sp_amount_inverts(s, pre, m, tail);
        },
        OpenFFValueView::Str(t) => {
            assert(enc_str(t)[0] == QUOTE);
            assert(s[i] == QUOTE);
            lemma_sp_str_inverts(s, pre, t, tail);
        },
    }
}

/// Optional values: `null` or a value; a value never opens with `n`.
pub open spec fn ffv_enc_fn() -> spec_fn(OpenFFValueView) -> Seq<u8> {
    |v: OpenFFValueView| enc_ffv(v)
}

pub open spec fn ffv_parse_fn() -> spec_fn(Seq<u8>, int) -> Option<(OpenFFValueView, int)> {
    |s: Seq<u8>, i: int| sp_ffv(s, i)
}

pub proof fn lemma_step_opt_ffv(
    s: Seq<u8>,
    pre: Seq<u8>,
    o: Option<OpenFFValueView>,
    tail: Seq<u8>,
)
    requires
        s == pre + (enc_opt(o, ffv_enc_fn()) + tail),
        tail.len() == 0 || (!is_digit(tail[0]) && tail[0] != DOT),
    ensures
        sp_opt(s, pre.len() as int, ffv_parse_fn()) == Some::<(Option<OpenFFValueView>, int)>(
            (o, pre.len() as int + enc_opt(o, ffv_enc_fn()).len()),
        ),
        s == (pre + enc_opt(o, ffv_enc_fn())) + tail,
{
    lemma_concat_associative(pre, enc_opt(o, ffv_enc_fn()), tail);
    let i = pre.len() as int;
    lemma_null_lit();
    match o {
        None => {
            assert(s[i] == 110);
            lemma_sp_lit_inverts(s, pre, null_lit(), tail);
        },
        Some(v) => {
            lemma_step_ffv(s, pre, v, tail);
            match v {
                OpenFFValueView::Num(m) => {
                    lemma_enc_u64_digits((m / 1000) as int);
                    assert(enc_amount(m as int)[0] == enc_u64((m / 1000) as int)[0]);
                    assert(s[i] == enc_amount(m as int)[0]);
                    assert(is_digit(s[i]));
                    assert(s[i] != 110);
                },
                OpenFFValueView::Str(t) => {
                    assert(enc_str(t)[0] == QUOTE);
                    assert(s[i] == QUOTE);
                },
            }
        },
    }
}

fn write_ffv(v: &OpenFFValue, out: &mut Vec<u8>)
    ensures
        final(out)@ == old(out)@ + enc_ffv(v@),
{
    match v {
        OpenFFValue::Num(m) => {
            write_amount(*m, out);
        },
        OpenFFValue::Str(t) => {
            write_str(t, out);
        },
    }
}

fn parse_ffv(s: &Vec<u8>, i: usize) -> (r: Option<(OpenFFValue, usize)>)
    requires
        i <= s@.len(),
    ensures
        match r {
            Some((v, j)) => sp_ffv(s@, i as int) == Some((v@, j as int)) && i < j <= s@.len(),
            None => sp_ffv(s@, i as int) is None,
        },
{
    if i < s.len() && s[i] == QUOTE {
        match parse_str(s, i) {
            Some((t, j)) => Some((OpenFFValue::Str(t), j)),
            None => None,
        }
    } else {
        match parse_amount(s, i) {
            Some((m, j)) => Some((OpenFFValue::Num(m), j)),
            None => None,
        }
    }
}

fn write_opt_ffv(o: &Option<OpenFFValue>, out: &mut Vec<u8>)
    ensures
        final(out)@ == old(out)@ + enc_opt(o.deep_view(), ffv_enc_fn()),
{
    proof {
        reveal_strlit("null");
    }
    match o {
        None => {
            write_lit("null", out);
            proof {
                let ov: Option<OpenFFValueView> = o.deep_view();
                assert(ov is None);
            }
        },
        Some(v) => {
            write_ffv(v, out);
            proof {
                assert(o.deep_view() == Some(v@));
            }
        },
    }
}

fn parse_opt_ffv(s: &Vec<u8>, i: usize) -> (r: Option<(Option<OpenFFValue>, usize)>)
    requires
        i <= s@.len(),
    ensures
        match r {
            Some((o, j)) => sp_opt(s@, i as int, ffv_parse_fn()) == Some(
                (o.deep_view(), j as int),
            ) && i < j <= s@.len(),
            None => sp_opt(s@, i as int, ffv_parse_fn()) is None,
        },
{
    proof {
        reveal_strlit("null");
        assert(ffv_parse_fn()(s@, i as int) == sp_ffv(s@, i as int));
    }
    if i < s.len() && s[i] == 110 {
        match parse_lit(s, i, "null") {
            Some(j) => {
                proof {
                    assert(j > i) by {
                        assert(s2b("null"@).len() == 4);
                    }
                    let o: Option<OpenFFValue> = None;
                    assert(o.deep_view() is None);
                }
                Some((None, j))
            },
            None => None,
        }
    } else {
        match parse_ffv(s, i) {
            Some((v, j)) => {
                proof {
                    let o: Option<OpenFFValue> = Some(v);
                    assert(o.deep_view() == Some(v@));
                }
                Some((Some(v), j))
            },
            None => None,
        }
    }
}


// -------------------------------------------------------------------------
// nutriments: the eight per-100g fields as reported upstream
// -------------------------------------------------------------------------
/// The per-100g nutrient facts of a product; every field may be absent and
/// every present field may be a number or a numeric string.
#[derive(Debug, Clone, PartialEq, Eq)]
pub struct Nutriments {
    pub carbohydrates_100g: Option<OpenFFValue>,
    pub sugars_100g: Option<OpenFFValue>,
    pub proteins_100g: Option<OpenFFValue>,
    pub fat_100g: Option<OpenFFValue>,
    pub energy_kcal_100g: Option<OpenFFValue>,
    pub fiber_100g: Option<OpenFFValue>,
    pub salt_100g: Option<OpenFFValue>,
    pub sodium_100g: Option<OpenFFValue>,
}

pub struct NutrimentsView {
    pub carbohydrates_100g: Option<OpenFFValueView>,
    pub sugars_100g: Option<OpenFFValueView>,
    pub proteins_100g: Option<OpenFFValueView>,
    pub fat_100g: Option<OpenFFValueView>,
    pub energy_kcal_100g: Option<OpenFFValueView>,
    pub fiber_100g: Option<OpenFFValueView>,
    pub salt_100g: Option<OpenFFValueView>,
    pub sodium_100g: Option<OpenFFValueView>,
}

impl View for Nutriments {
    type V = NutrimentsView;

    open spec fn view(&self) -> NutrimentsView {
        NutrimentsView {
            carbohydrates_100g: self.carbohydrates_100g.deep_view(),
            sugars_100g: self.sugars_100g.deep_view(),
            proteins_100g: self.proteins_100g.deep_view(),
            fat_100g: self.fat_100g.deep_view(),
            energy_kcal_100g: self.energy_kcal_100g.deep_view(),
            fiber_100g: self.fiber_100g.deep_view(),
            salt_100g: self.salt_100g.deep_view(),
            sodium_100g: self.sodium_100g.deep_view(),
        }
    }
}

impl Nutriments {
    /// All eight fields present and zero.
    pub fn zeroed() -> (r: Nutriments)
        ensures
            r@.carbohydrates_100g == Some(OpenFFValueView::Num(0u64)),
            r@.sugars_100g == Some(OpenFFValueView::Num(0u64)),
            r@.proteins_100g == Some(OpenFFValueView::Num(0u64)),
            r@.fat_100g == Some(OpenFFValueView::Num(0u64)),
            r@.energy_kcal_100g == Some(OpenFFValueView::Num(0u64)),
            r@.fiber_100g == Some(OpenFFValueView::Num(0u64)),
            r@.salt_100g == Some(OpenFFValueView::Num(0u64)),
            r@.sodium_100g == Some(OpenFFValueView::Num(0u64)),
    {
        Nutriments {
            carbohydrates_100g: Some(OpenFFValue::Num(0)),
            sugars_100g: Some(OpenFFValue::Num(0)),
            proteins_100g: Some(OpenFFValue::Num(0)),
            fat_100g: Some(OpenFFValue::Num(0)),
            energy_kcal_100g: Some(OpenFFValue::Num(0)),
            fiber_100g: Some(OpenFFValue::Num(0)),
            salt_100g: Some(OpenFFValue::Num(0)),
            sodium_100g: Some(OpenFFValue::Num(0)),
        }
    }
}

impl Default for Nutriments {
    fn default() -> (r: Nutriments)
        ensures
            r@.carbohydrates_100g == Some(OpenFFValueView::Num(0u64)),
            r@.energy_kcal_100g == Some(OpenFFValueView::Num(0u64)),
    {
        Nutriments::zeroed()
    }
}

#[verifier::opaque]
pub open spec fn enc_nutriments(n: NutrimentsView) -> Seq<u8> {
    s2b("{\"carbohydrates_100g\":"@) + enc_opt(n.carbohydrates_100g, ffv_enc_fn()) + s2b(
        ",\"sugars_100g\":"@,
    ) + enc_opt(n.sugars_100g, ffv_enc_fn()) + s2b(",\"proteins_100g\":"@) + enc_opt(
        n.proteins_100g,
        ffv_enc_fn(),
    ) + s2b(",\"fat_100g\":"@) + enc_opt(n.fat_100g, ffv_enc_fn()) + s2b(
        ",\"energy_kcal_100g\":"@,
    ) + enc_opt(n.energy_kcal_100g, ffv_enc_fn()) + s2b(",\"fiber_100g\":"@) + enc_opt(
        n.fiber_100g,
        ffv_enc_fn(),
    ) + s2b(",\"salt_100g\":"@) + enc_opt(n.salt_100g, ffv_enc_fn()) + s2b(",\"sodium_100g\":"@)
        + enc_opt(n.sodium_100g, ffv_enc_fn()) + seq![RBRACE]
}

/// Reads the energy key: the canonical underscore spelling or the upstream
/// dash spelling.
pub open spec fn sp_energy_key(s: Seq<u8>, i: int) -> Option<int> {
    match sp_lit(s, i, s2b(",\"energy_kcal_100g\":"@)) {
        Some(j) => Some(j),
        None => sp_lit(s, i, s2b(",\"energy-kcal_100g\":"@)),
    }
}

/// Reads the last four fields and the closing brace.
pub open spec fn sp_nutriments_tail(s: Seq<u8>, i: int) -> Option<
    ((Option<OpenFFValueView>, Option<OpenFFValueView>, Option<OpenFFValueView>, Option<
        OpenFFValueView,
    >), int),
> {
    match sp_energy_key(s, i) {
        None => None,
        Some(j9) => match sp_opt(s, j9, ffv_parse_fn()) {
            None => None,
            Some((energy_kcal_100g, j10)) => match sp_lit(s, j10, s2b(",\"fiber_100g\":"@)) {
                None => None,
                Some(j11) => match sp_opt(s, j11, ffv_parse_fn()) {
                    None => None,
                    Some((fiber_100g, j12)) => match sp_lit(s, j12, s2b(",\"salt_100g\":"@)) {
                        None => None,
                        Some(j13) => match sp_opt(s, j13, ffv_parse_fn()) {
                            None => None,
                            Some((salt_100g, j14)) => match sp_lit(
                                s,
                                j14,
                                s2b(",\"sodium_100g\":"@),
                            ) {
                                None => None,
                                Some(j15) => match sp_opt(s, j15, ffv_parse_fn()) {
                                    None => None,
                                    Some((sodium_100g, j16)) => match sp_lit(
                                        s,
                                        j16,
                                        seq![RBRACE],
                                    ) {
                                        None => None,
                                        Some(j17) => Some(
                                            (
                                                (
                                                    energy_kcal_100g,
                                                    fiber_100g,
                                                    salt_100g,
                                                    sodium_100g,
                                                ),
                                                j17,
                                            ),
                                        ),
                                    },
                                },
                            },
                        },
                    },
                },
            },
        },
    }
}

#[verifier::opaque]
pub open spec fn sp_nutriments(s: Seq<u8>, i: int) -> Option<(NutrimentsView, int)> {
    match sp_lit(s, i, s2b("{\"carbohydrates_100g\":"@)) {
        None => None,
        Some(j1) => match sp_opt(s, j1, ffv_parse_fn()) {
            None => None,
            Some((carbohydrates_100g, j2)) => match sp_lit(s, j2, s2b(",\"sugars_100g\":"@)) {
                None => None,
                Some(j3) => match sp_opt(s, j3, ffv_parse_fn()) {
                    None => None,
                    Some((sugars_100g, j4)) => match sp_lit(s, j4, s2b(",\"proteins_100g\":"@)) {
                        None => None,
                        Some(j5) => match sp_opt(s, j5, ffv_parse_fn()) {
                            None => None,
                            Some((proteins_100g, j6)) => match sp_lit(
                                s,
                                j6,
                                s2b(",\"fat_100g\":"@),
                            ) {
                                None => None,
                                Some(j7) => match sp_opt(s, j7, ffv_parse_fn()) {
                                    None => None,
                                    Some((fat_100g, j8)) => match sp_nutriments_tail(s, j8) {
                                        None => None,
                                        Some(
                                            (
                                                (
                                                    energy_kcal_100g,
                                                    fiber_100g,
                                                    salt_100g,
                                                    sodium_100g,
                                                ),
                                                j17,
                                            ),
                                        ) => Some(
                                            (
                                                NutrimentsView {
                                                    carbohydrates_100g,
                                                    sugars_100g,
                                                    proteins_100g,
                                                    fat_100g,
                                                    energy_kcal_100g,
                                                    fiber_100g,
                                                    salt_100g,
                                                    sodium_100g,
                                                },
                                                j17,
                                            ),
                                        ),
                                    },
                                },
                            },
                        },
                    },
                },
            },
        },
    }
}

#[verifier::rlimit(100)]
#[verifier::spinoff_prover]
proof fn lemma_sp_nutriments_tail_inverts(
    s: Seq<u8>,
    pre8: Seq<u8>,
    n: NutrimentsView,
    rest: Seq<u8>,
    tail: Seq<u8>,
)
    requires
        tail == s2b(",\"energy_kcal_100g\":"@) + (enc_opt(n.energy_kcal_100g, ffv_enc_fn()) + (s2b(
            ",\"fiber_100g\":"@,
        ) + (enc_opt(n.fiber_100g, ffv_enc_fn()) + (s2b(",\"salt_100g\":"@) + (enc_opt(
            n.salt_100g,
            ffv_enc_fn(),
        ) + (s2b(",\"sodium_100g\":"@) + (enc_opt(n.sodium_100g, ffv_enc_fn()) + (seq![RBRACE]
            + rest)))))))),
        s == pre8 + tail,
    ensures
        sp_nutriments_tail(s, pre8.len() as int) == Some(
            (
                (n.energy_kcal_100g, n.fiber_100g, n.salt_100g, n.sodium_100g),
                pre8.len() + tail.len() - rest.len(),
            ),
        ),
{
    let l5 = s2b(",\"energy_kcal_100g\":"@);
    let l6 = s2b(",\"fiber_100g\":"@);
    let l7 = s2b(",\"salt_100g\":"@);
    let l8 = s2b(",\"sodium_100g\":"@);
    reveal_strlit(",\"energy_kcal_100g\":");
    reveal_strlit(",\"fiber_100g\":");
    reveal_strlit(",\"salt_100g\":");
    reveal_strlit(",\"sodium_100g\":");
    let t16 = seq![RBRACE] + rest;
    let t15 = enc_opt(n.sodium_100g, ffv_enc_fn()) + t16;
    let t14 = l8 + t15;
    let t13 = enc_opt(n.salt_100g, ffv_enc_fn()) + t14;
    let t12 = l7 + t13;
    let t11 = enc_opt(n.fiber_100g, ffv_enc_fn()) + t12;
    let t10 = l6 + t11;
    let t9 = enc_opt(n.energy_kcal_100g, ffv_enc_fn()) + t10;
    lemma_step_lit(s, pre8, l5, t9);
    let p9 = pre8 + l5;
    assert(t10[0] == (',' as u8));
    lemma_step_opt_ffv(s, p9, n.energy_kcal_100g, t10);
    let p10 = p9 + enc_opt(n.energy_kcal_100g, ffv_enc_fn());
    lemma_step_lit(s, p10, l6, t11);
    let p11 = p10 + l6;
    assert(t12[0] == (',' as u8));
    lemma_step_opt_ffv(s, p11, n.fiber_100g, t12);
    let p12 = p11 + enc_opt(n.fiber_100g, ffv_enc_fn());
    lemma_step_lit(s, p12, l7, t13);
    let p13 = p12 + l7;
    assert(t14[0] == (',' as u8));
    lemma_step_opt_ffv(s, p13, n.salt_100g, t14);
    let p14 = p13 + enc_opt(n.salt_100g, ffv_enc_fn());
    lemma_step_lit(s, p14, l8, t15);
    let p15 = p14 + l8;
    assert(t16[0] == RBRACE);
    lemma_step_opt_ffv(s, p15, n.sodium_100g, t16);
    let p16 = p15 + enc_opt(n.sodium_100g, ffv_enc_fn());
    lemma_step_lit(s, p16, seq![RBRACE], rest);
    assert(sp_energy_key(s, pre8.len() as int) == Some(p9.len() as int));
}

#[verifier::rlimit(100)]
pub proof fn lemma_sp_nutriments_inverts(
    s: Seq<u8>,
    pre: Seq<u8>,
    n: NutrimentsView,
    rest: Seq<u8>,
)
    requires
        s == pre + enc_nutriments(n) + rest,
    ensures
        sp_nutriments(s, pre.len() as int) == Some::<(NutrimentsView, int)>(
            (n, pre.len() as int + enc_nutriments(n).len()),
        ),
{
    reveal(enc_nutriments);
    reveal(sp_nutriments);
    let l1 = s2b("{\"carbohydrates_100g\":"@);
    let l2 = s2b(",\"sugars_100g\":"@);
    let l3 = s2b(",\"proteins_100g\":"@);
    let l4 = s2b(",\"fat_100g\":"@);
    let l5 = s2b(",\"energy_kcal_100g\":"@);
    let l6 = s2b(",\"fiber_100g\":"@);
    let l7 = s2b(",\"salt_100g\":"@);
    let l8 = s2b(",\"sodium_100g\":"@);
    reveal_strlit(",\"sugars_100g\":");
    reveal_strlit(",\"proteins_100g\":");
    reveal_strlit(",\"fat_100g\":");
    reveal_strlit(",\"energy_kcal_100g\":");
    let t16 = seq![RBRACE] + rest;
    let t15 = enc_opt(n.sodium_100g, ffv_enc_fn()) + t16;
    let t14 = l8 + t15;
    let t13 = enc_opt(n.salt_100g, ffv_enc_fn()) + t14;
    let t12 = l7 + t13;
    let t11 = enc_opt(n.fiber_100g, ffv_enc_fn()) + t12;
    let t10 = l6 + t11;
    let t9 = enc_opt(n.energy_kcal_100g, ffv_enc_fn()) + t10;
    let t8 = l5 + t9;
    let t7 = enc_opt(n.fat_100g, ffv_enc_fn()) + t8;
    let t6 = l4 + t7;
    let t5 = enc_opt(n.proteins_100g, ffv_enc_fn()) + t6;
    let t4 = l3 + t5;
    let t3 = enc_opt(n.sugars_100g, ffv_enc_fn()) + t4;
    let t2 = l2 + t3;
    let t1 = enc_opt(n.carbohydrates_100g, ffv_enc_fn()) + t2;
    lemma_concat_associative(l1, enc_opt(n.carbohydrates_100g, ffv_enc_fn()), t2);
    let q1 = l1 + enc_opt(n.carbohydrates_100g, ffv_enc_fn());
    lemma_concat_associative(q1, l2, t3);
    let q2 = q1 + l2;
    lemma_concat_associative(q2, enc_opt(n.sugars_100g, ffv_enc_fn()), t4);
    let q3 = q2 + enc_opt(n.sugars_100g, ffv_enc_fn());
    lemma_concat_associative(q3, l3, t5);
    let q4 = q3 + l3;
    lemma_concat_associative(q4, enc_opt(n.proteins_100g, ffv_enc_fn()), t6);
    let q5 = q4 + enc_opt(n.proteins_100g, ffv_enc_fn());
    lemma_concat_associative(q5, l4, t7);
    let q6 = q5 + l4;
    lemma_concat_associative(q6, enc_opt(n.fat_100g, ffv_enc_fn()), t8);
    let q7 = q6 + enc_opt(n.fat_100g, ffv_enc_fn());
    lemma_concat_associative(q7, l5, t9);
    let q8 = q7 + l5;
    lemma_concat_associative(q8, enc_opt(n.energy_kcal_100g, ffv_enc_fn()), t10);
    let q9 = q8 + enc_opt(n.energy_kcal_100g, ffv_enc_fn());
    lemma_concat_associative(q9, l6, t11);
    let q10 = q9 + l6;
    lemma_concat_associative(q10, enc_opt(n.fiber_100g, ffv_enc_fn()), t12);
    let q11 = q10 + enc_opt(n.fiber_100g, ffv_enc_fn());
    lemma_concat_associative(q11, l7, t13);
    let q12 = q11 + l7;
    lemma_concat_associative(q12, enc_opt(n.salt_100g, ffv_enc_fn()), t14);
    let q13 = q12 + enc_opt(n.salt_100g, ffv_enc_fn());
    lemma_concat_associative(q13, l8, t15);
    let q14 = q13 + l8;
    lemma_concat_associative(q14, enc_opt(n.sodium_100g, ffv_enc_fn()), t16);
    let q15 = q14 + enc_opt(n.sodium_100g, ffv_enc_fn());
    lemma_concat_associative(q15, seq![RBRACE], rest);
    lemma_concat_associative(pre, enc_nutriments(n), rest);
    assert(l1 + t1 == enc_nutriments(n) + rest);
    assert(s == pre + (l1 + t1));
    lemma_step_lit(s, pre, l1, t1);
    let p1 = pre + l1;
    assert(t2[0] == (',' as u8));
    lemma_step_opt_ffv(s, p1, n.carbohydrates_100g, t2);
    let p2 = p1 + enc_opt(n.carbohydrates_100g, ffv_enc_fn());
    lemma_step_lit(s, p2, l2, t3);
    let p3 = p2 + l2;
    assert(t4[0] == (',' as u8));
    lemma_step_opt_ffv(s, p3, n.sugars_100g, t4);
    let p4 = p3 + enc_opt(n.sugars_100g, ffv_enc_fn());
    lemma_step_lit(s, p4, l3, t5);
    let p5 = p4 + l3;
    assert(t6[0] == (',' as u8));
    lemma_step_opt_ffv(s, p5, n.proteins_100g, t6);
    let p6 = p5 + enc_opt(n.proteins_100g, ffv_enc_fn());
    lemma_step_lit(s, p6, l4, t7);
    let p7 = p6 + l4;
    assert(t8[0] == (',' as u8));
    lemma_step_opt_ffv(s, p7, n.fat_100g, t8);
    let p8 = p7 + enc_opt(n.fat_100g, ffv_enc_fn());
    lemma_sp_nutriments_tail_inverts(s, p8, n, rest, t8);
    assert(pre.len() + enc_nutriments(n).len() == p8.len() + t8.len() - rest.len());
}

fn write_nutriments(n: &Nutriments, out: &mut Vec<u8>)
    ensures
        final(out)@ == old(out)@ + enc_nutriments(n@),
{
    proof {
        reveal(enc_nutriments);
        reveal_strlit("{\"carbohydrates_100g\":");
        reveal_strlit(",\"sugars_100g\":");
        reveal_strlit(",\"proteins_100g\":");
        reveal_strlit(",\"fat_100g\":");
        reveal_strlit(",\"energy_kcal_100g\":");
        reveal_strlit(",\"fiber_100g\":");
        reveal_strlit(",\"salt_100g\":");
        reveal_strlit(",\"sodium_100g\":");
    }
    write_lit("{\"carbohydrates_100g\":", out);
    write_opt_ffv(&n.carbohydrates_100g, out);
    write_lit(",\"sugars_100g\":", out);
    write_opt_ffv(&n.sugars_100g, out);
    write_lit(",\"proteins_100g\":", out);
    write_opt_ffv(&n.proteins_100g, out);
    write_lit(",\"fat_100g\":", out);
    write_opt_ffv(&n.fat_100g, out);
    write_lit(",\"energy_kcal_100g\":", out);
    write_opt_ffv(&n.energy_kcal_100g, out);
    write_lit(",\"fiber_100g\":", out);
    write_opt_ffv(&n.fiber_100g, out);
    write_lit(",\"salt_100g\":", out);
    write_opt_ffv(&n.salt_100g, out);
    write_lit(",\"sodium_100g\":", out);
    write_opt_ffv(&n.sodium_100g, out);
    out.push(RBRACE);
    proof {
        let o = old(out)@;
        let l1 = s2b("{\"carbohydrates_100g\":"@);
        let l2 = s2b(",\"sugars_100g\":"@);
        let l3 = s2b(",\"proteins_100g\":"@);
        let l4 = s2b(",\"fat_100g\":"@);
        let l5 = s2b(",\"energy_kcal_100g\":"@);
        let l6 = s2b(",\"fiber_100g\":"@);
        let l7 = s2b(",\"salt_100g\":"@);
        let l8 = s2b(",\"sodium_100g\":"@);
        let e1 = l1;
        lemma_concat_associative(o, e1, enc_opt(n@.carbohydrates_100g, ffv_enc_fn()));
        let e2 = e1 + enc_opt(n@.carbohydrates_100g, ffv_enc_fn());
        lemma_concat_associative(o, e2, l2);
        let e3 = e2 + l2;
        lemma_concat_associative(o, e3, enc_opt(n@.sugars_100g, ffv_enc_fn()));
        let e4 = e3 + enc_opt(n@.sugars_100g, ffv_enc_fn());
        lemma_concat_associative(o, e4, l3);
        let e5 = e4 + l3;
        lemma_concat_associative(o, e5, enc_opt(n@.proteins_100g, ffv_enc_fn()));
        let e6 = e5 + enc_opt(n@.proteins_100g, ffv_enc_fn());
        lemma_concat_associative(o, e6, l4);
        let e7 = e6 + l4;
        lemma_concat_associative(o, e7, enc_opt(n@.fat_100g, ffv_enc_fn()));
        let e8 = e7 + enc_opt(n@.fat_100g, ffv_enc_fn());
        lemma_concat_associative(o, e8, l5);
        let e9 = e8 + l5;
        lemma_concat_associative(o, e9, enc_opt(n@.energy_kcal_100g, ffv_enc_fn()));
        let e10 = e9 + enc_opt(n@.energy_kcal_100g, ffv_enc_fn());
        lemma_concat_associative(o, e10, l6);
        let e11 = e10 + l6;
        lemma_concat_associative(o, e11, enc_opt(n@.fiber_100g, ffv_enc_fn()));
        let e12 = e11 + enc_opt(n@.fiber_100g, ffv_enc_fn());
        lemma_concat_associative(o, e12, l7);
        let e13 = e12 + l7;
        lemma_concat_associative(o, e13, enc_opt(n@.salt_100g, ffv_enc_fn()));
        let e14 = e13 + enc_opt(n@.salt_100g, ffv_enc_fn());
        lemma_concat_associative(o, e14, l8);
        let e15 = e14 + l8;
        lemma_concat_associative(o, e15, enc_opt(n@.sodium_100g, ffv_enc_fn()));
        let e16 = e15 + enc_opt(n@.sodium_100g, ffv_enc_fn());
        lemma_concat_associative(o, e16, seq![RBRACE]);
        assert(out@ == o + enc_nutriments(n@));
    }
}

#[verifier::rlimit(100)]
#[verifier::spinoff_prover]
fn parse_nutriments_tail(s: &Vec<u8>, i: usize) -> (r: Option<
    ((Option<OpenFFValue>, Option<OpenFFValue>, Option<OpenFFValue>, Option<OpenFFValue>), usize),
>)
    requires
        i <= s@.len(),
    ensures
        match r {
            Some(((energy, fiber, salt, sodium), j)) => sp_nutriments_tail(s@, i as int) == Some(
                (
                    (energy.deep_view(), fiber.deep_view(), salt.deep_view(), sodium.deep_view()),
                    j as int,
                ),
            ) && i < j <= s@.len(),
            None => sp_nutriments_tail(s@, i as int) is None,
        },
{
    proof {
        reveal_strlit(",\"energy_kcal_100g\":");
        reveal_strlit(",\"energy-kcal_100g\":");
        reveal_strlit(",\"fiber_100g\":");
        reveal_strlit(",\"salt_100g\":");
        reveal_strlit(",\"sodium_100g\":");
    }
    let j9 = match parse_lit(s, i, ",\"energy_kcal_100g\":") {
        Some(j) => j,
        None => match parse_lit(s, i, ",\"energy-kcal_100g\":") {
            Some(j) => j,
            None => {
                return None;
            },
        },
    };
    let (energy, j10) = match parse_opt_ffv(s, j9) {
        Some(x) => x,
        None => {
            return None;
        },
    };
    let j11 = match parse_lit(s, j10, ",\"fiber_100g\":") {
        Some(j) => j,
        None => {
            return None;
        },
    };
    let (fiber, j12) = match parse_opt_ffv(s, j11) {
        Some(x) => x,
        None => {
            return None;
        },
    };
    let j13 = match parse_lit(s, j12, ",\"salt_100g\":") {
        Some(j) => j,
        None => {
            return None;
        },
    };
    let (salt, j14) = match parse_opt_ffv(s, j13) {
        Some(x) => x,
        None => {
            return None;
        },
    };
    let j15 = match parse_lit(s, j14, ",\"sodium_100g\":") {
        Some(j) => j,
        None => {
            return None;
        },
    };
    let (sodium, j16) = match parse_opt_ffv(s, j15) {
        Some(x) => x,
        None => {
            return None;
        },
    };
    if j16 < s.len() && s[j16] == RBRACE {
        proof {
            assert(s@.subrange(j16 as int, j16 + 1) =~= seq![RBRACE]);
            assert(sp_lit(s@, j16 as int, seq![RBRACE]) == Some(j16 + 1 as int));
        }
        Some(((energy, fiber, salt, sodium), j16 + 1))
    } else {
        proof {
            if j16 < s@.len() {
                assert(s@.subrange(j16 as int, j16 + 1)[0] == s@[j16 as int]);
            }
        }
        None
    }
}

#[verifier::rlimit(100)]
#[verifier::spinoff_prover]
pub fn parse_nutriments(s: &Vec<u8>, i: usize) -> (r: Option<(Nutriments, usize)>)
    requires
        i <= s@.len(),
    ensures
        match r {
            Some((n, j)) => sp_nutriments(s@, i as int) == Some((n@, j as int)) && i < j
                <= s@.len(),
            None => sp_nutriments(s@, i as int) is None,
        },
{
    proof {
        reveal(sp_nutriments);
        reveal_strlit("{\"carbohydrates_100g\":");
        reveal_strlit(",\"sugars_100g\":");
        reveal_strlit(",\"proteins_100g\":");
        reveal_strlit(",\"fat_100g\":");
    }
    let j1 = match parse_lit(s, i, "{\"carbohydrates_100g\":") {
        Some(j) => j,
        None => {
            return None;
        },
    };
    let (carbohydrates_100g, j2) = match parse_opt_ffv(s, j1) {
        Some(x) => x,
        None => {
            return None;
        },
    };
    let j3 = match parse_lit(s, j2, ",\"sugars_100g\":") {
        Some(j) => j,
        None => {
            return None;
        },
    };
    let (sugars_100g, j4) = match parse_opt_ffv(s, j3) {
        Some(x) => x,
        None => {
            return None;
        },
    };
    let j5 = match parse_lit(s, j4, ",\"proteins_100g\":") {
        Some(j) => j,
        None => {
            return None;
        },
    };
    let (proteins_100g, j6) = match parse_opt_ffv(s, j5) {
        Some(x) => x,
        None => {
            return None;
        },
    };
    let j7 = match parse_lit(s, j6, ",\"fat_100g\":") {
        Some(j) => j,
        None => {
            return None;
        },
    };
    let (fat_100g, j8) = match parse_opt_ffv(s, j7) {
        Some(x) => x,
        None => {
            return None;
        },
    };
    match parse_nutriments_tail(s, j8) {
        Some(((energy_kcal_100g, fiber_100g, salt_100g, sodium_100g), j17)) => Some(
            (
                Nutriments {
                    carbohydrates_100g,
                    sugars_100g,
                    proteins_100g,
                    fat_100g,
                    energy_kcal_100g,
                    fiber_100g,
                    salt_100g,
                    sodium_100g,
                },
                j17,
            ),
        ),
        None => None,
    }
}


// -------------------------------------------------------------------------
// products
// -------------------------------------------------------------------------
/// A product as cached from the barcode database. A product without a
/// display name is kept but excluded from display and search.
#[derive(Debug, Clone, PartialEq, Eq)]
pub struct Product {
    pub code: Vec<u8>,
    pub nutrition_grades: Option<Vec<u8>>,
    pub product_name: Option<Vec<u8>>,
    pub nutriments: Option<Nutriments>,
}

pub struct ProductView {
    pub code: Seq<u8>,
    pub nutrition_grades: Option<Seq<u8>>,
    pub product_name: Option<Seq<u8>>,
    pub nutriments: Option<NutrimentsView>,
}

impl View for Product {
    type V = ProductView;

    open spec fn view(&self) -> ProductView {
        ProductView {
            code: self.code@,
            nutrition_grades: self.nutrition_grades.deep_view(),
            product_name: self.product_name.deep_view(),
            nutriments: match self.nutriments {
                Some(n) => Some(n@),
                None => None,
            },
        }
    }
}

impl DeepView for Product {
    type V = ProductView;

    open spec fn deep_view(&self) -> ProductView {
        self@
    }
}

pub open spec fn nutriments_enc_fn() -> spec_fn(NutrimentsView) -> Seq<u8> {
    |n: NutrimentsView| enc_nutriments(n)
}

pub open spec fn nutriments_parse_fn() -> spec_fn(Seq<u8>, int) -> Option<(NutrimentsView, int)> {
    |s: Seq<u8>, i: int| sp_nutriments(s, i)
}

proof fn lemma_step_opt_nutriments(
    s: Seq<u8>,
    pre: Seq<u8>,
    o: Option<NutrimentsView>,
    tail: Seq<u8>,
)
    requires
        s == pre + (enc_opt(o, nutriments_enc_fn()) + tail),
    ensures
        sp_opt(s, pre.len() as int, nutriments_parse_fn()) == Some::<
            (Option<NutrimentsView>, int),
        >((o, pre.len() as int + enc_opt(o, nutriments_enc_fn()).len())),
        s == (pre + enc_opt(o, nutriments_enc_fn())) + tail,
{
    lemma_concat_associative(pre, enc_opt(o, nutriments_enc_fn()), tail);
    let i = pre.len() as int;
    lemma_null_lit();
    match o {
        None => {
            assert(s[i] == 110);
            lemma_sp_lit_inverts(s, pre, null_lit(), tail);
        },
        Some(n) => {
            reveal(enc_nutriments);
            reveal_strlit("{\"carbohydrates_100g\":");
            assert(enc_nutriments(n)[0] == LBRACE);
            assert(s[i] == LBRACE);
            assert(s[i] != 110);
            lemma_sp_nutriments_inverts(s, pre, n, tail);
        },
    }
}

fn write_opt_nutriments(o: &Option<Nutriments>, out: &mut Vec<u8>)
    ensures
        final(out)@ == old(out)@ + enc_opt(
            match o {
                Some(n) => Some(n@),
                None => None,
            },
            nutriments_enc_fn(),
        ),
{
    proof {
        reveal_strlit("null");
    }
    match o {
        None => {
            write_lit("null", out);
        },
        Some(n) => {
            write_nutriments(n, out);
        },
    }
}

fn parse_opt_nutriments(s: &Vec<u8>, i: usize) -> (r: Option<(Option<Nutriments>, usize)>)
    requires
        i <= s@.len(),
    ensures
        match r {
            Some((o, j)) => sp_opt(s@, i as int, nutriments_parse_fn()) == Some(
                (
                    match o {
                        Some(n) => Some(n@),
                        None => None,
                    },
                    j as int,
                ),
            ) && i < j <= s@.len(),
            None => sp_opt(s@, i as int, nutriments_parse_fn()) is None,
        },
{
    proof {
        reveal_strlit("null");
        assert(nutriments_parse_fn()(s@, i as int) == sp_nutriments(s@, i as int));
    }
    if i < s.len() && s[i] == 110 {
        match parse_lit(s, i, "null") {
            Some(j) => {
                proof {
                    assert(j > i) by {
                        assert(s2b("null"@).len() == 4);
                    }
                }
                Some((None, j))
            },
            None => None,
        }
    } else {
        match parse_nutriments(s, i) {
            Some((n, j)) => Some((Some(n), j)),
            None => None,
        }
    }
}

#[verifier::opaque]
pub open spec fn enc_product(p: ProductView) -> Seq<u8> {
    s2b("{\"code\":"@) + enc_str(p.code) + s2b(",\"nutrition_grades\":"@) + enc_opt(
        p.nutrition_grades,
        str_enc_fn(),
    ) + s2b(",\"product_name\":"@) + enc_opt(p.product_name, str_enc_fn()) + s2b(
        ",\"nutriments\":"@,
    ) + enc_opt(p.nutriments, nutriments_enc_fn()) + seq![RBRACE]
}

#[verifier::opaque]
pub open spec fn sp_product(s: Seq<u8>, i: int) -> Option<(ProductView, int)> {
    match sp_lit(s, i, s2b("{\"code\":"@)) {
        None => None,
        Some(j1) => match sp_str(s, j1) {
            None => None,
            Some((code, j2)) => match sp_lit(s, j2, s2b(",\"nutrition_grades\":"@)) {
                None => None,
                Some(j3) => match sp_opt(s, j3, str_parse_fn()) {
                    None => None,
                    Some((nutrition_grades, j4)) => match sp_lit(
                        s,
                        j4,
                        s2b(",\"product_name\":"@),
                    ) {
                        None => None,
                        Some(j5) => match sp_opt(s, j5, str_parse_fn()) {
                            None => None,
                            Some((product_name, j6)) => match sp_lit(
                                s,
                                j6,
                                s2b(",\"nutriments\":"@),
                            ) {
                                None => None,
                                Some(j7) => match sp_opt(s, j7, nutriments_parse_fn()) {
                                    None => None,
                                    Some((nutriments, j8)) => match sp_lit(s, j8, seq![RBRACE]) {
                                        None => None,
                                        Some(j9) => Some(
                                            (
                                                ProductView {
                                                    code,
                                                    nutrition_grades,
                                                    product_name,
                                                    nutriments,
                                                },
                                                j9,
                                            ),
                                        ),
                                    },
                                },
                            },
                        },
                    },
                },
            },
        },
    }
}

pub open spec fn dec_product(s: Seq<u8>) -> Option<ProductView> {
    match sp_product(s, 0) {
        Some((p, j)) => {
            if j == s.len() {
                Some(p)
            } else {
                None
            }
        },
        None => None,
    }
}

#[verifier::rlimit(100)]
pub proof fn lemma_sp_product_inverts(s: Seq<u8>, pre: Seq<u8>, p: ProductView, rest: Seq<u8>)
    requires
        s == pre + enc_product(p) + rest,
    ensures
        sp_product(s, pre.len() as int) == Some::<(ProductView, int)>(
            (p, pre.len() as int + enc_product(p).len()),
        ),
{
    reveal(enc_product);
    reveal(sp_product);
    let l1 = s2b("{\"code\":"@);
    let l2 = s2b(",\"nutrition_grades\":"@);
    let l3 = s2b(",\"product_name\":"@);
    let l4 = s2b(",\"nutriments\":"@);
    reveal_strlit(",\"nutrition_grades\":");
    reveal_strlit(",\"product_name\":");
    reveal_strlit(",\"nutriments\":");
    let t8 = seq![RBRACE] + rest;
    let t7 = enc_opt(p.nutriments, nutriments_enc_fn()) + t8;
    let t6 = l4 + t7;
    let t5 = enc_opt(p.product_name, str_enc_fn()) + t6;
    let t4 = l3 + t5;
    let t3 = enc_opt(p.nutrition_grades, str_enc_fn()) + t4;
    let t2 = l2 + t3;
    let t1 = enc_str(p.code) + t2;
    lemma_concat_associative(l1, enc_str(p.code), t2);
    let q1 = l1 + enc_str(p.code);
    lemma_concat_associative(q1, l2, t3);
    let q2 = q1 + l2;
    lemma_concat_associative(q2, enc_opt(p.nutrition_grades, str_enc_fn()), t4);
    let q3 = q2 + enc_opt(p.nutrition_grades, str_enc_fn());
    lemma_concat_associative(q3, l3, t5);
    let q4 = q3 + l3;
    lemma_concat_associative(q4, enc_opt(p.product_name, str_enc_fn()), t6);
    let q5 = q4 + enc_opt(p.product_name, str_enc_fn());
    lemma_concat_associative(q5, l4, t7);
    let q6 = q5 + l4;
    lemma_concat_associative(q6, enc_opt(p.nutriments, nutriments_enc_fn()), t8);
    let q7 = q6 + enc_opt(p.nutriments, nutriments_enc_fn());
    lemma_concat_associative(q7, seq![RBRACE], rest);
    lemma_concat_associative(pre, enc_product(p), rest);
    assert(l1 + t1 == enc_product(p) + rest);
    assert(s == pre + (l1 + t1));
    lemma_step_lit(s, pre, l1, t1);
    let p1 = pre + l1;
    lemma_step_str(s, p1, p.code, t2);
    let p2 = p1 + enc_str(p.code);
    lemma_step_lit(s, p2, l2, t3);
    let p3 = p2 + l2;
    lemma_step_opt_str(s, p3, p.nutrition_grades, t4);
    let p4 = p3 + enc_opt(p.nutrition_grades, str_enc_fn());
    lemma_step_lit(s, p4, l3, t5);
    let p5 = p4 + l3;
    lemma_step_opt_str(s, p5, p.product_name, t6);
    let p6 = p5 + enc_opt(p.product_name, str_enc_fn());
    lemma_step_lit(s, p6, l4, t7);
    let p7 = p6 + l4;
    lemma_step_opt_nutriments(s, p7, p.nutriments, t8);
    let p8 = p7 + enc_opt(p.nutriments, nutriments_enc_fn());
    lemma_step_lit(s, p8, seq![RBRACE], rest);
}

/// Decoding the written form of a product returns that product.
pub proof fn lemma_product_round_trip(p: ProductView)
    ensures
        dec_product(enc_product(p)) == Some(p),
{
    let s = enc_product(p);
    assert(s =~= Seq::<u8>::empty() + enc_product(p) + Seq::<u8>::empty());
    lemma_sp_product_inverts(s, Seq::<u8>::empty(), p, Seq::<u8>::empty());
}

impl Product {
    /// The stored JSON form of this product.
    pub fn encode(&self) -> (r: Vec<u8>)
        ensures
            r@ == enc_product(self@),
    {
        let mut out: Vec<u8> = Vec::new();
        proof {
            reveal(enc_product);
            reveal_strlit("{\"code\":");
            reveal_strlit(",\"nutrition_grades\":");
            reveal_strlit(",\"product_name\":");
            reveal_strlit(",\"nutriments\":");
        }
        write_lit("{\"code\":", &mut out);
        write_str(&self.code, &mut out);
        write_lit(",\"nutrition_grades\":", &mut out);
        crate::codec::write_opt_str(&self.nutrition_grades, &mut out);
        write_lit(",\"product_name\":", &mut out);
        crate::codec::write_opt_str(&self.product_name, &mut out);
        write_lit(",\"nutriments\":", &mut out);
        write_opt_nutriments(&self.nutriments, &mut out);
        out.push(RBRACE);
        proof {
            assert(out@ =~= enc_product(self@));
        }
        out
    }

    /// Reads a product at `i`; mirrors `sp_product`.
    #[verifier::rlimit(100)]
    pub fn parse_at(s: &Vec<u8>, i: usize) -> (r: Option<(Product, usize)>)
        requires
            i <= s@.len(),
        ensures
            match r {
                Some((p, j)) => sp_product(s@, i as int) == Some((p@, j as int)) && i < j
                    <= s@.len(),
                None => sp_product(s@, i as int) is None,
            },
    {
        proof {
            reveal(sp_product);
            reveal_strlit("{\"code\":");
            reveal_strlit(",\"nutrition_grades\":");
            reveal_strlit(",\"product_name\":");
            reveal_strlit(",\"nutriments\":");
        }
        let j1 = match parse_lit(s, i, "{\"code\":") {
            Some(j) => j,
            None => {
                return None;
            },
        };
        let (code, j2) = match parse_str(s, j1) {
            Some(x) => x,
            None => {
                return None;
            },
        };
        let j3 = match parse_lit(s, j2, ",\"nutrition_grades\":") {
            Some(j) => j,
            None => {
                return None;
            },
        };
        let (nutrition_grades, j4) = match crate::codec::parse_opt_str(s, j3) {
            Some(x) => x,
            None => {
                return None;
            },
        };
        let j5 = match parse_lit(s, j4, ",\"product_name\":") {
            Some(j) => j,
            None => {
                return None;
            },
        };
        let (product_name, j6) = match crate::codec::parse_opt_str(s, j5) {
            Some(x) => x,
            None => {
                return None;
            },
        };
        let j7 = match parse_lit(s, j6, ",\"nutriments\":") {
            Some(j) => j,
            None => {
                return None;
            },
        };
        let (nutriments, j8) = match parse_opt_nutriments(s, j7) {
            Some(x) => x,
            None => {
                return None;
            },
        };
        if j8 < s.len() && s[j8] == RBRACE {
            proof {
                assert(s@.subrange(j8 as int, j8 + 1) =~= seq![RBRACE]);
                assert(sp_lit(s@, j8 as int, seq![RBRACE]) == Some(j8 + 1 as int));
            }
            Some((Product { code, nutrition_grades, product_name, nutriments }, j8 + 1))
        } else {
            proof {
                if j8 < s@.len() {
                    assert(s@.subrange(j8 as int, j8 + 1)[0] == s@[j8 as int]);
                }
            }
            None
        }
    }

    /// Reads a stored product; anything malformed reads as `None`.
    pub fn decode(s: &Vec<u8>) -> (r: Option<Product>)
        ensures
            match r {
                Some(p) => dec_product(s@) == Some(p@),
                None => dec_product(s@) is None,
            },
    {
        match Product::parse_at(s, 0) {
            Some((p, j)) => {
                if j == s.len() {
                    Some(p)
                } else {
                    None
                }
            },
            None => None,
        }
    }

    /// A fixed sample product.
    pub fn example() -> (r: Product)
        ensures
            r@.code == Seq::<u8>::empty(),
            r@.nutrition_grades is None,
            r@.product_name is None,
            r@.nutriments is None,
    {
        Product { code: Vec::new(), nutrition_grades: None, product_name: None, nutriments: None }
    }
}

// -------------------------------------------------------------------------
// normalization
// -------------------------------------------------------------------------
/// A present value stays; an absent one reads as the number zero.
pub open spec fn norm_field(o: Option<OpenFFValueView>) -> OpenFFValueView {
    match o {
        Some(v) => v,
        None => OpenFFValueView::Num(0u64),
    }
}

/// The normalized per-100g facts of a product: every field present, absent
/// fields as zero; a product without facts reads as all zero.
pub open spec fn product_macros(p: ProductView) -> NutrimentsView {
    let n = match p.nutriments {
        Some(n) => n,
        None => NutrimentsView {
            carbohydrates_100g: None,
            sugars_100g: None,
            proteins_100g: None,
            fat_100g: None,
            energy_kcal_100g: None,
            fiber_100g: None,
            salt_100g: None,
            sodium_100g: None,
        },
    };
    NutrimentsView {
        carbohydrates_100g: Some(norm_field(n.carbohydrates_100g)),
        sugars_100g: Some(norm_field(n.sugars_100g)),
        proteins_100g: Some(norm_field(n.proteins_100g)),
        fat_100g: Some(norm_field(n.fat_100g)),
        energy_kcal_100g: Some(norm_field(n.energy_kcal_100g)),
        fiber_100g: Some(norm_field(n.fiber_100g)),
        salt_100g: Some(norm_field(n.salt_100g)),
        sodium_100g: Some(norm_field(n.sodium_100g)),
    }
}

fn norm_field_exec(o: &Option<OpenFFValue>) -> (r: OpenFFValue)
    ensures
        r@ == norm_field(o.deep_view()),
{
    match o {
        Some(OpenFFValue::Num(m)) => OpenFFValue::Num(*m),
        Some(OpenFFValue::Str(t)) => OpenFFValue::Str(crate::bytes::clone_bytes(t)),
        None => OpenFFValue::Num(0),
    }
}

impl Product {
    /// The normalized facts, every field present; absent data reads as
    /// zero.
    pub fn get_numerical_macros(&self) -> (r: Nutriments)
        ensures
            r@ == product_macros(self@),
    {
        match &self.nutriments {
            Some(n) => Nutriments {
                carbohydrates_100g: Some(norm_field_exec(&n.carbohydrates_100g)),
                sugars_100g: Some(norm_field_exec(&n.sugars_100g)),
                proteins_100g: Some(norm_field_exec(&n.proteins_100g)),
                fat_100g: Some(norm_field_exec(&n.fat_100g)),
                energy_kcal_100g: Some(norm_field_exec(&n.energy_kcal_100g)),
                fiber_100g: Some(norm_field_exec(&n.fiber_100g)),
                salt_100g: Some(norm_field_exec(&n.salt_100g)),
                sodium_100g: Some(norm_field_exec(&n.sodium_100g)),
            },
            None => Nutriments::zeroed(),
        }
    }
}


// -------------------------------------------------------------------------
// lists of products
// -------------------------------------------------------------------------
pub open spec fn product_enc_fn() -> spec_fn(ProductView) -> Seq<u8> {
    |p: ProductView| enc_product(p)
}

pub open spec fn product_parse_fn() -> spec_fn(Seq<u8>, int) -> Option<(ProductView, int)> {
    |s: Seq<u8>, i: int| sp_product(s, i)
}

pub proof fn lemma_product_parser_inverts()
    ensures
        parser_inverts(product_enc_fn(), product_parse_fn()),
        enc_starts_clean(product_enc_fn()),
        enc_not_null(product_enc_fn()),
{
    assert forall|x: ProductView, pre: Seq<u8>, rest: Seq<u8>|
        #[trigger] product_parse_fn()(pre + product_enc_fn()(x) + rest, pre.len() as int)
            == Some::<(ProductView, int)>(
            (x, pre.len() as int + product_enc_fn()(x).len()),
        ) by {
        lemma_sp_product_inverts(pre + enc_product(x) + rest, pre, x, rest);
    }
    assert forall|x: ProductView|
        (#[trigger] product_enc_fn()(x)).len() > 0 && product_enc_fn()(x)[0] != RBRACKET
            && product_enc_fn()(x)[0] != COMMA && product_enc_fn()(x)[0] != 110 by {
        reveal(enc_product);
        reveal_strlit("{\"code\":");
        assert(enc_product(x)[0] == LBRACE);
    }
}

#[verifier::rlimit(100)]
fn write_product_items(xs: &Vec<Product>, k: usize, out: &mut Vec<u8>)
    requires
        k <= xs@.len(),
    ensures
        final(out)@ == old(out)@ + crate::codec::enc_items(
            xs.deep_view().skip(k as int),
            product_enc_fn(),
        ),
    decreases xs@.len() - k,
{
    if k == xs.len() {
        proof {
            assert(xs.deep_view().skip(k as int) =~= Seq::<ProductView>::empty());
            assert(out@ =~= old(out)@ + crate::codec::enc_items(
                xs.deep_view().skip(k as int),
                product_enc_fn(),
            ));
        }
    } else {
        let mut enc = xs[k].encode();
        out.append(&mut enc);
        proof {
            assert(xs.deep_view().skip(k as int)[0] == xs@[k as int]@);
        }
        if k + 1 < xs.len() {
            out.push(COMMA);
            write_product_items(xs, k + 1, out);
            proof {
                let tail = xs.deep_view().skip(k as int);
                assert(tail.drop_first() =~= xs.deep_view().skip(k + 1));
                assert(crate::codec::enc_items(tail, product_enc_fn()) == product_enc_fn()(
                    tail[0],
                ) + seq![COMMA] + crate::codec::enc_items(tail.drop_first(), product_enc_fn()));
                assert(out@ =~= old(out)@ + crate::codec::enc_items(tail, product_enc_fn()));
            }
        } else {
            proof {
                let tail = xs.deep_view().skip(k as int);
                assert(tail.len() == 1);
                assert(out@ =~= old(out)@ + crate::codec::enc_items(tail, product_enc_fn()));
            }
        }
    }
}

pub fn write_product_list(xs: &Vec<Product>, out: &mut Vec<u8>)
    ensures
        final(out)@ == old(out)@ + enc_list(xs.deep_view(), product_enc_fn()),
{
    out.push(LBRACKET);
    write_product_items(xs, 0, out);
    out.push(RBRACKET);
    proof {
        assert(xs.deep_view().skip(0) =~= xs.deep_view());
        assert(out@ =~= old(out)@ + enc_list(xs.deep_view(), product_enc_fn()));
    }
}

fn parse_product_items(s: &Vec<u8>, i: usize) -> (r: Option<(Vec<Product>, usize)>)
    requires
        i <= s@.len(),
    ensures
        match r {
            Some((v, j)) => crate::codec::sp_items(s@, i as int, product_parse_fn()) == Some(
                (v.deep_view(), j as int),
            ) && i < j <= s@.len(),
            None => crate::codec::sp_items(s@, i as int, product_parse_fn()) is None,
        },
    decreases s@.len() - i,
{
    proof {
        assert(product_parse_fn()(s@, i as int) == sp_product(s@, i as int));
    }
    match Product::parse_at(s, i) {
        None => None,
        Some((x, j)) => {
            if j < s.len() && s[j] == COMMA {
                match parse_product_items(s, j + 1) {
                    None => None,
                    Some((tail, k)) => {
                        let ghost taildv = tail.deep_view();
                        let mut v: Vec<Product> = Vec::new();
                        v.push(x);
                        let mut t = tail;
                        v.append(&mut t);
                        proof {
                            assert(v.deep_view() =~~= seq![x@] + taildv);
                        }
                        Some((v, k))
                    },
                }
            } else if j < s.len() && s[j] == RBRACKET {
                let mut v: Vec<Product> = Vec::new();
                v.push(x);
                proof {
                    assert(v.deep_view() =~~= seq![x@]);
                }
                Some((v, j + 1))
            } else {
                None
            }
        },
    }
}

pub fn parse_product_list(s: &Vec<u8>, i: usize) -> (r: Option<(Vec<Product>, usize)>)
    requires
        i <= s@.len(),
    ensures
        match r {
            Some((v, j)) => sp_list(s@, i as int, product_parse_fn()) == Some(
                (v.deep_view(), j as int),
            ) && i < j <= s@.len(),
            None => sp_list(s@, i as int, product_parse_fn()) is None,
        },
{
    if i >= s.len() {
        return None;
    }
    if i + 1 < s.len() && s[i] == LBRACKET {
        if s[i + 1] == RBRACKET {
            let v: Vec<Product> = Vec::new();
            proof {
                assert(v.deep_view() =~= Seq::<ProductView>::empty());
            }
            Some((v, i + 2))
        } else {
            parse_product_items(s, i + 1)
        }
    } else {
        None
    }
}

// -------------------------------------------------------------------------
// cached product searches and queries
// -------------------------------------------------------------------------
/// A free-text search a nutritionist submits.
#[derive(Debug, Clone, PartialEq, Eq)]
pub struct NutritionistSearchQuery {
    pub query: Vec<u8>,
}

/// A query against the barcode food database, tagged with a region.
#[derive(Debug, Clone, PartialEq, Eq)]
pub struct OpenFoodFactsQuery {
    pub search_query: Vec<u8>,
    pub tags: Vec<Vec<u8>>,
}

impl OpenFoodFactsQuery {
    /// A query for the given text, tagged for the region the service
    /// serves.
    pub fn new(search_query: Vec<u8>) -> (r: OpenFoodFactsQuery)
        ensures
            r.search_query@ == search_query@,
            r.tags.deep_view() == seq![s2b("de"@)],
    {
        proof {
            reveal_strlit("de");
        }
        let mut tags: Vec<Vec<u8>> = Vec::new();
        tags.push(crate::bytes::lit("de"));
        proof {
            assert(tags.deep_view() =~~= seq![s2b("de"@)]);
        }
        OpenFoodFactsQuery { search_query, tags }
    }
}

/// A cached product search: the query string and the products it returned.
#[derive(Debug, Clone, PartialEq, Eq)]
pub struct SearchResult {
    pub products: Vec<Product>,
    pub query: NutritionistSearchQuery,
}

pub struct SearchResultView {
    pub products: Seq<ProductView>,
    pub query: Seq<u8>,
}

impl DeepView for SearchResult {
    type V = SearchResultView;

    open spec fn deep_view(&self) -> SearchResultView {
        self@
    }
}

impl View for SearchResult {
    type V = SearchResultView;

    open spec fn view(&self) -> SearchResultView {
        SearchResultView { products: self.products.deep_view(), query: self.query.query@ }
    }
}

#[verifier::opaque]
pub open spec fn enc_search_result(r: SearchResultView) -> Seq<u8> {
    s2b("{\"products\":"@) + enc_list(r.products, product_enc_fn()) + s2b(",\"query\":"@)
        + enc_str(r.query) + seq![RBRACE]
}

#[verifier::opaque]
pub open spec fn sp_search_result(s: Seq<u8>, i: int) -> Option<(SearchResultView, int)> {
    match sp_lit(s, i, s2b("{\"products\":"@)) {
        None => None,
        Some(j1) => match sp_list(s, j1, product_parse_fn()) {
            None => None,
            Some((products, j2)) => match sp_lit(s, j2, s2b(",\"query\":"@)) {
                None => None,
                Some(j3) => match sp_str(s, j3) {
                    None => None,
                    Some((query, j4)) => match sp_lit(s, j4, seq![RBRACE]) {
                        None => None,
                        Some(j5) => Some((SearchResultView { products, query }, j5)),
                    },
                },
            },
        },
    }
}

pub open spec fn dec_search_result(s: Seq<u8>) -> Option<SearchResultView> {
    match sp_search_result(s, 0) {
        Some((r, j)) => {
            if j == s.len() {
                Some(r)
            } else {
                None
            }
        },
        None => None,
    }
}

#[verifier::rlimit(100)]
pub proof fn lemma_sp_search_result_inverts(
    s: Seq<u8>,
    pre: Seq<u8>,
    r: SearchResultView,
    rest: Seq<u8>,
)
    requires
        s == pre + enc_search_result(r) + rest,
    ensures
        sp_search_result(s, pre.len() as int) == Some::<(SearchResultView, int)>(
            (r, pre.len() as int + enc_search_result(r).len()),
        ),
{
    reveal(enc_search_result);
    reveal(sp_search_result);
    let l1 = s2b("{\"products\":"@);
    let l2 = s2b(",\"query\":"@);
    reveal_strlit(",\"query\":");
    let el = enc_list(r.products, product_enc_fn());
    let t4 = seq![RBRACE] + rest;
    let t3 = enc_str(r.query) + t4;
    let t2 = l2 + t3;
    let t1 = el + t2;
    lemma_concat_associative(l1, el, t2);
    let q1 = l1 + el;
    lemma_concat_associative(q1, l2, t3);
    let q2 = q1 + l2;
    lemma_concat_associative(q2, enc_str(r.query), t4);
    let q3 = q2 + enc_str(r.query);
    lemma_concat_associative(q3, seq![RBRACE], rest);
    lemma_concat_associative(pre, enc_search_result(r), rest);
    assert(l1 + t1 == enc_search_result(r) + rest);
    assert(s == pre + (l1 + t1));
    lemma_step_lit(s, pre, l1, t1);
    let p1 = pre + l1;
    lemma_concat_associative(p1, el, t2);
    lemma_product_parser_inverts();
    lemma_sp_list_inverts(s, p1, r.products, t2, product_enc_fn(), product_parse_fn());
    let p2 = p1 + el;
    lemma_step_lit(s, p2, l2, t3);
    let p3 = p2 + l2;
    lemma_step_str(s, p3, r.query, t4);
    let p4 = p3 + enc_str(r.query);
    lemma_step_lit(s, p4, seq![RBRACE], rest);
}

/// Decoding the written form of a cached product search returns it.
pub proof fn lemma_search_result_round_trip(r: SearchResultView)
    ensures
        dec_search_result(enc_search_result(r)) == Some(r),
{
    let s = enc_search_result(r);
    assert(s =~= Seq::<u8>::empty() + enc_search_result(r) + Seq::<u8>::empty());
    lemma_sp_search_result_inverts(s, Seq::<u8>::empty(), r, Seq::<u8>::empty());
}

impl SearchResult {
    /// The stored JSON form of this cached search.
    pub fn encode(&self) -> (r: Vec<u8>)
        ensures
            r@ == enc_search_result(self@),
    {
        let mut out: Vec<u8> = Vec::new();
        proof {
            reveal(enc_search_result);
            reveal_strlit("{\"products\":");
            reveal_strlit(",\"query\":");
        }
        write_lit("{\"products\":", &mut out);
        write_product_list(&self.products, &mut out);
        write_lit(",\"query\":", &mut out);
        write_str(&self.query.query, &mut out);
        out.push(RBRACE);
        proof {
            assert(out@ =~= enc_search_result(self@));
        }
        out
    }

    /// Reads a stored cached search; anything malformed reads as `None`.
    pub fn decode(s: &Vec<u8>) -> (r: Option<SearchResult>)
        ensures
            match r {
                Some(v) => dec_search_result(s@) == Some(v@),
                None => dec_search_result(s@) is None,
            },
    {
        proof {
            reveal(sp_search_result);
            reveal_strlit("{\"products\":");
            reveal_strlit(",\"query\":");
        }
        let j1 = match parse_lit(s, 0, "{\"products\":") {
            Some(j) => j,
            None => {
                return None;
            },
        };
        let (products, j2) = match parse_product_list(s, j1) {
            Some(x) => x,
            None => {
                return None;
            },
        };
        let j3 = match parse_lit(s, j2, ",\"query\":") {
            Some(j) => j,
            None => {
                return None;
            },
        };
        let (query, j4) = match parse_str(s, j3) {
            Some(x) => x,
            None => {
                return None;
            },
        };
        if j4 < s.len() && s[j4] == RBRACE {
            proof {
                assert(s@.subrange(j4 as int, j4 + 1) =~= seq![RBRACE]);
                assert(sp_lit(s@, j4 as int, seq![RBRACE]) == Some(j4 + 1 as int));
            }
            if j4 + 1 == s.len() {
                Some(SearchResult { products, query: NutritionistSearchQuery { query } })
            } else {
                None
            }
        } else {
            proof {
                if j4 < s@.len() {
                    assert(s@.subrange(j4 as int, j4 + 1)[0] == s@[j4 as int]);
                }
            }
            None
        }
    }

    /// A fixed sample cached search.
    pub fn example() -> (r: SearchResult)
        ensures
            r@.products == Seq::<ProductView>::empty(),
            r@.query == Seq::<u8>::empty(),
    {
        let r = SearchResult {
            products: Vec::new(),
            query: NutritionistSearchQuery { query: Vec::new() },
        };
        proof {
            assert(r.products.deep_view() =~= Seq::<ProductView>::empty());
        }
        r
    }
}

// -------------------------------------------------------------------------
// which products a search may show
// -------------------------------------------------------------------------
/// A product takes part in display and search only with a non-empty name
/// and present facts.
pub open spec fn searchable_fn() -> spec_fn(ProductView) -> bool {
    |p: ProductView|
        p.product_name is Some && p.product_name->Some_0.len() > 0 && p.nutriments is Some
}

/// Keeps the products a search may show.
pub fn filter_searchable(ps: Vec<Product>) -> (r: Vec<Product>)
    ensures
        r.deep_view() == ps.deep_view().filter(searchable_fn()),
{
    let ghost pred = searchable_fn();
    let ghost dv = ps.deep_view();
    let mut out: Vec<Product> = Vec::new();
    let mut i: usize = 0;
    let ps0 = ps;
    while i < ps0.len()
        invariant
            i <= ps0@.len(),
            dv == ps0.deep_view(),
            pred == searchable_fn(),
            out.deep_view() == dv.subrange(0, i as int).filter(pred),
        decreases ps0@.len() - i,
    {
        proof {
            assert(dv[i as int] == ps0@[i as int]@);
            assert(dv.subrange(0, i + 1).drop_last() =~= dv.subrange(0, i as int));
            assert(dv.subrange(0, i + 1).last() == dv[i as int]);
            reveal(Seq::filter);
            assert(pred(dv[i as int]) == (dv[i as int].product_name is Some
                && dv[i as int].product_name->Some_0.len() > 0 && dv[i as int].nutriments
                is Some));
        }
        let p = &ps0[i];
        let keep = match &p.product_name {
            Some(n) => n.len() > 0 && p.nutriments.is_some(),
            None => false,
        };
        if keep {
            out.push(clone_product(p));
            proof {
                assert(out.deep_view() =~~= dv.subrange(0, i + 1).filter(pred));
            }
        } else {
            proof {
                assert(out.deep_view() =~~= dv.subrange(0, i + 1).filter(pred));
            }
        }
        i = i + 1;
    }
    proof {
        assert(dv.subrange(0, dv.len() as int) =~= dv);
    }
    out
}

/// Copies a product; spelled out so that contracts can speak of views.
pub fn clone_product(p: &Product) -> (r: Product)
    ensures
        r@ == p@,
{
    Product {
        code: crate::bytes::clone_bytes(&p.code),
        nutrition_grades: match &p.nutrition_grades {
            Some(v) => Some(crate::bytes::clone_bytes(v)),
            None => None,
        },
        product_name: match &p.product_name {
            Some(v) => Some(crate::bytes::clone_bytes(v)),
            None => None,
        },
        nutriments: match &p.nutriments {
            Some(n) => Some(clone_nutriments(n)),
            None => None,
        },
    }
}

fn clone_ffv_opt(o: &Option<OpenFFValue>) -> (r: Option<OpenFFValue>)
    ensures
        r.deep_view() == o.deep_view(),
{
    match o {
        Some(OpenFFValue::Num(m)) => Some(OpenFFValue::Num(*m)),
        Some(OpenFFValue::Str(t)) => Some(OpenFFValue::Str(crate::bytes::clone_bytes(t))),
        None => None,
    }
}

fn clone_nutriments(n: &Nutriments) -> (r: Nutriments)
    ensures
        r@ == n@,
{
    Nutriments {
        carbohydrates_100g: clone_ffv_opt(&n.carbohydrates_100g),
        sugars_100g: clone_ffv_opt(&n.sugars_100g),
        proteins_100g: clone_ffv_opt(&n.proteins_100g),
        fat_100g: clone_ffv_opt(&n.fat_100g),
        energy_kcal_100g: clone_ffv_opt(&n.energy_kcal_100g),
        fiber_100g: clone_ffv_opt(&n.fiber_100g),
        salt_100g: clone_ffv_opt(&n.salt_100g),
        sodium_100g: clone_ffv_opt(&n.sodium_100g),
    }
}

} // verus!
