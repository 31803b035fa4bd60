//! Users and their roles. A user's role decides whose meal logs they may
//! read: a plain user only their own, a nutritionist those of the users
//! delegated to them.
use vstd::prelude::*;
use crate::bytes::{s2b, bytes_eq, lit};
use crate::codec::{
    enc_str, sp_str, enc_list, sp_list, sp_lit, str_enc_fn, str_parse_fn, write_str, parse_str,
    write_str_list, parse_str_list, write_lit, parse_lit, lemma_sp_str_inverts,
    lemma_sp_lit_inverts, lemma_sp_list_inverts, lemma_str_parser_inverts, RBRACE, LBRACE, QUOTE,
};

verus! {

/// The role of a user: a plain user, a nutritionist with a list of
/// delegated user identifiers, or an administrator.
#[derive(Debug, Clone, PartialEq, Eq)]
pub enum UserType {
    User,
    Nutritionist(Vec<Vec<u8>>),
    Admin,
}

pub enum UserTypeView {
    User,
    Nutritionist(Seq<Seq<u8>>),
    Admin,
}

impl View for UserType {
    type V = UserTypeView;

    open spec fn view(&self) -> UserTypeView {
        match self {
            UserType::User => UserTypeView::User,
            UserType::Nutritionist(l) => UserTypeView::Nutritionist(l.deep_view()),
            UserType::Admin => UserTypeView::Admin,
        }
    }
}

#[derive(Debug, Clone, PartialEq, Eq)]
pub struct User {
    pub id: Vec<u8>,
    pub name: Vec<u8>,
    pub email: Vec<u8>,
    pub user_type: UserType,
}

pub struct UserView {
    pub id: Seq<u8>,
    pub name: Seq<u8>,
    pub email: Seq<u8>,
    pub user_type: UserTypeView,
}

impl DeepView for User {
    type V = UserView;

    open spec fn deep_view(&self) -> UserView {
        self@
    }
}

impl View for User {
    type V = UserView;

    open spec fn view(&self) -> UserView {
        UserView {
            id: self.id@,
            name: self.name@,
            email: self.email@,
            user_type: self.user_type@,
        }
    }
}

// -------------------------------------------------------------------------
// encoding
// -------------------------------------------------------------------------
#[verifier::opaque]
pub open spec fn enc_user_type(ut: UserTypeView) -> Seq<u8> {
    match ut {
        UserTypeView::User => s2b("\"User\""@),
        UserTypeView::Admin => s2b("\"Admin\""@),
        UserTypeView::Nutritionist(l) => s2b("{\"Nutritionist\":"@) + enc_list(l, str_enc_fn())
            + seq![RBRACE],
    }
}

#[verifier::opaque]
pub open spec fn sp_user_type(s: Seq<u8>, i: int) -> Option<(UserTypeView, int)> {
    match sp_lit(s, i, s2b("\"User\""@)) {
        Some(j) => Some((UserTypeView::User, j)),
        None => match sp_lit(s, i, s2b("\"Admin\""@)) {
            Some(j) => Some((UserTypeView::Admin, j)),
            None => match sp_lit(s, i, s2b("{\"Nutritionist\":"@)) {
                None => None,
                Some(j) => match sp_list(s, j, str_parse_fn()) {
                    None => None,
                    Some((l, k)) => match sp_lit(s, k, seq![RBRACE]) {
                        None => None,
                        Some(t) => Some((UserTypeView::Nutritionist(l), t)),
                    },
                },
            },
        },
    }
}

#[verifier::opaque]
pub open spec fn enc_user(u: UserView) -> Seq<u8> {
    s2b("{\"id\":"@) + enc_str(u.id) + s2b(",\"name\":"@) + enc_str(u.name) + s2b(",\"email\":"@)
        + enc_str(u.email) + s2b(",\"user_type\":"@) + enc_user_type(u.user_type) + seq![RBRACE]
}

#[verifier::opaque]
pub open spec fn sp_user(s: Seq<u8>, i: int) -> Option<(UserView, int)> {
    match sp_lit(s, i, s2b("{\"id\":"@)) {
        None => None,
        Some(j1) => match sp_str(s, j1) {
            None => None,
            Some((id, j2)) => match sp_lit(s, j2, s2b(",\"name\":"@)) {
                None => None,
                Some(j3) => match sp_str(s, j3) {
                    None => None,
                    Some((name, j4)) => match sp_lit(s, j4, s2b(",\"email\":"@)) {
                        None => None,
                        Some(j5) => match sp_str(s, j5) {
                            None => None,
                            Some((email, j6)) => match sp_lit(s, j6, s2b(",\"user_type\":"@)) {
                                None => None,
                                Some(j7) => match sp_user_type(s, j7) {
                                    None => None,
                                    Some((ut, j8)) => match sp_lit(s, j8, seq![RBRACE]) {
                                        None => None,
                                        Some(j9) => Some(
                                            (
                                                UserView {
                                                    id: id,
                                                    name: name,
                                                    email: email,
                                                    user_type: ut,
                                                },
                                                j9,
                                            ),
                                        ),
                                    },
                                },
                            },
                        },
                    },
                },
            },
        },
    }
}

/// The stored form of a user decodes only as a whole.
pub open spec fn dec_user(s: Seq<u8>) -> Option<UserView> {
    match sp_user(s, 0) {
        Some((u, j)) => {
            if j == s.len() {
                Some(u)
            } else {
                None
            }
        },
        None => None,
    }
}

proof fn lemma_sp_user_type_inverts(s: Seq<u8>, pre: Seq<u8>, ut: UserTypeView, rest: Seq<u8>)
    requires
        s == pre + enc_user_type(ut) + rest,
    ensures
        sp_user_type(s, pre.len() as int) == Some::<(UserTypeView, int)>(
            (ut, pre.len() as int + enc_user_type(ut).len()),
        ),
{
    reveal(enc_user_type);
    reveal(sp_user_type);
    reveal_strlit("\"User\"");
    reveal_strlit("\"Admin\"");
    reveal_strlit("{\"Nutritionist\":");
    let i = pre.len() as int;
    match ut {
        UserTypeView::User => {
            lemma_sp_lit_inverts(s, pre, s2b("\"User\""@), rest);
        },
        UserTypeView::Admin => {
            lemma_sp_lit_inverts(s, pre, s2b("\"Admin\""@), rest);
            assert(s[i + 1] == ('A' as u8));
            let lu = s2b("\"User\""@);
            if i + lu.len() <= s.len() {
                assert(s.subrange(i, i + lu.len())[1] == s[i + 1]);
                assert(lu[1] == ('U' as u8));
                assert(s.subrange(i, i + lu.len()) != lu);
            }
            assert(sp_lit(s, i, s2b("\"User\""@)) is None);
        },
        UserTypeView::Nutritionist(l) => {
            let lu = s2b("{\"Nutritionist\":"@);
            assert(s[i] == LBRACE);
            let l_user = s2b("\"User\""@);
            if i + l_user.len() <= s.len() {
                assert(s.subrange(i, i + l_user.len())[0] == s[i]);
                assert(l_user[0] == QUOTE);
                assert(s.subrange(i, i + l_user.len()) != l_user);
            }
            assert(sp_lit(s, i, s2b("\"User\""@)) is None);
            let l_adm = s2b("\"Admin\""@);
            if i + l_adm.len() <= s.len() {
                assert(s.subrange(i, i + l_adm.len())[0] == s[i]);
                assert(l_adm[0] == QUOTE);
                assert(s.subrange(i, i + l_adm.len()) != l_adm);
            }
            assert(sp_lit(s, i, s2b("\"Admin\""@)) is None);
            assert(s =~= pre + lu + (enc_list(l, str_enc_fn()) + seq![RBRACE] + rest));
            lemma_sp_lit_inverts(s, pre, lu, enc_list(l, str_enc_fn()) + seq![RBRACE] + rest);
            let pre2 = pre + lu;
            assert(s =~= pre2 + enc_list(l, str_enc_fn()) + (seq![RBRACE] + rest));
            lemma_str_parser_inverts();
            lemma_sp_list_inverts(
                s,
                pre2,
                l,
                seq![RBRACE] + rest,
                str_enc_fn(),
                str_parse_fn(),
            );
            let k = pre2.len() as int + enc_list(l, str_enc_fn()).len();
            let pre3 = pre2 + enc_list(l, str_enc_fn());
            assert(s =~= pre3 + seq![RBRACE] + rest);
            lemma_sp_lit_inverts(s, pre3, seq![RBRACE], rest);
        },
    }
}

#[verifier::rlimit(60)]
proof fn lemma_sp_user_inverts(s: Seq<u8>, pre: Seq<u8>, u: UserView, rest: Seq<u8>)
    requires
        s == pre + enc_user(u) + rest,
    ensures
        sp_user(s, pre.len() as int) == Some::<(UserView, int)>(
            (u, pre.len() as int + enc_user(u).len()),
        ),
{
    reveal(enc_user);
    reveal(sp_user);
    let l1 = s2b("{\"id\":"@);
    let l2 = s2b(",\"name\":"@);
    let l3 = s2b(",\"email\":"@);
    let l4 = s2b(",\"user_type\":"@);
    let t8 = seq![RBRACE] + rest;
    let t7 = enc_user_type(u.user_type) + t8;
    let t6 = l4 + t7;
    let t5 = enc_str(u.email) + t6;
    let t4 = l3 + t5;
    let t3 = enc_str(u.name) + t4;
    let t2 = l2 + t3;
    let t1 = enc_str(u.id) + t2;
    assert(s =~= pre + l1 + t1);
    lemma_sp_lit_inverts(s, pre, l1, t1);
    let p1 = pre + l1;
    assert(s =~= p1 + enc_str(u.id) + t2);
    lemma_sp_str_inverts(s, p1, u.id, t2);
    let p2 = p1 + enc_str(u.id);
    assert(s =~= p2 + l2 + t3);
    lemma_sp_lit_inverts(s, p2, l2, t3);
    let p3 = p2 + l2;
    assert(s =~= p3 + enc_str(u.name) + t4);
    lemma_sp_str_inverts(s, p3, u.name, t4);
    let p4 = p3 + enc_str(u.name);
    assert(s =~= p4 + l3 + t5);
    lemma_sp_lit_inverts(s, p4, l3, t5);
    let p5 = p4 + l3;
    assert(s =~= p5 + enc_str(u.email) + t6);
    lemma_sp_str_inverts(s, p5, u.email, t6);
    let p6 = p5 + enc_str(u.email);
    assert(s =~= p6 + l4 + t7);
    lemma_sp_lit_inverts(s, p6, l4, t7);
    let p7 = p6 + l4;
    assert(s =~= p7 + enc_user_type(u.user_type) + t8);
    lemma_sp_user_type_inverts(s, p7, u.user_type, t8);
    let p8 = p7 + enc_user_type(u.user_type);
    assert(s =~= p8 + seq![RBRACE] + rest);
    lemma_sp_lit_inverts(s, p8, seq![RBRACE], rest);
}

/// Decoding the written form of a user returns that user.
pub proof fn lemma_user_round_trip(u: UserView)
    ensures
        dec_user(enc_user(u)) == Some(u),
{
    let s = enc_user(u);
    assert(s =~= Seq::<u8>::empty() + enc_user(u) + Seq::<u8>::empty());
    lemma_sp_user_inverts(s, Seq::<u8>::empty(), u, Seq::<u8>::empty());
}

// -------------------------------------------------------------------------
// executable encode and decode
// -------------------------------------------------------------------------
fn write_user_type(ut: &UserType, out: &mut Vec<u8>)
    ensures
        final(out)@ == old(out)@ + enc_user_type(ut@),
{
    proof {
        reveal(enc_user_type);
        reveal_strlit("\"User\"");
        reveal_strlit("\"Admin\"");
        reveal_strlit("{\"Nutritionist\":");
    }
    match ut {
        UserType::User => {
            write_lit("\"User\"", out);
        },
        UserType::Admin => {
            write_lit("\"Admin\"", out);
        },
        UserType::Nutritionist(l) => {
            write_lit("{\"Nutritionist\":", out);
            write_str_list(l, out);
            out.push(RBRACE);
            proof {
                assert(out@ =~= old(out)@ + enc_user_type(ut@));
            }
        },
    }
}

fn parse_user_type(s: &Vec<u8>, i: usize) -> (r: Option<(UserType, usize)>)
    requires
        i <= s@.len(),
    ensures
        match r {
            Some((ut, j)) => sp_user_type(s@, i as int) == Some((ut@, j as int)) && i <= j
                <= s@.len(),
            None => sp_user_type(s@, i as int) is None,
        },
{
    proof {
        reveal(sp_user_type);
        reveal_strlit("\"User\"");
        reveal_strlit("\"Admin\"");
        reveal_strlit("{\"Nutritionist\":");
    }
    match parse_lit(s, i, "\"User\"") {
        Some(j) => Some((UserType::User, j)),
        None => match parse_lit(s, i, "\"Admin\"") {
            Some(j) => Some((UserType::Admin, j)),
            None => match parse_lit(s, i, "{\"Nutritionist\":") {
                None => None,
                Some(j) => match parse_str_list(s, j) {
                    None => None,
                    Some((l, k)) => {
                        if k < s.len() && s[k] == RBRACE {
                            proof {
                                assert(s@.subrange(k as int, k + 1) =~= seq![RBRACE]);
                                assert(sp_lit(s@, k as int, seq![RBRACE]) == Some(k + 1 as int));
                            }
                            Some((UserType::Nutritionist(l), k + 1))
                        } else {
                            proof {
                                if k < s@.len() {
                                    assert(s@.subrange(k as int, k + 1)[0] == s@[k as int]);
                                }
                            }
                            None
                        }
                    },
                },
            },
        },
    }
}

impl User {
    /// The stored JSON form of this user.
    pub fn encode(&self) -> (r: Vec<u8>)
        ensures
            r@ == enc_user(self@),
    {
        let mut out: Vec<u8> = Vec::new();
        proof {
            reveal(enc_user);
            reveal_strlit("{\"id\":");
            reveal_strlit(",\"name\":");
            reveal_strlit(",\"email\":");
            reveal_strlit(",\"user_type\":");
        }
        write_lit("{\"id\":", &mut out);
        write_str(&self.id, &mut out);
        write_lit(",\"name\":", &mut out);
        write_str(&self.name, &mut out);
        write_lit(",\"email\":", &mut out);
        write_str(&self.email, &mut out);
        write_lit(",\"user_type\":", &mut out);
        write_user_type(&self.user_type, &mut out);
        out.push(RBRACE);
        proof {
            assert(out@ =~= enc_user(self@));
        }
        out
    }

    /// Reads a stored user; anything malformed reads as `None`.
    pub fn decode(s: &Vec<u8>) -> (r: Option<User>)
        ensures
            match r {
                Some(u) => dec_user(s@) == Some(u@),
                None => dec_user(s@) is None,
            },
    {
        proof {
            reveal(sp_user);
            reveal_strlit("{\"id\":");
            reveal_strlit(",\"name\":");
            reveal_strlit(",\"email\":");
            reveal_strlit(",\"user_type\":");
        }
        let j1 = match parse_lit(s, 0, "{\"id\":") {
            Some(j) => j,
            None => {
                return None;
            },
        };
        let (id, j2) = match parse_str(s, j1) {
            Some(x) => x,
            None => {
                return None;
            },
        };
        let j3 = match parse_lit(s, j2, ",\"name\":") {
            Some(j) => j,
            None => {
                return None;
            },
        };
        let (name, j4) = match parse_str(s, j3) {
            Some(x) => x,
            None => {
                return None;
            },
        };
        let j5 = match parse_lit(s, j4, ",\"email\":") {
            Some(j) => j,
            None => {
                return None;
            },
        };
        let (email, j6) = match parse_str(s, j5) {
            Some(x) => x,
            None => {
                return None;
            },
        };
        let j7 = match parse_lit(s, j6, ",\"user_type\":") {
            Some(j) => j,
            None => {
                return None;
            },
        };
        let (ut, j8) = match parse_user_type(s, j7) {
            Some(x) => x,
            None => {
                return None;
            },
        };
        if j8 < s.len() && s[j8] == RBRACE {
            proof {
                assert(s@.subrange(j8 as int, j8 + 1) =~= seq![RBRACE]);
                assert(sp_lit(s@, j8 as int, seq![RBRACE]) == Some(j8 + 1 as int));
            }
            if j8 + 1 == s.len() {
                Some(User { id, name, email, user_type: ut })
            } else {
                None
            }
        } else {
            proof {
                if j8 < s@.len() {
                    assert(s@.subrange(j8 as int, j8 + 1)[0] == s@[j8 as int]);
                }
            }
            None
        }
    }
}

// -------------------------------------------------------------------------
// roles and authorization
// -------------------------------------------------------------------------
/// A nutritionist may read the meals of exactly the users on their
/// delegated list; no other role grants such access.
pub open spec fn nutritionist_may_view(ut: UserTypeView, owner: Seq<u8>) -> bool {
    match ut {
        UserTypeView::Nutritionist(l) => l.contains(owner),
        _ => false,
    }
}

/// Decides whether `user` may read the meal log owned by `owner` through
/// the nutritionist role.
pub fn check_nutritionist_access(ut: &UserType, owner: &Vec<u8>) -> (r: bool)
    ensures
        r == nutritionist_may_view(ut@, owner@),
{
    match ut {
        UserType::Nutritionist(l) => {
            proof {
                assert(ut@ == UserTypeView::Nutritionist(l.deep_view()));
            }
            let mut i: usize = 0;
            while i < l.len()
                invariant
                    i <= l@.len(),
                    ut@ == UserTypeView::Nutritionist(l.deep_view()),
                    forall|k: int| 0 <= k < i ==> l.deep_view()[k] != owner@,
                decreases l@.len() - i,
            {
                proof {
                    assert(l.deep_view()[i as int] == l@[i as int]@);
                }
                if bytes_eq(&l[i], owner) {
                    proof {
                        assert(l.deep_view()[i as int] == owner@);
                        assert(l.deep_view().contains(owner@));
                    }
                    return true;
                }
                i = i + 1;
            }
            proof {
                assert(forall|k: int|
                    0 <= k < l.deep_view().len() ==> l.deep_view()[k] != owner@);
                assert(!l.deep_view().contains(owner@));
            }
            false
        },
        _ => false,
    }
}

/// The role given to a user on login: the fixed nutritionist account keeps
/// its own name on its delegated list, everyone else is a plain user.
pub open spec fn role_for_spec(name: Seq<u8>) -> UserTypeView {
    if name == s2b("jan"@) {
        UserTypeView::Nutritionist(seq![s2b("jan"@)])
    } else {
        UserTypeView::User
    }
}

pub fn role_for_username(name: &Vec<u8>) -> (r: UserType)
    ensures
        r@ == role_for_spec(name@),
{
    proof {
        reveal_strlit("jan");
    }
    let j = lit("jan");
    if bytes_eq(name, &j) {
        let mut l: Vec<Vec<u8>> = Vec::new();
        l.push(j);
        proof {
            assert(l.deep_view() =~~= seq![s2b("jan"@)]);
        }
        UserType::Nutritionist(l)
    } else {
        UserType::User
    }
}

impl User {
    /// A fixed sample user.
    pub fn example() -> (r: User)
        ensures
            r@.id == s2b("12345"@),
            r@.user_type == UserTypeView::User,
    {
        proof {
            reveal_strlit("12345");
            reveal_strlit("TEST");
            reveal_strlit("test@test.de");
        }
        User {
            id: lit("12345"),
            name: lit("TEST"),
            email: lit("test@test.de"),
            user_type: UserType::User,
        }
    }
}

} // verus!
