//! Identity claims carried inside a session token, and their canonical JSON
//! text. `claims_from_text` accepts exactly what `claims_to_text` writes.
use vstd::prelude::*;
use crate::time::{utc_date_text, utc_text_or_empty};
use crate::text::{
    bool_text, chars_of, int_text, key_text, opt_text, opt_view, parse_bool_field, parse_char,
    parse_int_field, parse_opt_field, parse_str_field, push_bool, push_int, push_lit, push_opt,
    push_str_text, rest_of, str_text, string_from_chars,
};

verus! {

/// The authenticated principal's attributes carried inside a token.
#[derive(Debug, Clone, PartialEq, Eq)]
pub struct Claims {
    /// Whether the login that produced these claims succeeded.
    pub result: bool,
    /// Numeric user id.
    pub usernid: i32,
    /// Account e-mail.
    pub email: String,
    /// Display name.
    pub fullname: String,
    /// Whether login is disabled for the account.
    pub disabled_login: bool,
    /// Expiry, in unix seconds.
    pub expired_token: i64,
    /// Expiry as `YYYY-MM-DD HH:MM:SS` (UTC).
    pub expired_date: String,
    /// Registration time, in unix seconds.
    pub register_date: i64,
    /// Expiry checked on verification, in unix seconds.
    pub exp: i64,
    /// Profile picture reference.
    pub picture: Option<String>,
    /// Device label the session was opened from.
    pub comp_name: Option<String>,
    /// Network address the session was opened from.
    pub ip_address: Option<String>,
    /// Name of the calling application.
    pub app_name: Option<String>,
}

/// Mathematical view of [`Claims`]: strings as character sequences.
pub struct ClaimsView {
    pub result: bool,
    pub usernid: i32,
    pub email: Seq<char>,
    pub fullname: Seq<char>,
    pub disabled_login: bool,
    pub expired_token: i64,
    pub expired_date: Seq<char>,
    pub register_date: i64,
    pub exp: i64,
    pub picture: Option<Seq<char>>,
    pub comp_name: Option<Seq<char>>,
    pub ip_address: Option<Seq<char>>,
    pub app_name: Option<Seq<char>>,
}

impl View for Claims {
    type V = ClaimsView;

    open spec fn view(&self) -> ClaimsView {
        ClaimsView {
            result: self.result,
            usernid: self.usernid,
            email: self.email@,
            fullname: self.fullname@,
            disabled_login: self.disabled_login,
            expired_token: self.expired_token,
            expired_date: self.expired_date@,
            register_date: self.register_date,
            exp: self.exp,
            picture: opt_view(self.picture),
            comp_name: opt_view(self.comp_name),
            ip_address: opt_view(self.ip_address),
            app_name: opt_view(self.app_name),
        }
    }
}

pub open spec fn tail_result(c: ClaimsView) -> Seq<char> {
    key_text('{', "\"result\":"@) + (bool_text(c.result) + tail_usernid(c))
}

pub open spec fn tail_usernid(c: ClaimsView) -> Seq<char> {
    key_text(',', "\"usernid\":"@) + (int_text(c.usernid as int) + tail_email(c))
}

pub open spec fn tail_email(c: ClaimsView) -> Seq<char> {
    key_text(',', "\"email\":"@) + (str_text(c.email) + tail_fullname(c))
}

pub open spec fn tail_fullname(c: ClaimsView) -> Seq<char> {
    key_text(',', "\"fullname\":"@) + (str_text(c.fullname) + tail_disabled_login(c))
}

pub open spec fn tail_disabled_login(c: ClaimsView) -> Seq<char> {
    key_text(',', "\"disabled_login\":"@) + (bool_text(c.disabled_login) + tail_expired_token(c))
}

pub open spec fn tail_expired_token(c: ClaimsView) -> Seq<char> {
    key_text(',', "\"expired_token\":"@) + (int_text(c.expired_token as int) + tail_expired_date(c))
}

pub open spec fn tail_expired_date(c: ClaimsView) -> Seq<char> {
    key_text(',', "\"expired_date\":"@) + (str_text(c.expired_date) + tail_register_date(c))
}

pub open spec fn tail_register_date(c: ClaimsView) -> Seq<char> {
    key_text(',', "\"register_date\":"@) + (int_text(c.register_date as int) + tail_exp(c))
}

pub open spec fn tail_exp(c: ClaimsView) -> Seq<char> {
    key_text(',', "\"exp\":"@) + (int_text(c.exp as int) + tail_picture(c))
}

pub open spec fn tail_picture(c: ClaimsView) -> Seq<char> {
    key_text(',', "\"picture\":"@) + (opt_text(c.picture) + tail_comp_name(c))
}

pub open spec fn tail_comp_name(c: ClaimsView) -> Seq<char> {
    key_text(',', "\"comp_name\":"@) + (opt_text(c.comp_name) + tail_ip_address(c))
}

pub open spec fn tail_ip_address(c: ClaimsView) -> Seq<char> {
    key_text(',', "\"ip_address\":"@) + (opt_text(c.ip_address) + tail_app_name(c))
}

pub open spec fn tail_app_name(c: ClaimsView) -> Seq<char> {
    key_text(',', "\"app_name\":"@) + (opt_text(c.app_name) + seq!['}'])
}

/// The canonical JSON object text of a claims value.
pub open spec fn claims_text(c: ClaimsView) -> Seq<char> {
    tail_result(c)
}

proof fn lemma_append_field(out: Seq<char>, sep: char, key: Seq<char>, v: Seq<char>, t: Seq<char>)
    ensures
        out.push(sep) + key + v + t == out + (key_text(sep, key) + (v + t)),
{
    assert(out.push(sep) + key + v + t =~= out + (key_text(sep, key) + (v + t)));
}

/// Writes the canonical JSON text of `c`.
pub fn claims_to_text(c: &Claims) -> (r: String)
    ensures
        r@ == claims_text(c@),
{
    let mut out: Vec<char> = Vec::new();
    let ghost cv = c@;
    assert(out@ + claims_text(cv) =~= claims_text(cv));
    let ghost before = out@;
    out.push('{');
    push_lit(&mut out, "\"result\":");
    push_bool(&mut out, c.result);
    proof {
        lemma_append_field(before, '{', "\"result\":"@, bool_text(cv.result), tail_usernid(cv));
    }
    let ghost before = out@;
    out.push(',');
    push_lit(&mut out, "\"usernid\":");
    push_int(&mut out, c.usernid as i64);
    proof {
        lemma_append_field(
            before,
            ',',
            "\"usernid\":"@,
            int_text(cv.usernid as int),
            tail_email(cv),
        );
    }
    let ghost before = out@;
    out.push(',');
    push_lit(&mut out, "\"email\":");
    push_str_text(&mut out, c.email.as_str());
    proof {
        lemma_append_field(before, ',', "\"email\":"@, str_text(cv.email), tail_fullname(cv));
    }
    let ghost before = out@;
    out.push(',');
    push_lit(&mut out, "\"fullname\":");
    push_str_text(&mut out, c.fullname.as_str());
    proof {
        lemma_append_field(
            before,
            ',',
            "\"fullname\":"@,
            str_text(cv.fullname),
            tail_disabled_login(cv),
        );
    }
    let ghost before = out@;
    out.push(',');
    push_lit(&mut out, "\"disabled_login\":");
    push_bool(&mut out, c.disabled_login);
    proof {
        lemma_append_field(
            before,
            ',',
            "\"disabled_login\":"@,
            bool_text(cv.disabled_login),
            tail_expired_token(cv),
        );
    }
    let ghost before = out@;
    out.push(',');
    push_lit(&mut out, "\"expired_token\":");
    push_int(&mut out, c.expired_token as i64);
    proof {
        lemma_append_field(
            before,
            ',',
            "\"expired_token\":"@,
            int_text(cv.expired_token as int),
            tail_expired_date(cv),
        );
    }
    let ghost before = out@;
    out.push(',');
    push_lit(&mut out, "\"expired_date\":");
    push_str_text(&mut out, c.expired_date.as_str());
    proof {
        lemma_append_field(
            before,
            ',',
            "\"expired_date\":"@,
            str_text(cv.expired_date),
            tail_register_date(cv),
        );
    }
    let ghost before = out@;
    out.push(',');
    push_lit(&mut out, "\"register_date\":");
    push_int(&mut out, c.register_date as i64);
    proof {
        lemma_append_field(
            before,
            ',',
            "\"register_date\":"@,
            int_text(cv.register_date as int),
            tail_exp(cv),
        );
    }
    let ghost before = out@;
    out.push(',');
    push_lit(&mut out, "\"exp\":");
    push_int(&mut out, c.exp as i64);
    proof {
        lemma_append_field(before, ',', "\"exp\":"@, int_text(cv.exp as int), tail_picture(cv));
    }
    let ghost before = out@;
    out.push(',');
    push_lit(&mut out, "\"picture\":");
    push_opt(&mut out, &c.picture);
    proof {
        lemma_append_field(before, ',', "\"picture\":"@, opt_text(cv.picture), tail_comp_name(cv));
    }
    let ghost before = out@;
    out.push(',');
    push_lit(&mut out, "\"comp_name\":");
    push_opt(&mut out, &c.comp_name);
    proof {
        lemma_append_field(
            before,
            ',',
            "\"comp_name\":"@,
            opt_text(cv.comp_name),
            tail_ip_address(cv),
        );
    }
    let ghost before = out@;
    out.push(',');
    push_lit(&mut out, "\"ip_address\":");
    push_opt(&mut out, &c.ip_address);
    proof {
        lemma_append_field(
            before,
            ',',
            "\"ip_address\":"@,
            opt_text(cv.ip_address),
            tail_app_name(cv),
        );
    }
    let ghost before = out@;
    out.push(',');
    push_lit(&mut out, "\"app_name\":");
    push_opt(&mut out, &c.app_name);
    proof {
        lemma_append_field(before, ',', "\"app_name\":"@, opt_text(cv.app_name), seq!['}']);
    }
    let ghost before = out@;
    out.push('}');
    assert(out@ == before + seq!['}']);
    string_from_chars(&out)
}

/// Reads claims back from their canonical JSON text; any other text is
/// refused.
pub fn claims_from_text(text: &str) -> (r: Option<Claims>)
    ensures
        r matches Some(c) ==> claims_text(c@) == text@,
        forall|c: ClaimsView| #[trigger] claims_text(c) == text@ ==> (r matches Some(d) && d@ == c),
{
    let s = chars_of(text);
    let p0: usize = 0;
    assert(rest_of(s@, 0) =~= s@);
    let (v_result, p1) = match parse_bool_field(&s, p0, '{', "\"result\":") {
        Some(x) => x,
        None => {
            proof {
                assert forall|c: ClaimsView| #[trigger] claims_text(c) == text@ implies false by {
                    assert(rest_of(s@, p0 as int) == key_text('{', "\"result\":"@) + (
                        bool_text(c.result) + tail_usernid(c)));
                }
            }
            return None;
        },
    };
    proof {
        assert forall|c: ClaimsView| #[trigger] claims_text(c) == text@ implies {
            &&& rest_of(s@, p1 as int) == tail_usernid(c)
            &&& v_result == c.result
        } by {
            assert(rest_of(s@, p0 as int) == key_text('{', "\"result\":"@) + (
                bool_text(c.result) + tail_usernid(c)));
        }
    }
    let (v_usernid, p2) = match parse_int_field(&s, p1, ',', "\"usernid\":") {
        Some(x) => x,
        None => {
            proof {
                assert forall|c: ClaimsView| #[trigger] claims_text(c) == text@ implies false by {
                    assert(rest_of(s@, p1 as int) == key_text(',', "\"usernid\":"@) + (
                        int_text(c.usernid as int) + tail_email(c)));
                }
            }
            return None;
        },
    };
    if v_usernid < -2147483648i64 || v_usernid > 2147483647i64 {
        proof {
            assert forall|c: ClaimsView| #[trigger] claims_text(c) == text@ implies false by {
                assert(rest_of(s@, p1 as int) == key_text(',', "\"usernid\":"@) + (
                    int_text(c.usernid as int) + tail_email(c)));
            }
        }
        return None;
    }
    proof {
        assert forall|c: ClaimsView| #[trigger] claims_text(c) == text@ implies {
            &&& rest_of(s@, p2 as int) == tail_email(c)
            &&& v_usernid == c.usernid
        } by {
            assert(rest_of(s@, p1 as int) == key_text(',', "\"usernid\":"@) + (
                int_text(c.usernid as int) + tail_email(c)));
        }
    }
    let (v_email, p3) = match parse_str_field(&s, p2, ',', "\"email\":") {
        Some(x) => x,
        None => {
            proof {
                assert forall|c: ClaimsView| #[trigger] claims_text(c) == text@ implies false by {
                    assert(rest_of(s@, p2 as int) == key_text(',', "\"email\":"@) + (
                        str_text(c.email) + tail_fullname(c)));
                }
            }
            return None;
        },
    };
    proof {
        assert forall|c: ClaimsView| #[trigger] claims_text(c) == text@ implies {
            &&& rest_of(s@, p3 as int) == tail_fullname(c)
            &&& v_email@ == c.email
        } by {
            assert(rest_of(s@, p2 as int) == key_text(',', "\"email\":"@) + (
                str_text(c.email) + tail_fullname(c)));
        }
    }
    let (v_fullname, p4) = match parse_str_field(&s, p3, ',', "\"fullname\":") {
        Some(x) => x,
        None => {
            proof {
                assert forall|c: ClaimsView| #[trigger] claims_text(c) == text@ implies false by {
                    assert(rest_of(s@, p3 as int) == key_text(',', "\"fullname\":"@) + (
                        str_text(c.fullname) + tail_disabled_login(c)));
                }
            }
            return None;
        },
    };
    proof {
        assert forall|c: ClaimsView| #[trigger] claims_text(c) == text@ implies {
            &&& rest_of(s@, p4 as int) == tail_disabled_login(c)
            &&& v_fullname@ == c.fullname
        } by {
            assert(rest_of(s@, p3 as int) == key_text(',', "\"fullname\":"@) + (
                str_text(c.fullname) + tail_disabled_login(c)));
        }
    }
    let (v_disabled_login, p5) = match parse_bool_field(&s, p4, ',', "\"disabled_login\":") {
        Some(x) => x,
        None => {
            proof {
                assert forall|c: ClaimsView| #[trigger] claims_text(c) == text@ implies false by {
                    assert(rest_of(s@, p4 as int) == key_text(',', "\"disabled_login\":"@) + (
                        bool_text(c.disabled_login) + tail_expired_token(c)));
                }
            }
            return None;
        },
    };
    proof {
        assert forall|c: ClaimsView| #[trigger] claims_text(c) == text@ implies {
            &&& rest_of(s@, p5 as int) == tail_expired_token(c)
            &&& v_disabled_login == c.disabled_login
        } by {
            assert(rest_of(s@, p4 as int) == key_text(',', "\"disabled_login\":"@) + (
                bool_text(c.disabled_login) + tail_expired_token(c)));
        }
    }
    let (v_expired_token, p6) = match parse_int_field(&s, p5, ',', "\"expired_token\":") {
        Some(x) => x,
        None => {
            proof {
                assert forall|c: ClaimsView| #[trigger] claims_text(c) == text@ implies false by {
                    assert(rest_of(s@, p5 as int) == key_text(',', "\"expired_token\":"@) + (
                        int_text(c.expired_token as int) + tail_expired_date(c)));
                }
            }
            return None;
        },
    };
    proof {
        assert forall|c: ClaimsView| #[trigger] claims_text(c) == text@ implies {
            &&& rest_of(s@, p6 as int) == tail_expired_date(c)
            &&& v_expired_token == c.expired_token
        } by {
            assert(rest_of(s@, p5 as int) == key_text(',', "\"expired_token\":"@) + (
                int_text(c.expired_token as int) + tail_expired_date(c)));
        }
    }
    let (v_expired_date, p7) = match parse_str_field(&s, p6, ',', "\"expired_date\":") {
        Some(x) => x,
        None => {
            proof {
                assert forall|c: ClaimsView| #[trigger] claims_text(c) == text@ implies false by {
                    assert(rest_of(s@, p6 as int) == key_text(',', "\"expired_date\":"@) + (
                        str_text(c.expired_date) + tail_register_date(c)));
                }
            }
            return None;
        },
    };
    proof {
        assert forall|c: ClaimsView| #[trigger] claims_text(c) == text@ implies {
            &&& rest_of(s@, p7 as int) == tail_register_date(c)
            &&& v_expired_date@ == c.expired_date
        } by {
            assert(rest_of(s@, p6 as int) == key_text(',', "\"expired_date\":"@) + (
                str_text(c.expired_date) + tail_register_date(c)));
        }
    }
    let (v_register_date, p8) = match parse_int_field(&s, p7, ',', "\"register_date\":") {
        Some(x) => x,
        None => {
            proof {
                assert forall|c: ClaimsView| #[trigger] claims_text(c) == text@ implies false by {
                    assert(rest_of(s@, p7 as int) == key_text(',', "\"register_date\":"@) + (
                        int_text(c.register_date as int) + tail_exp(c)));
                }
            }
            return None;
        },
    };
    proof {
        assert forall|c: ClaimsView| #[trigger] claims_text(c) == text@ implies {
            &&& rest_of(s@, p8 as int) == tail_exp(c)
            &&& v_register_date == c.register_date
        } by {
            assert(rest_of(s@, p7 as int) == key_text(',', "\"register_date\":"@) + (
                int_text(c.register_date as int) + tail_exp(c)));
        }
    }
    let (v_exp, p9) = match parse_int_field(&s, p8, ',', "\"exp\":") {
        Some(x) => x,
        None => {
            proof {
                assert forall|c: ClaimsView| #[trigger] claims_text(c) == text@ implies false by {
                    assert(rest_of(s@, p8 as int) == key_text(',', "\"exp\":"@) + (
                        int_text(c.exp as int) + tail_picture(c)));
                }
            }
            return None;
        },
    };
    proof {
        assert forall|c: ClaimsView| #[trigger] claims_text(c) == text@ implies {
            &&& rest_of(s@, p9 as int) == tail_picture(c)
            &&& v_exp == c.exp
        } by {
            assert(rest_of(s@, p8 as int) == key_text(',', "\"exp\":"@) + (
                int_text(c.exp as int) + tail_picture(c)));
        }
    }
    let (v_picture, p10) = match parse_opt_field(&s, p9, ',', "\"picture\":") {
        Some(x) => x,
        None => {
            proof {
                assert forall|c: ClaimsView| #[trigger] claims_text(c) == text@ implies false by {
                    assert(rest_of(s@, p9 as int) == key_text(',', "\"picture\":"@) + (
                        opt_text(c.picture) + tail_comp_name(c)));
                }
            }
            return None;
        },
    };
    proof {
        assert forall|c: ClaimsView| #[trigger] claims_text(c) == text@ implies {
            &&& rest_of(s@, p10 as int) == tail_comp_name(c)
            &&& opt_view(v_picture) == c.picture
        } by {
            assert(rest_of(s@, p9 as int) == key_text(',', "\"picture\":"@) + (
                opt_text(c.picture) + tail_comp_name(c)));
        }
    }
    let (v_comp_name, p11) = match parse_opt_field(&s, p10, ',', "\"comp_name\":") {
        Some(x) => x,
        None => {
            proof {
                assert forall|c: ClaimsView| #[trigger] claims_text(c) == text@ implies false by {
                    assert(rest_of(s@, p10 as int) == key_text(',', "\"comp_name\":"@) + (
                        opt_text(c.comp_name) + tail_ip_address(c)));
                }
            }
            return None;
        },
    };
    proof {
        assert forall|c: ClaimsView| #[trigger] claims_text(c) == text@ implies {
            &&& rest_of(s@, p11 as int) == tail_ip_address(c)
            &&& opt_view(v_comp_name) == c.comp_name
        } by {
            assert(rest_of(s@, p10 as int) == key_text(',', "\"comp_name\":"@) + (
                opt_text(c.comp_name) + tail_ip_address(c)));
        }
    }
    let (v_ip_address, p12) = match parse_opt_field(&s, p11, ',', "\"ip_address\":") {
        Some(x) => x,
        None => {
            proof {
                assert forall|c: ClaimsView| #[trigger] claims_text(c) == text@ implies false by {
                    assert(rest_of(s@, p11 as int) == key_text(',', "\"ip_address\":"@) + (
                        opt_text(c.ip_address) + tail_app_name(c)));
                }
            }
            return None;
        },
    };
    proof {
        assert forall|c: ClaimsView| #[trigger] claims_text(c) == text@ implies {
            &&& rest_of(s@, p12 as int) == tail_app_name(c)
            &&& opt_view(v_ip_address) == c.ip_address
        } by {
            assert(rest_of(s@, p11 as int) == key_text(',', "\"ip_address\":"@) + (
                opt_text(c.ip_address) + tail_app_name(c)));
        }
    }
    let (v_app_name, p13) = match parse_opt_field(&s, p12, ',', "\"app_name\":") {
        Some(x) => x,
        None => {
            proof {
                assert forall|c: ClaimsView| #[trigger] claims_text(c) == text@ implies false by {
                    assert(rest_of(s@, p12 as int) == key_text(',', "\"app_name\":"@) + (
                        opt_text(c.app_name) + seq!['}']));
                }
            }
            return None;
        },
    };
    proof {
        assert forall|c: ClaimsView| #[trigger] claims_text(c) == text@ implies {
            &&& rest_of(s@, p13 as int) == seq!['}']
            &&& opt_view(v_app_name) == c.app_name
        } by {
            assert(rest_of(s@, p12 as int) == key_text(',', "\"app_name\":"@) + (
                opt_text(c.app_name) + seq!['}']));
        }
    }
    let end = match parse_char(&s, p13, '}') {
        Some(e) => e,
        None => {
            proof {
                assert forall|c: ClaimsView| #[trigger] claims_text(c) == text@ implies false by {
                    assert(rest_of(s@, p13 as int) == seq!['}']);
                    assert(rest_of(s@, p13 as int)[0] == s@[p13 as int]);
                }
            }
            return None;
        },
    };
    if end != s.len() {
        proof {
            assert forall|c: ClaimsView| #[trigger] claims_text(c) == text@ implies false by {
                assert(rest_of(s@, p13 as int) == seq!['}']);
            }
        }
        return None;
    }
    let c = Claims {
        result: v_result,
        usernid: v_usernid as i32,
        email: v_email,
        fullname: v_fullname,
        disabled_login: v_disabled_login,
        expired_token: v_expired_token,
        expired_date: v_expired_date,
        register_date: v_register_date,
        exp: v_exp,
        picture: v_picture,
        comp_name: v_comp_name,
        ip_address: v_ip_address,
        app_name: v_app_name,
    };
    proof {
        let cv = c@;
        assert(rest_of(s@, p13 as int) =~= seq!['}']);
        assert(rest_of(s@, p12 as int) == tail_app_name(cv));
        assert(rest_of(s@, p11 as int) == tail_ip_address(cv));
        assert(rest_of(s@, p10 as int) == tail_comp_name(cv));
        assert(rest_of(s@, p9 as int) == tail_picture(cv));
        assert(rest_of(s@, p8 as int) == tail_exp(cv));
        assert(rest_of(s@, p7 as int) == tail_register_date(cv));
        assert(rest_of(s@, p6 as int) == tail_expired_date(cv));
        assert(rest_of(s@, p5 as int) == tail_expired_token(cv));
        assert(rest_of(s@, p4 as int) == tail_disabled_login(cv));
        assert(rest_of(s@, p3 as int) == tail_fullname(cv));
        assert(rest_of(s@, p2 as int) == tail_email(cv));
        assert(rest_of(s@, p1 as int) == tail_usernid(cv));
        assert(rest_of(s@, p0 as int) == tail_result(cv));
    }
    Some(c)
}

} // verus!

verus! {

/// How long an issued token stays valid: two days.
pub const TOKEN_LIFETIME_SECS: i64 = 172800;

/// `c` with the expiry fields set for a token issued at `now`; every other
/// field is kept.
pub open spec fn stamped(c: ClaimsView, now: int) -> ClaimsView {
    ClaimsView {
        expired_token: (now + TOKEN_LIFETIME_SECS) as i64,
        expired_date: utc_text_or_empty(now + TOKEN_LIFETIME_SECS),
        exp: (now + TOKEN_LIFETIME_SECS) as i64,
        ..c
    }
}

/// Issuing changes only the expiry fields: stamped claims equal the original
/// claims in every other field, and expire after the issuing time.
pub proof fn lemma_stamped_keeps_identity(c: ClaimsView, now: int)
    requires
        i64::MIN <= now <= i64::MAX - TOKEN_LIFETIME_SECS,
    ensures
        ({
            let s = stamped(c, now);
            &&& s.result == c.result
            &&& s.usernid == c.usernid
            &&& s.email == c.email
            &&& s.fullname == c.fullname
            &&& s.disabled_login == c.disabled_login
            &&& s.register_date == c.register_date
            &&& s.picture == c.picture
            &&& s.comp_name == c.comp_name
            &&& s.ip_address == c.ip_address
            &&& s.app_name == c.app_name
            &&& s.exp > now
            &&& s.expired_token == s.exp
        }),
{
}

impl Claims {
    /// The claims of `user` stamped with an expiry `TOKEN_LIFETIME_SECS` after
    /// `now`.
    pub fn new(user: Claims, now: i64) -> (r: Claims)
        requires
            now <= i64::MAX - TOKEN_LIFETIME_SECS,
        ensures
            r@ == stamped(user@, now as int),
    {
        let expiry = now + TOKEN_LIFETIME_SECS;
        Claims {
            expired_token: expiry,
            expired_date: utc_date_text(expiry),
            exp: expiry,
            ..user
        }
    }
}

} // verus!

verus! {

impl Claims {
    /// A field-by-field copy.
    pub fn clone_claims(&self) -> (r: Claims)
        ensures
            r@ == self@,
    {
        Claims {
            result: self.result,
            usernid: self.usernid,
            email: self.email.clone(),
            fullname: self.fullname.clone(),
            disabled_login: self.disabled_login,
            expired_token: self.expired_token,
            expired_date: self.expired_date.clone(),
            register_date: self.register_date,
            exp: self.exp,
            picture: clone_opt(&self.picture),
            comp_name: clone_opt(&self.comp_name),
            ip_address: clone_opt(&self.ip_address),
            app_name: clone_opt(&self.app_name),
        }
    }
}

pub fn clone_opt(o: &Option<String>) -> (r: Option<String>)
    ensures
        opt_view(r) == opt_view(*o),
{
    match o {
        Some(s) => Some(s.clone()),
        None => None,
    }
}

} // verus!
