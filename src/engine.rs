//! The session consistency engine: decides, for every login, session-check
//! and logout call, whether to create, refresh, reject, delete, or ask for
//! confirmation, from the account's current session record.
use vstd::prelude::*;
use crate::claims::{Claims, ClaimsView};
use crate::error::AuthError;
use crate::session::{touched, RecordView, SessionRecord, SessionStore};
use crate::text::{opt_view, push_lit, same_text, string_from_chars};
use crate::time::{utc_date_text, utc_text_or_empty};
use crate::token::{token_outcome, validate_jwt};

verus! {

/// What the caller asks of the engine.
#[derive(Debug, Clone, Copy, PartialEq, Eq, Structural)]
pub enum Intent {
    /// A login that has just produced a token for the account.
    LoginCreate,
    /// A call that presents an existing session token.
    CheckExisting,
    /// The end of the account's session.
    Logout,
}

/// Process-wide settings, built once at startup and passed by reference.
#[derive(Debug, Clone)]
pub struct AuthConfig {
    /// HS256 signing secret for tokens.
    pub jwt_secret: Vec<u8>,
    /// AES-256 key (32 bytes) for password ciphertexts.
    pub crypto_secret: Vec<u8>,
    /// How long after its last activity a session still counts as fresh.
    pub freshness_window_secs: i64,
}

/// A login that met a still-fresh session of the same account.
#[derive(Debug, Clone, PartialEq, Eq)]
pub struct Conflict {
    /// The claims of the existing session's token, when that token verifies.
    pub existing: Option<Claims>,
    pub device: String,
    pub ip_address: String,
    pub last_activity: i64,
    /// Human-readable description naming the other device and address.
    pub message: String,
}

pub struct ConflictView {
    pub existing: Option<ClaimsView>,
    pub device: Seq<char>,
    pub ip_address: Seq<char>,
    pub last_activity: i64,
    pub message: Seq<char>,
}

impl View for Conflict {
    type V = ConflictView;

    open spec fn view(&self) -> ConflictView {
        ConflictView {
            existing: match self.existing {
                Some(c) => Some(c@),
                None => None,
            },
            device: self.device@,
            ip_address: self.ip_address@,
            last_activity: self.last_activity,
            message: self.message@,
        }
    }
}

/// A successful result of a reconcile call.
#[derive(Debug, Clone, PartialEq, Eq)]
pub enum Outcome {
    Authenticated(Claims),
    ConfirmationRequired(Conflict),
    LoggedOut,
}

pub enum OutcomeView {
    Authenticated(ClaimsView),
    ConfirmationRequired(ConflictView),
    LoggedOut,
}

impl View for Outcome {
    type V = OutcomeView;

    open spec fn view(&self) -> OutcomeView {
        match self {
            Outcome::Authenticated(c) => OutcomeView::Authenticated(c@),
            Outcome::ConfirmationRequired(k) => OutcomeView::ConfirmationRequired(k@),
            Outcome::LoggedOut => OutcomeView::LoggedOut,
        }
    }
}

pub open spec fn result_view(r: Result<Outcome, AuthError>) -> Result<OutcomeView, AuthError> {
    match r {
        Ok(o) => Ok(o@),
        Err(e) => Err(e),
    }
}

/// The write a reconcile call makes to the session store.
#[derive(Debug, Clone, PartialEq, Eq)]
pub enum StoreAction {
    Keep,
    Upsert(SessionRecord),
    Touch(i32, i64),
    Delete(i32),
}

pub enum ActionView {
    Keep,
    Upsert(RecordView),
    Touch(i32, i64),
    Delete(i32),
}

impl View for StoreAction {
    type V = ActionView;

    open spec fn view(&self) -> ActionView {
        match self {
            StoreAction::Keep => ActionView::Keep,
            StoreAction::Upsert(r) => ActionView::Upsert(r@),
            StoreAction::Touch(id, t) => ActionView::Touch(*id, *t),
            StoreAction::Delete(id) => ActionView::Delete(*id),
        }
    }
}

pub open spec fn apply_action(m: Map<i32, RecordView>, a: ActionView) -> Map<i32, RecordView> {
    match a {
        ActionView::Keep => m,
        ActionView::Upsert(r) => m.insert(r.account_id, r),
        ActionView::Touch(id, t) => if m.contains_key(id) {
            m.insert(id, touched(m[id], t))
        } else {
            m
        },
        ActionView::Delete(id) => m.remove(id),
    }
}

/// The token a call stands for: the cookie token when one is given, else the
/// presented one.
pub open spec fn active_token(presented: Seq<char>, cookie: Seq<char>) -> Seq<char> {
    if cookie.len() == 0 {
        presented
    } else {
        cookie
    }
}

/// A record with an empty token counts as no record.
pub open spec fn live(existing: Option<RecordView>) -> Option<RecordView> {
    match existing {
        Some(r) => if r.token.len() > 0 {
            Some(r)
        } else {
            None
        },
        None => None,
    }
}

/// Ties count as fresh: the existing session is protected. A last activity
/// at or after `now` is always fresh, whatever the window.
pub open spec fn is_fresh(r: RecordView, now: int, window: int) -> bool {
    now - r.last_activity <= window || r.last_activity >= now
}

pub open spec fn or_empty(o: Option<Seq<char>>) -> Seq<char> {
    match o {
        Some(s) => s,
        None => Seq::empty(),
    }
}

pub open spec fn new_record(c: ClaimsView, token: Seq<char>, now: i64) -> RecordView {
    RecordView {
        account_id: c.usernid,
        token,
        last_activity: now,
        device: or_empty(c.comp_name),
        ip_address: or_empty(c.ip_address),
        app_name: or_empty(c.app_name),
    }
}

pub open spec fn conflict_message(
    email: Seq<char>,
    device: Seq<char>,
    ip: Seq<char>,
    when: Seq<char>,
) -> Seq<char> {
    "This user ("@ + email + ") is already logged in from "@ + device + " (IP: "@ + ip
        + ", last activity: "@ + when + "). Continue and end that session?"@
}

pub open spec fn conflict_of(c: ClaimsView, r: RecordView, key: Seq<u8>, now: int) -> ConflictView {
    ConflictView {
        existing: match token_outcome(r.token, key, now) {
            Ok(x) => Some(x),
            Err(_) => None,
        },
        device: r.device,
        ip_address: r.ip_address,
        last_activity: r.last_activity,
        message: conflict_message(
            c.email,
            r.device,
            r.ip_address,
            utc_text_or_empty(r.last_activity as int),
        ),
    }
}

/// The decision for one call, given the account's current record.
pub open spec fn plan_spec(
    existing: Option<RecordView>,
    key: Seq<u8>,
    window: int,
    c: ClaimsView,
    presented: Seq<char>,
    cookie: Seq<char>,
    intent: Intent,
    override_existing: bool,
    now: i64,
) -> (Result<OutcomeView, AuthError>, ActionView) {
    let tok = active_token(presented, cookie);
    match intent {
        Intent::Logout => (Ok(OutcomeView::LoggedOut), ActionView::Delete(c.usernid)),
        Intent::CheckExisting => match live(existing) {
            Some(r) => if r.token == tok {
                (Ok(OutcomeView::Authenticated(c)), ActionView::Touch(c.usernid, now))
            } else {
                (Err(AuthError::SessionExpired), ActionView::Keep)
            },
            None => (Err(AuthError::SessionExpired), ActionView::Keep),
        },
        Intent::LoginCreate => if tok.len() == 0 {
            (Err(AuthError::InvalidSignature), ActionView::Keep)
        } else {
            match live(existing) {
                Some(r) => if r.token == tok || override_existing || !is_fresh(
                    r,
                    now as int,
                    window,
                ) {
                    (
                        Ok(OutcomeView::Authenticated(c)),
                        ActionView::Upsert(new_record(c, tok, now)),
                    )
                } else {
                    (
                        Ok(OutcomeView::ConfirmationRequired(conflict_of(c, r, key, now as int))),
                        ActionView::Keep,
                    )
                },
                None => (
                    Ok(OutcomeView::Authenticated(c)),
                    ActionView::Upsert(new_record(c, tok, now)),
                ),
            }
        },
    }
}

/// A reconcile call on a whole store: the outcome and the store after it.
pub open spec fn reconcile_spec(
    m: Map<i32, RecordView>,
    key: Seq<u8>,
    window: int,
    c: ClaimsView,
    presented: Seq<char>,
    cookie: Seq<char>,
    intent: Intent,
    override_existing: bool,
    now: i64,
) -> (Result<OutcomeView, AuthError>, Map<i32, RecordView>) {
    let p = plan_spec(
        m.get(c.usernid),
        key,
        window,
        c,
        presented,
        cookie,
        intent,
        override_existing,
        now,
    );
    (p.0, apply_action(m, p.1))
}

pub fn text_or_empty(o: &Option<String>) -> (r: String)
    ensures
        r@ == or_empty(opt_view(*o)),
{
    match o {
        Some(s) => s.clone(),
        None => String::new(),
    }
}

fn build_conflict(claims: &Claims, rec: &SessionRecord, config: &AuthConfig, now: i64) -> (r: Conflict)
    ensures
        r@ == conflict_of(claims@, rec@, config.jwt_secret@, now as int),
{
    let existing = match validate_jwt(rec.token.as_str(), config.jwt_secret.as_slice(), now) {
        Ok(c) => Some(c),
        Err(_) => None,
    };
    let when = utc_date_text(rec.last_activity);
    let mut out: Vec<char> = Vec::new();
    push_lit(&mut out, "This user (");
    push_lit(&mut out, claims.email.as_str());
    push_lit(&mut out, ") is already logged in from ");
    push_lit(&mut out, rec.device.as_str());
    push_lit(&mut out, " (IP: ");
    push_lit(&mut out, rec.ip_address.as_str());
    push_lit(&mut out, ", last activity: ");
    push_lit(&mut out, when.as_str());
    push_lit(&mut out, "). Continue and end that session?");
    Conflict {
        existing,
        device: rec.device.clone(),
        ip_address: rec.ip_address.clone(),
        last_activity: rec.last_activity,
        message: string_from_chars(&out),
    }
}

fn make_record(claims: &Claims, token: &str, now: i64) -> (r: SessionRecord)
    ensures
        r@ == new_record(claims@, token@, now),
{
    SessionRecord {
        account_id: claims.usernid,
        token: token.to_string(),
        last_activity: now,
        device: text_or_empty(&claims.comp_name),
        ip_address: text_or_empty(&claims.ip_address),
        app_name: text_or_empty(&claims.app_name),
    }
}

/// Decides one call from the account's current record `existing`, without
/// touching any store: the outcome to return and the single write to make.
pub fn plan(
    existing: Option<&SessionRecord>,
    config: &AuthConfig,
    claims: &Claims,
    presented_token: &str,
    cookie_token: &str,
    intent: Intent,
    override_existing: bool,
    now: i64,
) -> (r: (Result<Outcome, AuthError>, StoreAction))
    ensures
        ({
            let p = plan_spec(
                match existing {
                    Some(e) => Some(e@),
                    None => None,
                },
                config.jwt_secret@,
                config.freshness_window_secs as int,
                claims@,
                presented_token@,
                cookie_token@,
                intent,
                override_existing,
                now,
            );
            result_view(r.0) == p.0 && r.1@ == p.1
        }),
{
    let tok: &str = if cookie_token.unicode_len() == 0 {
        presented_token
    } else {
        cookie_token
    };
    let live_rec: Option<&SessionRecord> = match existing {
        Some(e) => if e.token.as_str().unicode_len() > 0 {
            Some(e)
        } else {
            None
        },
        None => None,
    };
    match intent {
        Intent::Logout => (Ok(Outcome::LoggedOut), StoreAction::Delete(claims.usernid)),
        Intent::CheckExisting => match live_rec {
            Some(r) => if same_text(r.token.as_str(), tok) {
                (
                    Ok(Outcome::Authenticated(claims.clone_claims())),
                    StoreAction::Touch(claims.usernid, now),
                )
            } else {
                (Err(AuthError::SessionExpired), StoreAction::Keep)
            },
            None => (Err(AuthError::SessionExpired), StoreAction::Keep),
        },
        Intent::LoginCreate => {
            if tok.unicode_len() == 0 {
                return (Err(AuthError::InvalidSignature), StoreAction::Keep);
            }
            match live_rec {
                Some(r) => {
                    let idle = (now as i128) - (r.last_activity as i128);
                    if same_text(r.token.as_str(), tok) || override_existing || (idle > (
                    config.freshness_window_secs as i128) && idle > 0) {
                        (
                            Ok(Outcome::Authenticated(claims.clone_claims())),
                            StoreAction::Upsert(make_record(claims, tok, now)),
                        )
                    } else {
                        (
                            Ok(Outcome::ConfirmationRequired(build_conflict(claims, r, config, now))),
                            StoreAction::Keep,
                        )
                    }
                },
                None => (
                    Ok(Outcome::Authenticated(claims.clone_claims())),
                    StoreAction::Upsert(make_record(claims, tok, now)),
                ),
            }
        },
    }
}

/// Makes the write that `plan` chose.
pub fn apply(store: &mut SessionStore, action: StoreAction)
    requires
        old(store).wf(),
    ensures
        final(store).wf(),
        final(store)@ == apply_action(old(store)@, action@),
{
    match action {
        StoreAction::Keep => {},
        StoreAction::Upsert(r) => store.upsert(r),
        StoreAction::Touch(id, t) => store.touch(id, t),
        StoreAction::Delete(id) => store.delete(id),
    }
}

/// Entry points of the authentication core.
pub struct AuthService;

impl AuthService {
    /// Reconciles one login, session-check or logout call for `claims`'s account
    /// against `store`, all in one step: nothing else can act on the store
    /// between the read and the write.
    pub fn check_session(
        store: &mut SessionStore,
        config: &AuthConfig,
        claims: &Claims,
        presented_token: &str,
        cookie_token: &str,
        intent: Intent,
        override_existing: bool,
        now: i64,
    ) -> (r: Result<Outcome, AuthError>)
        requires
            old(store).wf(),
        ensures
            final(store).wf(),
            ({
                let s = reconcile_spec(
                    old(store)@,
                    config.jwt_secret@,
                    config.freshness_window_secs as int,
                    claims@,
                    presented_token@,
                    cookie_token@,
                    intent,
                    override_existing,
                    now,
                );
                result_view(r) == s.0 && final(store)@ == s.1
            }),
    {
        let existing = store.find(claims.usernid);
        let (out, action) = match &existing {
            Some(e) => plan(
                Some(e),
                config,
                claims,
                presented_token,
                cookie_token,
                intent,
                override_existing,
                now,
            ),
            None => plan(
                None,
                config,
                claims,
                presented_token,
                cookie_token,
                intent,
                override_existing,
                now,
            ),
        };
        apply(store, action);
        out
    }
}

/// Logging out is idempotent: whatever the store holds, a logout yields
/// `LoggedOut` and leaves no record for the account, and a second logout
/// yields `LoggedOut` again and leaves the store as the first one left it.
pub proof fn lemma_logout_idempotent(
    m: Map<i32, RecordView>,
    key: Seq<u8>,
    window: int,
    c: ClaimsView,
    presented: Seq<char>,
    cookie: Seq<char>,
    override_existing: bool,
    now1: i64,
    now2: i64,
)
    ensures
        ({
            let first = reconcile_spec(
                m,
                key,
                window,
                c,
                presented,
                cookie,
                Intent::Logout,
                override_existing,
                now1,
            );
            let second = reconcile_spec(
                first.1,
                key,
                window,
                c,
                presented,
                cookie,
                Intent::Logout,
                override_existing,
                now2,
            );
            &&& first.0 == Ok::<OutcomeView, AuthError>(OutcomeView::LoggedOut)
            &&& !first.1.contains_key(c.usernid)
            &&& second.0 == Ok::<OutcomeView, AuthError>(OutcomeView::LoggedOut)
            &&& second.1 == first.1
        }),
{
    let m1 = m.remove(c.usernid);
    assert(m1.remove(c.usernid) =~= m1);
}

/// Two logins for one account, made one after the other, never both install
/// their tokens while the first session is still fresh: once the first has
/// been authenticated, a second one with another token, within the freshness
/// window and without an override, leaves the store exactly as the first
/// left it and is not authenticated; with a non-empty token it is asked for
/// confirmation.
pub proof fn lemma_no_divergent_logins(
    m: Map<i32, RecordView>,
    key: Seq<u8>,
    window: int,
    c1: ClaimsView,
    c2: ClaimsView,
    presented1: Seq<char>,
    cookie1: Seq<char>,
    presented2: Seq<char>,
    cookie2: Seq<char>,
    now1: i64,
    now2: i64,
)
    requires
        c1.usernid == c2.usernid,
        now1 <= now2,
        now2 - now1 <= window,
        active_token(presented1, cookie1) != active_token(presented2, cookie2),
    ensures
        ({
            let first = reconcile_spec(
                m,
                key,
                window,
                c1,
                presented1,
                cookie1,
                Intent::LoginCreate,
                false,
                now1,
            );
            let second = reconcile_spec(
                first.1,
                key,
                window,
                c2,
                presented2,
                cookie2,
                Intent::LoginCreate,
                false,
                now2,
            );
            first.0 matches Ok(OutcomeView::Authenticated(_)) ==> {
                &&& second.1 == first.1
                &&& !(second.0 matches Ok(OutcomeView::Authenticated(_)))
                &&& active_token(presented2, cookie2).len() > 0 ==> second.0 matches Ok(
                    OutcomeView::ConfirmationRequired(_),
                )
            }
        }),
{
    let first = reconcile_spec(
        m,
        key,
        window,
        c1,
        presented1,
        cookie1,
        Intent::LoginCreate,
        false,
        now1,
    );
    if first.0 matches Ok(OutcomeView::Authenticated(_)) {
        let t1 = active_token(presented1, cookie1);
        let r = new_record(c1, t1, now1);
        assert(first.1 == m.insert(c1.usernid, r));
        assert(first.1.get(c2.usernid) == Some(r));
        assert(live(Some(r)) == Some(r));
    }
}

} // verus!

