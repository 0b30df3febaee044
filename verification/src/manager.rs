//! Login, signup and cookie authorization over the credential store, the
//! password hasher and the token protector.
//!
//! Every internal failure kind is mapped to one of the four error kinds
//! before returning: missing form fields are a bad request; an unknown
//! email and a wrong password are — deliberately indistinguishably — not
//! found, so the login path cannot be used to enumerate accounts; hashing,
//! crypto and store failures are internal errors; and a missing, invalid
//! or stale cookie on a protected page is unauthorized.

use vstd::prelude::*;

use crate::errors::Error;
use crate::hasher;
use crate::store::{
    has_email, has_session_id, is_user_row, CredentialStore, Session, User,
};
use crate::token::{cookie_sealed, pair_sealed, TokenProtector};

verus! {

/// The fixed time to live of a freshly minted session, in seconds (one
/// week).
pub const SESSION_TTL_SECONDS: i64 = 604800;

/// What `authorize` grants the caller for rendering protected pages: the
/// session's user and its stored CSRF comparison value.
pub struct SessionContext {
    pub user_id: u32,
    pub csrf_token: String,
}

/// The user row carrying `email` (unique by the store invariant;
/// meaningful only where `has_email` holds).
pub open spec fn email_user(users: Seq<User>, email: Seq<char>) -> User
    recommends
        has_email(users, email),
{
    users[choose|i: int| 0 <= i < users.len() && #[trigger] users[i].email@ == email]
}

/// The user's sessions were atomically replaced by the one fresh row:
/// the new row (holding the sealed-cookie identifier `sid` and a CSRF
/// token sealed as a pair with it) stands last, no other row belongs to
/// the user, and every other user's rows are exactly the ones that were
/// there before.
pub open spec fn session_replaced(
    pre: Seq<Session>,
    post: Seq<Session>,
    key: Seq<u8>,
    user_id: u32,
    sid: Seq<char>,
    now: i64,
) -> bool {
    &&& post.len() >= 1
    &&& post.last().id@ == sid
    &&& post.last().user_id == user_id
    &&& post.last().created_at == now
    &&& pair_sealed(key, post.last().csrf_token@, sid)
    &&& forall|j: int| #![auto] 0 <= j < post.len() - 1 ==> post[j].user_id != user_id
    &&& forall|j: int| #![auto] 0 <= j < post.len() - 1 ==> pre.contains(post[j])
    &&& forall|j: int| #![auto]
        0 <= j < pre.len() && pre[j].user_id != user_id ==> post.contains(pre[j])
}

/// Look the user up by email, verify the password under the pepper, mint
/// a fresh token pair and atomically replace the user's session with it.
/// A missing field is a bad request; an unknown email and a failed
/// password check are both, indistinguishably, not found; on success the
/// returned session identifier names the user's one live session, and
/// only crypto or store failures (reported as internal errors) stand in
/// the way.
pub fn handle_login(
    store: &mut CredentialStore,
    protector: &TokenProtector,
    pepper: &str,
    email: Option<&str>,
    password: Option<&str>,
    now: i64,
) -> (r: Result<String, Error>)
    requires
        old(store).wf(),
    ensures
        final(store).wf(),
        final(store).users@ == old(store).users@,
        final(store).next_user_id == old(store).next_user_id,
        (email is None || password is None) ==> r == Err::<String, Error>(Error::BadRequest)
            && final(store).sessions@ == old(store).sessions@,
        email matches Some(em) ==> password matches Some(pw) ==> {
            let users = old(store).users@;
            &&& !has_email(users, em@) ==> r == Err::<String, Error>(Error::NotFound) && final(store).sessions@ == old(store).sessions@
            &&& has_email(users, em@) && !hasher::password_matches(
                email_user(users, em@).hashed_password@,
                pepper@ + pw@,
            ) ==> r == Err::<String, Error>(Error::NotFound) && final(store).sessions@ == old(store).sessions@
            &&& has_email(users, em@) && hasher::password_matches(
                email_user(users, em@).hashed_password@,
                pepper@ + pw@,
            ) ==> match r {
                Ok(sid) => session_replaced(
                    old(store).sessions@,
                    final(store).sessions@,
                    protector.key(),
                    email_user(users, em@).id,
                    sid@,
                    now,
                ),
                Err(e) => e == Error::InternalServerError && final(store).sessions@ == old(store).sessions@,
            }
        },
{
    let em = match email {
        Some(e) => e,
        None => {
            return Err(Error::BadRequest);
        },
    };
    let pw = match password {
        Some(p) => p,
        None => {
            return Err(Error::BadRequest);
        },
    };
    let (user_id, stored_hash) = match store.get_user_by_email(em) {
        Some(u) => {
            proof {
                // The row found is the row `email_user` denotes: two rows
                // with one email would contradict uniqueness.
                let w = choose|w: int|
                    0 <= w < store.users@.len() && #[trigger] store.users@[w] == *u;
                let c = choose|c: int|
                    0 <= c < store.users@.len() && #[trigger] store.users@[c].email@ == em@;
                if w != c {
                    assert(store.users@[w].email@ != store.users@[c].email@);
                }
                assert(email_user(store.users@, em@) == *u);
            }
            (u.id, u.hashed_password.clone())
        },
        None => {
            return Err(Error::NotFound);
        },
    };
    if !hasher::verify_password(stored_hash.as_str(), pw, pepper) {
        return Err(Error::NotFound);
    }
    let pair = match protector.get_new_token_pair(SESSION_TTL_SECONDS) {
        Ok(p) => p,
        Err(e) => {
            return Err(e);
        },
    };
    let (csrf_token, sealed_cookie) = pair;
    match store.refresh_user_session(user_id, csrf_token.as_str(), sealed_cookie.as_str(), now) {
        Ok(sid) => Ok(sid),
        Err(e) => Err(e),
    }
}

/// The stores hold exactly the same rows and the same next identifier.
pub open spec fn store_unchanged(pre: CredentialStore, post: CredentialStore) -> bool {
    &&& post.users@ == pre.users@
    &&& post.sessions@ == pre.sessions@
    &&& post.next_user_id == pre.next_user_id
}

/// The store grew by exactly one user row and one session row for it:
/// the new user (with the next identifier, this email and handle, and a
/// hash matching the peppered password) stands last among the users, the
/// new session (identified by the sealed cookie `sid`, its CSRF token
/// sealed as a pair with it) stands last among the sessions, and all
/// rows that were there before are exactly preserved.
pub open spec fn user_created(
    pre: CredentialStore,
    post: CredentialStore,
    key: Seq<u8>,
    email: Seq<char>,
    handle: Seq<char>,
    pepper_pw: Seq<char>,
    sid: Seq<char>,
    now: i64,
) -> bool {
    &&& post.users@.len() == pre.users@.len() + 1
    &&& post.users@.subrange(0, pre.users@.len() as int) == pre.users@
    &&& is_user_row(
        post.users@.last(),
        pre.next_user_id,
        email,
        handle,
        post.users@.last().hashed_password@,
    )
    &&& hasher::password_matches(post.users@.last().hashed_password@, pepper_pw)
    &&& post.sessions@.len() == pre.sessions@.len() + 1
    &&& post.sessions@.subrange(0, pre.sessions@.len() as int) == pre.sessions@
    &&& post.sessions@.last().id@ == sid
    &&& post.sessions@.last().user_id == pre.next_user_id
    &&& post.sessions@.last().created_at == now
    &&& pair_sealed(key, post.sessions@.last().csrf_token@, sid)
    &&& post.next_user_id == pre.next_user_id + 1
}

/// Hash the password under the pepper, mint a fresh token pair, and
/// insert a new user row and its first session row in one step. A missing
/// field is a bad request; an already-taken email surfaces — like every
/// other store or crypto failure — as an internal error, leaving the
/// store untouched; on success the returned session identifier names the
/// new user's one session.
pub fn handle_signup(
    store: &mut CredentialStore,
    protector: &TokenProtector,
    pepper: &str,
    handle: Option<&str>,
    email: Option<&str>,
    password: Option<&str>,
    now: i64,
) -> (r: Result<String, Error>)
    requires
        old(store).wf(),
    ensures
        final(store).wf(),
        (handle is None || email is None || password is None) ==> r == Err::<String, Error>(
            Error::BadRequest,
        ) && store_unchanged(*old(store), *final(store)),
        handle matches Some(h) ==> email matches Some(em) ==> password matches Some(pw) ==> match r {
            Ok(sid) => {
                &&& !has_email(old(store).users@, em@)
                &&& user_created(
                    *old(store),
                    *final(store),
                    protector.key(),
                    em@,
                    h@,
                    pepper@ + pw@,
                    sid@,
                    now,
                )
            },
            Err(e) => {
                &&& e == Error::InternalServerError
                &&& store_unchanged(*old(store), *final(store))
            },
        },
        handle matches Some(h) ==> email matches Some(em) ==> password matches Some(pw)
            ==> has_email(old(store).users@, em@) ==> r == Err::<String, Error>(
            Error::InternalServerError,
        ),
{
    let h = match handle {
        Some(v) => v,
        None => {
            return Err(Error::BadRequest);
        },
    };
    let em = match email {
        Some(v) => v,
        None => {
            return Err(Error::BadRequest);
        },
    };
    let pw = match password {
        Some(v) => v,
        None => {
            return Err(Error::BadRequest);
        },
    };
    let hashed_pw = match hasher::get_new_hashed_password(pepper, pw) {
        Ok(v) => v,
        Err(e) => {
            return Err(e);
        },
    };
    let pair = match protector.get_new_token_pair(SESSION_TTL_SECONDS) {
        Ok(p) => p,
        Err(e) => {
            return Err(e);
        },
    };
    let (csrf_token, sealed_cookie) = pair;
    match store.create_new_user(
        em,
        h,
        hashed_pw.as_str(),
        csrf_token.as_str(),
        sealed_cookie.as_str(),
        now,
    ) {
        Ok(sid) => Ok(sid),
        Err(e) => Err(e),
    }
}

/// Admit a mutating request: authorize the cookie as for any protected
/// page, then enforce the double-submit check — the request-supplied CSRF
/// token must equal, character for character, the token stored with the
/// session row. A missing or differing submitted token is rejected as
/// unauthorized, exactly like a bad cookie; on success the caller gets
/// the same context `authorize` grants.
pub fn verify_csrf(
    store: &CredentialStore,
    protector: &TokenProtector,
    cookie: Option<&str>,
    submitted_token: Option<&str>,
) -> (r: Result<SessionContext, Error>)
    requires
        store.wf(),
    ensures
        match r {
            Ok(ctx) => {
                &&& cookie matches Some(c)
                &&& cookie_sealed(protector.key(), c@)
                &&& submitted_token matches Some(t) && t@ == ctx.csrf_token@
                &&& exists|i: int|
                    0 <= i < store.sessions@.len() && #[trigger] store.sessions@[i].id@ == c@
                        && store.sessions@[i].user_id == ctx.user_id
                        && store.sessions@[i].csrf_token@ == ctx.csrf_token@
            },
            Err(e) => e == Error::Unauthorized,
        },
        submitted_token is None ==> r is Err,
{
    let ctx = match authorize(store, protector, cookie) {
        Ok(ctx) => ctx,
        Err(e) => {
            return Err(e);
        },
    };
    let t = match submitted_token {
        Some(t) => t,
        None => {
            return Err(Error::Unauthorized);
        },
    };
    if crate::store::str_equal(ctx.csrf_token.as_str(), t) {
        Ok(ctx)
    } else {
        Err(Error::Unauthorized)
    }
}

/// Superseding a session revokes the old cookie at the store: once the
/// user's sessions were replaced by one fresh row with identifier `sid`,
/// a row `stale` that was live for that user under a different identifier
/// no longer exists under its identifier at all — so a stale cookie fails
/// authorization for want of a session row, even while its cryptographic
/// seal may still verify until its expiry.
pub proof fn lemma_superseded_session_gone(
    pre: Seq<Session>,
    post: Seq<Session>,
    key: Seq<u8>,
    user_id: u32,
    sid: Seq<char>,
    now: i64,
    stale: Session,
)
    requires
        crate::store::sessions_unique(pre),
        session_replaced(pre, post, key, user_id, sid, now),
        pre.contains(stale),
        stale.user_id == user_id,
        stale.id@ != sid,
    ensures
        !has_session_id(post, stale.id@),
{
    assert forall|j: int| 0 <= j < post.len() implies #[trigger] post[j].id@ != stale.id@ by {
        if j < post.len() - 1 {
            // A surviving row is a row of another user that was already
            // there, and two distinct rows never share an identifier.
            assert(pre.contains(post[j]));
            let w = choose|w: int| 0 <= w < pre.len() && #[trigger] pre[w] == post[j];
            let v = choose|v: int| 0 <= v < pre.len() && #[trigger] pre[v] == stale;
            if post[j].id@ == stale.id@ {
                assert(pre[w].user_id == post[j].user_id);
                assert(pre[v].user_id == user_id);
                if w < v {
                    assert(pre[w].id@ != pre[v].id@);
                } else if v < w {
                    assert(pre[v].id@ != pre[w].id@);
                } else {
                    assert(post[j].user_id == user_id);
                }
                assert(false);
            }
        }
    }
}

/// Admit a request to a protected page: the cookie must be present, its
/// seal must verify (authentic and fresh), and its identifier must still
/// name a session row — a cryptographically valid cookie whose session
/// was superseded or never persisted is rejected all the same. Every
/// failure is reported alike as unauthorized. On success the caller gets
/// the session's user and stored CSRF token.
pub fn authorize(
    store: &CredentialStore,
    protector: &TokenProtector,
    cookie: Option<&str>,
) -> (r: Result<SessionContext, Error>)
    requires
        store.wf(),
    ensures
        match r {
            Ok(ctx) => {
                &&& cookie matches Some(c)
                &&& cookie_sealed(protector.key(), c@)
                &&& exists|i: int|
                    0 <= i < store.sessions@.len() && #[trigger] store.sessions@[i].id@ == c@
                        && store.sessions@[i].user_id == ctx.user_id
                        && store.sessions@[i].csrf_token@ == ctx.csrf_token@
            },
            Err(e) => e == Error::Unauthorized,
        },
        cookie is None ==> r is Err,
        cookie matches Some(c) ==> !cookie_sealed(protector.key(), c@) ==> r is Err,
        cookie matches Some(c) ==> !has_session_id(store.sessions@, c@) ==> r is Err,
{
    let c = match cookie {
        Some(c) => c,
        None => {
            return Err(Error::Unauthorized);
        },
    };
    match protector.verify_cookie(c) {
        Ok(_) => (),
        Err(_) => {
            return Err(Error::Unauthorized);
        },
    }
    match store.get_session(c) {
        Some(session) => {
            proof {
                let w = choose|w: int|
                    0 <= w < store.sessions@.len() && #[trigger] store.sessions@[w] == *session;
                assert(store.sessions@[w].id@ == c@);
            }
            Ok(SessionContext { user_id: session.user_id, csrf_token: session.csrf_token.clone() })
        },
        None => Err(Error::Unauthorized),
    }
}

} // verus!
