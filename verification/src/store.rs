//! The credential store: users and sessions as rows.
//!
//! This module is the library's model of the persistence contract the
//! session manager relies on: users with unique identifiers and unique
//! emails, and at most one live session per user, every session row
//! referring to an existing user. Each operation is all-or-nothing — on
//! failure the store is left exactly as it was, so no partial user/session
//! pair is ever observable. A session's identifier is the sealed cookie
//! value itself; the CSRF token is stored alongside it for double-submit
//! comparison.

use vstd::prelude::*;

verus! {

/// A user row. Created on signup, immutable thereafter.
#[derive(Debug)]
pub struct User {
    pub id: u32,
    pub email: String,
    pub handle: String,
    pub hashed_password: String,
}

/// A session row. The `id` doubles as the cookie value handed to the
/// client; `csrf_token` is the plaintext comparison value for
/// double-submit checks.
#[derive(Debug)]
pub struct Session {
    pub id: String,
    pub csrf_token: String,
    pub user_id: u32,
    pub created_at: i64,
}

/// User identifiers and emails are pairwise distinct.
pub open spec fn users_unique(users: Seq<User>) -> bool {
    forall|i: int, j: int| #![auto]
        0 <= i < j < users.len() ==> users[i].id != users[j].id && users[i].email@ != users[j].email@
}

/// Every user identifier is below the next one to be handed out, so a
/// fresh identifier never collides with an existing row.
pub open spec fn users_bounded(users: Seq<User>, next_user_id: u32) -> bool {
    forall|i: int| #![auto] 0 <= i < users.len() ==> users[i].id < next_user_id
}

/// At most one session per user, and session identifiers are pairwise
/// distinct.
pub open spec fn sessions_unique(sessions: Seq<Session>) -> bool {
    forall|i: int, j: int| #![auto]
        0 <= i < j < sessions.len() ==> sessions[i].user_id != sessions[j].user_id
            && sessions[i].id@ != sessions[j].id@
}

/// Every session row refers to an existing user row.
pub open spec fn sessions_reference_users(sessions: Seq<Session>, users: Seq<User>) -> bool {
    forall|i: int| #![auto] 0 <= i < sessions.len() ==> has_user_id(users, sessions[i].user_id)
}

/// Some user row carries this email.
pub open spec fn has_email(users: Seq<User>, email: Seq<char>) -> bool {
    exists|i: int| 0 <= i < users.len() && #[trigger] users[i].email@ == email
}

/// Some user row carries this identifier.
pub open spec fn has_user_id(users: Seq<User>, user_id: u32) -> bool {
    exists|i: int| 0 <= i < users.len() && #[trigger] users[i].id == user_id
}

/// Some session row carries this session identifier.
pub open spec fn has_session_id(sessions: Seq<Session>, sid: Seq<char>) -> bool {
    exists|i: int| 0 <= i < sessions.len() && #[trigger] sessions[i].id@ == sid
}

/// Some session row belongs to this user.
pub open spec fn has_session_for(sessions: Seq<Session>, user_id: u32) -> bool {
    exists|i: int| 0 <= i < sessions.len() && #[trigger] sessions[i].user_id == user_id
}

/// `sid` collides with no session row except possibly the user's own
/// (which a refresh deletes before inserting).
pub open spec fn session_id_free(sessions: Seq<Session>, user_id: u32, sid: Seq<char>) -> bool {
    forall|i: int| #![auto]
        0 <= i < sessions.len() ==> sessions[i].user_id == user_id || sessions[i].id@ != sid
}

/// The session row has exactly these fields.
pub open spec fn is_session_row(
    s: Session,
    sid: Seq<char>,
    csrf: Seq<char>,
    user_id: u32,
    created_at: i64,
) -> bool {
    s.id@ == sid && s.csrf_token@ == csrf && s.user_id == user_id && s.created_at == created_at
}

/// The user row has exactly these fields.
pub open spec fn is_user_row(
    u: User,
    id: u32,
    email: Seq<char>,
    handle: Seq<char>,
    hashed_password: Seq<char>,
) -> bool {
    u.id == id && u.email@ == email && u.handle@ == handle && u.hashed_password@ == hashed_password
}

/// Users and sessions as rows, with create/read/delete operations.
pub struct CredentialStore {
    pub users: Vec<User>,
    pub sessions: Vec<Session>,
    pub next_user_id: u32,
}

/// Character-for-character equality of two strings.
pub(crate) fn str_equal(a: &str, b: &str) -> (r: bool)
    ensures
        r == (a@ == b@),
{
    let a_len = a.unicode_len();
    let b_len = b.unicode_len();
    if a_len != b_len {
        assert(a@ != b@);
        return false;
    }
    let mut i: usize = 0;
    while i < a_len
        invariant
            a_len == a@.len() && b_len == b@.len() && a_len == b_len,
            0 <= i <= a_len,
            forall|j: int| 0 <= j < i ==> a@[j] == b@[j],
        decreases a_len - i,
    {
        if a.get_char(i) != b.get_char(i) {
            return false;
        }
        i += 1;
    }
    proof {
        assert(a@ =~= b@);
    }
    true
}

impl CredentialStore {
    /// The row invariants: unique user identifiers and emails, identifiers
    /// below the next to be issued, at most one session per user with
    /// pairwise-distinct session identifiers, and every session referring
    /// to an existing user.
    pub open spec fn wf(&self) -> bool {
        &&& users_unique(self.users@)
        &&& users_bounded(self.users@, self.next_user_id)
        &&& sessions_unique(self.sessions@)
        &&& sessions_reference_users(self.sessions@, self.users@)
    }

    /// An empty store; user identifiers start at 1.
    pub fn new() -> (r: CredentialStore)
        ensures
            r.wf(),
            r.users@ == Seq::<User>::empty(),
            r.sessions@ == Seq::<Session>::empty(),
            r.next_user_id == 1,
    {
        CredentialStore { users: Vec::new(), sessions: Vec::new(), next_user_id: 1 }
    }

    /// Look a user up by email: the row with that email where one exists
    /// (unique by the invariant), nothing otherwise.
    pub fn get_user_by_email(&self, email: &str) -> (r: Option<&User>)
        ensures
            match r {
                Some(u) => u.email@ == email@ && self.users@.contains(*u),
                None => !has_email(self.users@, email@),
            },
            (r is Some) == has_email(self.users@, email@),
    {
        let n = self.users.len();
        let mut i: usize = 0;
        while i < n
            invariant
                n == self.users@.len(),
                0 <= i <= n,
                forall|j: int| #![auto] 0 <= j < i ==> self.users@[j].email@ != email@,
            decreases n - i,
        {
            if str_equal(self.users[i].email.as_str(), email) {
                return Some(&self.users[i]);
            }
            i += 1;
        }
        None
    }

    /// Look a session up by its identifier (the cookie value).
    pub fn get_session(&self, id: &str) -> (r: Option<&Session>)
        ensures
            match r {
                Some(s) => s.id@ == id@ && self.sessions@.contains(*s),
                None => !has_session_id(self.sessions@, id@),
            },
            (r is Some) == has_session_id(self.sessions@, id@),
    {
        let n = self.sessions.len();
        let mut i: usize = 0;
        while i < n
            invariant
                n == self.sessions@.len(),
                0 <= i <= n,
                forall|j: int| #![auto] 0 <= j < i ==> self.sessions@[j].id@ != id@,
            decreases n - i,
        {
            if str_equal(self.sessions[i].id.as_str(), id) {
                return Some(&self.sessions[i]);
            }
            i += 1;
        }
        None
    }

    /// Join a session identifier to its user row: the identifying fields
    /// of the user the session refers to, where the session exists;
    /// nothing where it does not. The stored password hash is never
    /// exposed through a session lookup: the returned row carries an
    /// empty string in its place, whatever the store holds.
    pub fn get_user_by_session(&self, id: &str) -> (r: Option<User>)
        requires
            self.wf(),
        ensures
            match r {
                Some(u) => {
                    &&& u.hashed_password@ == Seq::<char>::empty()
                    &&& exists|w: int|
                        0 <= w < self.users@.len() && #[trigger] self.users@[w].id == u.id
                            && self.users@[w].email@ == u.email@ && self.users@[w].handle@
                            == u.handle@
                    &&& exists|i: int|
                        0 <= i < self.sessions@.len() && #[trigger] self.sessions@[i].id@ == id@
                            && self.sessions@[i].user_id == u.id
                },
                None => !has_session_id(self.sessions@, id@),
            },
            (r is Some) == has_session_id(self.sessions@, id@),
    {
        let session = match self.get_session(id) {
            Some(s) => s,
            None => {
                return None;
            },
        };
        let user_id = session.user_id;
        let n = self.users.len();
        let mut i: usize = 0;
        proof {
            let si = choose|si: int|
                0 <= si < self.sessions@.len() && self.sessions@[si] == *session;
            assert(has_user_id(self.users@, self.sessions@[si].user_id));
        }
        while i < n
            invariant
                n == self.users@.len(),
                0 <= i <= n,
                session.id@ == id@ && session.user_id == user_id,
                self.sessions@.contains(*session),
                has_user_id(self.users@, user_id),
                forall|j: int| #![auto] 0 <= j < i ==> self.users@[j].id != user_id,
            decreases n - i,
        {
            if self.users[i].id == user_id {
                proof {
                    let si = choose|si: int|
                        0 <= si < self.sessions@.len() && self.sessions@[si] == *session;
                    assert(self.sessions@[si].id@ == id@);
                    assert(self.sessions@[si].user_id == user_id);
                }
                return Some(
                    User {
                        id: self.users[i].id,
                        email: self.users[i].email.clone(),
                        handle: self.users[i].handle.clone(),
                        hashed_password: String::new(),
                    },
                );
            }
            i += 1;
        }
        proof {
            assert(false);
        }
        None
    }

    /// Whether some user row carries this identifier.
    fn has_user(&self, user_id: u32) -> (r: bool)
        ensures
            r == has_user_id(self.users@, user_id),
    {
        let n = self.users.len();
        let mut i: usize = 0;
        while i < n
            invariant
                n == self.users@.len(),
                0 <= i <= n,
                forall|j: int| #![auto] 0 <= j < i ==> self.users@[j].id != user_id,
            decreases n - i,
        {
            if self.users[i].id == user_id {
                return true;
            }
            i += 1;
        }
        false
    }

    /// Whether some user row carries this email.
    fn email_taken(&self, email: &str) -> (r: bool)
        ensures
            r == has_email(self.users@, email@),
    {
        match self.get_user_by_email(email) {
            Some(u) => {
                proof {
                    let i = choose|i: int| 0 <= i < self.users@.len() && self.users@[i] == *u;
                    assert(self.users@[i].email@ == email@);
                }
                true
            },
            None => false,
        }
    }

    /// Whether some session row carries this session identifier.
    fn session_id_taken(&self, sid: &str) -> (r: bool)
        ensures
            r == has_session_id(self.sessions@, sid@),
    {
        let n = self.sessions.len();
        let mut i: usize = 0;
        while i < n
            invariant
                n == self.sessions@.len(),
                0 <= i <= n,
                forall|j: int| #![auto] 0 <= j < i ==> self.sessions@[j].id@ != sid@,
            decreases n - i,
        {
            if str_equal(self.sessions[i].id.as_str(), sid) {
                return true;
            }
            i += 1;
        }
        false
    }

    /// Whether `sid` is free of collisions outside the user's own session.
    fn session_id_free_for(&self, user_id: u32, sid: &str) -> (r: bool)
        ensures
            r == session_id_free(self.sessions@, user_id, sid@),
    {
        let n = self.sessions.len();
        let mut i: usize = 0;
        while i < n
            invariant
                n == self.sessions@.len(),
                0 <= i <= n,
                forall|j: int| #![auto]
                    0 <= j < i ==> self.sessions@[j].user_id == user_id
                        || self.sessions@[j].id@ != sid@,
            decreases n - i,
        {
            if self.sessions[i].user_id != user_id && str_equal(self.sessions[i].id.as_str(), sid) {
                return false;
            }
            i += 1;
        }
        true
    }

    /// The index of the user's (unique) session, if any.
    fn find_session_index_for_user(&self, user_id: u32) -> (r: Option<usize>)
        ensures
            match r {
                Some(i) => i < self.sessions@.len() && self.sessions@[i as int].user_id == user_id,
                None => !has_session_for(self.sessions@, user_id),
            },
    {
        let n = self.sessions.len();
        let mut i: usize = 0;
        while i < n
            invariant
                n == self.sessions@.len(),
                0 <= i <= n,
                forall|j: int| #![auto] 0 <= j < i ==> self.sessions@[j].user_id != user_id,
            decreases n - i,
        {
            if self.sessions[i].user_id == user_id {
                return Some(i);
            }
            i += 1;
        }
        None
    }

    /// Insert a new user row and its first session row, all or nothing.
    /// Succeeds exactly where the email is not yet taken, the session
    /// identifier collides with no row, and a fresh user identifier can
    /// still be issued; any failure (the model of a unique-constraint or
    /// other transaction failure) leaves the store untouched and is
    /// reported as an internal error, undistinguished from other store
    /// failures. On success the returned session identifier is the sealed
    /// cookie value.
    pub fn create_new_user(
        &mut self,
        email: &str,
        handle: &str,
        hashed_pw: &str,
        csrf_token: &str,
        sealed_cookie: &str,
        now: i64,
    ) -> (r: Result<String, crate::errors::Error>)
        requires
            old(self).wf(),
        ensures
            final(self).wf(),
            match r {
                Ok(sid) => {
                    &&& !has_email(old(self).users@, email@)
                    &&& !has_session_id(old(self).sessions@, sealed_cookie@)
                    &&& old(self).next_user_id < u32::MAX
                    &&& sid@ == sealed_cookie@
                    &&& final(self).users@.len() == old(self).users@.len() + 1
                    &&& final(self).users@.subrange(0, old(self).users@.len() as int) == old(
                        self,
                    ).users@
                    &&& is_user_row(
                        final(self).users@.last(),
                        old(self).next_user_id,
                        email@,
                        handle@,
                        hashed_pw@,
                    )
                    &&& final(self).sessions@.len() == old(self).sessions@.len() + 1
                    &&& final(self).sessions@.subrange(0, old(self).sessions@.len() as int) == old(
                        self,
                    ).sessions@
                    &&& is_session_row(
                        final(self).sessions@.last(),
                        sealed_cookie@,
                        csrf_token@,
                        old(self).next_user_id,
                        now,
                    )
                    &&& final(self).next_user_id == old(self).next_user_id + 1
                },
                Err(e) => {
                    &&& e == crate::errors::Error::InternalServerError
                    &&& !(!has_email(old(self).users@, email@) && !has_session_id(
                        old(self).sessions@,
                        sealed_cookie@,
                    ) && old(self).next_user_id < u32::MAX)
                    &&& final(self).users@ == old(self).users@
                    &&& final(self).sessions@ == old(self).sessions@
                    &&& final(self).next_user_id == old(self).next_user_id
                },
            },
    {
        if self.email_taken(email) {
            return Err(crate::errors::Error::InternalServerError);
        }
        if self.session_id_taken(sealed_cookie) {
            return Err(crate::errors::Error::InternalServerError);
        }
        if self.next_user_id == u32::MAX {
            return Err(crate::errors::Error::InternalServerError);
        }
        let user_id = self.next_user_id;
        let user = User {
            id: user_id,
            email: email.to_owned(),
            handle: handle.to_owned(),
            hashed_password: hashed_pw.to_owned(),
        };
        let session = Session {
            id: sealed_cookie.to_owned(),
            csrf_token: csrf_token.to_owned(),
            user_id,
            created_at: now,
        };
        proof {
            // The fresh user identifier is above every existing one, and —
            // through the reference invariant — above every session's.
            assert forall|i: int| 0 <= i < self.sessions@.len() implies #[trigger] self.sessions@[i].user_id
                != user_id by {
                let w = choose|w: int|
                    0 <= w < self.users@.len() && #[trigger] self.users@[w].id
                        == self.sessions@[i].user_id;
                assert(self.users@[w].id < self.next_user_id);
            }
        }
        self.users.push(user);
        self.sessions.push(session);
        self.next_user_id = user_id + 1;
        proof {
            assert forall|i: int| 0 <= i < self.sessions@.len() implies has_user_id(
                self.users@,
                #[trigger] self.sessions@[i].user_id,
            ) by {
                if i < self.sessions@.len() - 1 {
                    assert(has_user_id(old(self).users@, old(self).sessions@[i].user_id));
                    let w = choose|w: int|
                        0 <= w < old(self).users@.len() && #[trigger] old(self).users@[w].id
                            == old(self).sessions@[i].user_id;
                    assert(self.users@[w].id == old(self).sessions@[i].user_id);
                } else {
                    assert(self.users@[self.users@.len() - 1].id == user_id);
                }
            }
            assert(self.users@.subrange(0, old(self).users@.len() as int) =~= old(self).users@);
            assert(self.sessions@.subrange(0, old(self).sessions@.len() as int) =~= old(
                self,
            ).sessions@);
        }
        Ok(sealed_cookie.to_owned())
    }

    /// Atomically replace the user's session: delete any session row of
    /// this user and insert the new one, all or nothing, enforcing the
    /// one-live-session-per-user invariant. Succeeds exactly where the
    /// user exists and the new identifier collides with no other user's
    /// session; failure leaves the store untouched. On success the user's
    /// one session row is the new one (at the end of the row sequence),
    /// every other user's rows are exactly preserved, and the returned
    /// session identifier is the sealed cookie value.
    pub fn refresh_user_session(
        &mut self,
        user_id: u32,
        csrf_token: &str,
        sealed_cookie: &str,
        now: i64,
    ) -> (r: Result<String, crate::errors::Error>)
        requires
            old(self).wf(),
        ensures
            final(self).wf(),
            final(self).users@ == old(self).users@,
            final(self).next_user_id == old(self).next_user_id,
            match r {
                Ok(sid) => {
                    &&& has_user_id(old(self).users@, user_id)
                    &&& session_id_free(old(self).sessions@, user_id, sealed_cookie@)
                    &&& sid@ == sealed_cookie@
                    &&& final(self).sessions@.len() >= 1
                    &&& is_session_row(
                        final(self).sessions@.last(),
                        sealed_cookie@,
                        csrf_token@,
                        user_id,
                        now,
                    )
                    &&& forall|j: int| #![auto]
                        0 <= j < final(self).sessions@.len() - 1 ==> final(self).sessions@[j].user_id != user_id
                    &&& forall|j: int| #![auto]
                        0 <= j < final(self).sessions@.len() - 1 ==> old(self).sessions@.contains(
                            final(self).sessions@[j],
                        )
                    &&& forall|j: int| #![auto]
                        0 <= j < old(self).sessions@.len() && old(self).sessions@[j].user_id
                            != user_id ==> final(self).sessions@.contains(old(self).sessions@[j])
                },
                Err(e) => {
                    &&& e == crate::errors::Error::InternalServerError
                    &&& !(has_user_id(old(self).users@, user_id) && session_id_free(
                        old(self).sessions@,
                        user_id,
                        sealed_cookie@,
                    ))
                    &&& final(self).sessions@ == old(self).sessions@
                },
            },
    {
        if !self.has_user(user_id) {
            return Err(crate::errors::Error::InternalServerError);
        }
        if !self.session_id_free_for(user_id, sealed_cookie) {
            return Err(crate::errors::Error::InternalServerError);
        }
        let ghost pre = self.sessions@;
        if let Some(i) = self.find_session_index_for_user(user_id) {
            self.sessions.remove(i);
            proof {
                let s1 = self.sessions@;
                // Removing the user's unique session leaves rows of other
                // users only, pairwise distinct and all drawn from `pre`.
                assert forall|j: int| 0 <= j < s1.len() implies (#[trigger] s1[j].user_id != user_id
                    && pre.contains(s1[j])) by {
                    if j < i {
                        assert(s1[j] == pre[j]);
                    } else {
                        assert(s1[j] == pre[j + 1]);
                    }
                }
                assert forall|j: int|
                    0 <= j < pre.len() && #[trigger] pre[j].user_id != user_id implies self.sessions@.contains(
                    pre[j],
                ) by {
                    if j < i {
                        assert(s1[j] == pre[j]);
                    } else {
                        assert(j != i);
                        assert(s1[j - 1] == pre[j]);
                    }
                }
                assert forall|a: int, b: int| 0 <= a < b < s1.len() implies (
                #[trigger] s1[a].user_id != #[trigger] s1[b].user_id && s1[a].id@ != s1[b].id@) by {
                    let pa: int = if a < i { a } else { a + 1 };
                    let pb: int = if b < i { b } else { b + 1 };
                    assert(s1[a] == pre[pa]);
                    assert(s1[b] == pre[pb]);
                }
            }
        } else {
            proof {
                // No session of this user existed; the rows stand as they
                // were and every one of them belongs to another user.
                assert forall|j: int| 0 <= j < pre.len() implies (#[trigger] pre[j].user_id
                    != user_id && pre.contains(pre[j])) by {
                    assert(pre[j] == pre[j]);
                }
            }
        }
        let ghost kept = self.sessions@;
        let row = Session {
            id: sealed_cookie.to_owned(),
            csrf_token: csrf_token.to_owned(),
            user_id,
            created_at: now,
        };
        proof {
            // Every surviving row belongs to another user, is drawn from
            // the rows that were there, and — by the collision check —
            // carries an identifier other than the new one.
            assert forall|j: int| 0 <= j < kept.len() implies (#[trigger] kept[j].user_id != user_id
                && pre.contains(kept[j]) && kept[j].id@ != sealed_cookie@) by {
                assert(pre.contains(kept[j]));
                let w = choose|w: int| 0 <= w < pre.len() && #[trigger] pre[w] == kept[j];
                assert(pre[w].user_id == user_id || pre[w].id@ != sealed_cookie@);
            }
        }
        self.sessions.push(row);
        proof {
            let fin = self.sessions@;
            assert(fin.last() == row);
            assert forall|j: int| 0 <= j < fin.len() - 1 implies (#[trigger] fin[j].user_id
                != user_id && old(self).sessions@.contains(fin[j])) by {
                assert(fin[j] == kept[j]);
            }
            assert forall|j: int|
                0 <= j < old(self).sessions@.len() && #[trigger] old(self).sessions@[j].user_id
                    != user_id implies fin.contains(old(self).sessions@[j]) by {
                assert(kept.contains(pre[j]));
                let w = choose|w: int| 0 <= w < kept.len() && #[trigger] kept[w] == pre[j];
                assert(fin[w] == kept[w]);
            }
            assert forall|a: int, b: int| 0 <= a < b < fin.len() implies (#[trigger] fin[a].user_id
                != #[trigger] fin[b].user_id && fin[a].id@ != fin[b].id@) by {
                if b < fin.len() - 1 {
                    assert(fin[a] == kept[a] && fin[b] == kept[b]);
                } else {
                    assert(fin[a] == kept[a] && fin[b] == row);
                }
            }
            assert forall|j: int| 0 <= j < fin.len() implies has_user_id(
                self.users@,
                #[trigger] fin[j].user_id,
            ) by {
                if j < fin.len() - 1 {
                    assert(pre.contains(kept[j]));
                    let w = choose|w: int| 0 <= w < pre.len() && #[trigger] pre[w] == kept[j];
                    assert(has_user_id(self.users@, pre[w].user_id));
                }
            }
        }
        Ok(sealed_cookie.to_owned())
    }
}

} // verus!
