//! The credential store and authorization gate: resolving a session token
//! to a user, deciding admin eligibility, creating users (with the
//! bootstrap rule that the very first user becomes an admin), and logging
//! in. An expired session is treated exactly as no session.
use vstd::prelude::*;

use crate::crypto::{fresh_uuid, hash_password, now_seconds, pbkdf2_of, verify_password};
use crate::hexstr::hex_of;
use crate::models::{AddUserRequest, AdminV, AuthRequest, AuthResponse, User, UserV, opt_view};
use crate::store::{Catalog, CatalogV, MAX_TABLE, ids_ok};
use crate::Response;

verus! {

/// How long a session token stays valid, in seconds: seven days.
pub const WEEK_SECONDS: i64 = 604800;

/// Whether a user's session is present and unexpired at time `now`.
pub open spec fn session_live(u: UserV, now: i64) -> bool {
    &&& u.session is Some
    &&& u.created_at is Some
    &&& now - u.created_at->Some_0 < WEEK_SECONDS
}

/// Whether this user's session is live and carries exactly this token.
pub open spec fn token_live_at(u: UserV, token: Seq<char>, now: i64) -> bool {
    &&& u.session == Some(token)
    &&& session_live(u, now)
}

/// `i` is the position of the first user whose live session carries the
/// token.
pub open spec fn is_first_live(users: Seq<UserV>, token: Seq<char>, now: i64, i: int) -> bool {
    &&& 0 <= i < users.len()
    &&& token_live_at(users[i], token, now)
    &&& forall|k: int| 0 <= k < i ==> !token_live_at(#[trigger] users[k], token, now)
}

/// Resolve a token to the first user whose live session carries it.
pub open spec fn resolve_token(users: Seq<UserV>, token: Seq<char>, now: i64) -> Option<int> {
    if exists|i: int| is_first_live(users, token, now, i) {
        Some(choose|i: int| is_first_live(users, token, now, i))
    } else {
        None
    }
}

/// Whether an admin-marker row exists for this username.
pub open spec fn has_admin_named(admins: Seq<AdminV>, name: Seq<char>) -> bool {
    exists|j: int| 0 <= j < admins.len() && (#[trigger] admins[j]).username == name
}

/// Whether some user has this username.
pub open spec fn has_user_named(users: Seq<UserV>, name: Seq<char>) -> bool {
    exists|i: int| 0 <= i < users.len() && (#[trigger] users[i]).username == name
}

/// `i` is the position of the first user with this username.
pub open spec fn is_first_named(users: Seq<UserV>, name: Seq<char>, i: int) -> bool {
    &&& 0 <= i < users.len()
    &&& users[i].username == name
    &&& forall|k: int| 0 <= k < i ==> (#[trigger] users[k]).username != name
}

/// The first user with this username, if any.
pub open spec fn find_named(users: Seq<UserV>, name: Seq<char>) -> Option<int> {
    if exists|i: int| is_first_named(users, name, i) {
        Some(choose|i: int| is_first_named(users, name, i))
    } else {
        None
    }
}

/// Admin eligibility: the token resolves to a user with a live session and
/// an admin-marker row exists for that user's name.
pub open spec fn spec_is_admin(cat: CatalogV, token: Seq<char>, now: i64) -> bool {
    match resolve_token(cat.users, token, now) {
        Some(i) => has_admin_named(cat.admins, cat.users[i].username),
        None => false,
    }
}

pub proof fn lemma_resolve_at(users: Seq<UserV>, token: Seq<char>, now: i64, i: int)
    requires
        is_first_live(users, token, now, i),
    ensures
        resolve_token(users, token, now) == Some(i),
{
    let j = choose|j: int| is_first_live(users, token, now, j);
    if j < i {
        assert(!token_live_at(users[j], token, now));
    }
    if i < j {
        assert(!token_live_at(users[i], token, now));
    }
}

pub proof fn lemma_find_named_at(users: Seq<UserV>, name: Seq<char>, i: int)
    requires
        is_first_named(users, name, i),
    ensures
        find_named(users, name) == Some(i),
{
    let j = choose|j: int| is_first_named(users, name, j);
    if j < i {
        assert(users[j].username != name);
    }
    if i < j {
        assert(users[i].username != name);
    }
}

impl Catalog {
    /// Whether this user row's session is live at `now` and carries the
    /// token.
    fn user_token_live(u: &User, token: &String, now: i64) -> (r: bool)
        ensures
            r == token_live_at(u@, token@, now),
    {
        match (&u.session, &u.created_at) {
            (Some(s), Some(t)) => *s == *token && (now as i128) - (*t as i128) < (
            WEEK_SECONDS as i128),
            _ => false,
        }
    }

    /// Find the first user whose live session carries the token.
    fn find_live_user(&self, token: &String, now: i64) -> (r: Option<usize>)
        ensures
            match r {
                Some(i) => is_first_live(self@.users, token@, now, i as int),
                None => resolve_token(self@.users, token@, now) is None,
            },
    {
        let n = self.users.len();
        let mut i: usize = 0;
        while i < n
            invariant
                n == self@.users.len(),
                i <= n,
                forall|k: int| 0 <= k < i ==> !token_live_at(#[trigger] self@.users[k], token@, now),
            decreases n - i,
        {
            if Self::user_token_live(&self.users[i], token, now) {
                return Some(i);
            }
            i += 1;
        }
        proof {
            if exists|j: int| is_first_live(self@.users, token@, now, j) {
                let j = choose|j: int| is_first_live(self@.users, token@, now, j);
                assert(!token_live_at(self@.users[j], token@, now));
            }
        }
        None
    }

    /// Whether an admin-marker row exists for this username.
    fn has_admin_row(&self, name: &String) -> (r: bool)
        ensures
            r == has_admin_named(self@.admins, name@),
    {
        let n = self.admins.len();
        let mut i: usize = 0;
        while i < n
            invariant
                n == self@.admins.len(),
                i <= n,
                forall|k: int| 0 <= k < i ==> (#[trigger] self@.admins[k]).username != name@,
            decreases n - i,
        {
            if self.admins[i].username == *name {
                assert(self@.admins[i as int].username == name@);
                return true;
            }
            i += 1;
        }
        false
    }

    /// Find the first user with this username.
    fn find_user_named(&self, name: &String) -> (r: Option<usize>)
        ensures
            match r {
                Some(i) => is_first_named(self@.users, name@, i as int),
                None => !has_user_named(self@.users, name@),
            },
    {
        let n = self.users.len();
        let mut i: usize = 0;
        while i < n
            invariant
                n == self@.users.len(),
                i <= n,
                forall|k: int| 0 <= k < i ==> (#[trigger] self@.users[k]).username != name@,
            decreases n - i,
        {
            if self.users[i].username == *name {
                return Some(i);
            }
            i += 1;
        }
        None
    }
}

/// Given a token, decide whether it belongs to an admin: the token must
/// resolve to a user with a live session, and an admin-marker row must
/// exist for that user's name.
pub fn check_admin(store: &Catalog, token: &String, now: i64) -> (r: bool)
    ensures
        r == spec_is_admin(store@, token@, now),
{
    match store.find_live_user(token, now) {
        Some(i) => {
            proof {
                lemma_resolve_at(store@.users, token@, now, i as int);
            }
            store.has_admin_row(&store.users[i].username)
        },
        None => false,
    }
}

/// The number of users registered.
pub fn countuser(store: &Catalog) -> (r: Response<i64>)
    requires
        store@.wf(),
    ensures
        r.success,
        r.message == store@.users.len() as i64,
{
    Response { success: true, message: store.users.len() as i64 }
}

/// A freshly created user row: no session yet, the password stored as the
/// hexadecimal PBKDF2 hash under the given salt.
pub open spec fn spec_new_user(
    id: i32,
    username: Seq<char>,
    password: Seq<char>,
    salt: Seq<char>,
) -> UserV {
    UserV {
        id,
        username,
        password_hash: hex_of(pbkdf2_of(salt, password)),
        salt,
        session: None,
        created_at: None,
    }
}

/// What creating a user does to the store: in an empty store the new user
/// is created and promoted to admin with no token check (the bootstrap
/// rule); otherwise the token must resolve to an admin's live session, and
/// a duplicate username is quietly skipped.
pub open spec fn spec_adduser(
    cat: CatalogV,
    username: Seq<char>,
    password: Seq<char>,
    token: Seq<char>,
    now: i64,
    salt: Seq<char>,
) -> (CatalogV, bool, Seq<char>) {
    if cat.users.len() == 0 {
        let cat2 = CatalogV {
            admins: cat.admins.push(
                AdminV { id: (cat.admins.len() + 1) as i32, username },
            ),
            users: cat.users.push(spec_new_user(1i32, username, password, salt)),
            ..cat
        };
        (cat2, true, "User successfully added"@)
    } else {
        match resolve_token(cat.users, token, now) {
            None => (cat, false, "Invalid token"@),
            Some(i) => {
                if !has_admin_named(cat.admins, cat.users[i].username) {
                    (cat, false, "User is not an admin"@)
                } else if has_user_named(cat.users, username) {
                    (cat, true, "User successfully added"@)
                } else {
                    let cat2 = CatalogV {
                        users: cat.users.push(
                            spec_new_user(
                                (cat.users.len() + 1) as i32,
                                username,
                                password,
                                salt,
                            ),
                        ),
                        ..cat
                    };
                    (cat2, true, "User successfully added"@)
                }
            },
        }
    }
}

/// Add a user to the store at time `now` with the given fresh salt,
/// checking admin privileges unless the store is empty.
pub fn db_adduser(store: &mut Catalog, req: AddUserRequest, now: i64, salt: String) -> (r: Response<
    String,
>)
    requires
        old(store)@.wf(),
        old(store)@.users.len() < MAX_TABLE,
        old(store)@.admins.len() < MAX_TABLE,
    ensures
        final(store)@.wf(),
        final(store)@ == spec_adduser(
            old(store)@,
            req.username@,
            req.password@,
            req.token@,
            now,
            salt@,
        ).0,
        r.success == spec_adduser(
            old(store)@,
            req.username@,
            req.password@,
            req.token@,
            now,
            salt@,
        ).1,
        r.message@ == spec_adduser(
            old(store)@,
            req.username@,
            req.password@,
            req.token@,
            now,
            salt@,
        ).2,
{
    let ghost orig = store@;
    let bootstrap = store.users.len() == 0;
    if !bootstrap {
        // the token must resolve to a live session of an admin
        let found = store.find_live_user(&req.token, now);
        let i = match found {
            Some(i) => i,
            None => {
                return Response { success: false, message: String::from_str("Invalid token") };
            },
        };
        proof {
            lemma_resolve_at(store@.users, req.token@, now, i as int);
        }
        if !store.has_admin_row(&store.users[i].username) {
            return Response { success: false, message: String::from_str("User is not an admin") };
        }
        // a duplicate username is a quiet write failure, not an error
        if store.find_user_named(&req.username).is_some() {
            return Response {
                success: true,
                message: String::from_str("User successfully added"),
            };
        }
    }
    // derive the stored hash, then insert; the first user overall is also
    // inserted into the admin-marker table
    let hash = hash_password(req.password.as_str(), salt.as_str());
    if bootstrap {
        let admin_id = store.admins.len() + 1;
        let new_admin = crate::insert::NewAdmin { username: req.username.clone() };
        store.admins.push(new_admin.into_row(admin_id as i32));
    }
    let uid = store.users.len() + 1;
    let new_user = crate::insert::NewUser {
        username: req.username,
        password_hash: hash,
        salt,
        session: None,
        created_at: None,
    };
    store.users.push(new_user.into_row(uid as i32));
    proof {
        let spec_out = spec_adduser(orig, req.username@, req.password@, req.token@, now, salt@);
        assert(store@ =~= spec_out.0);
        assert forall|i: int, j: int| 0 <= i < j < store@.users.len() implies store@.users[i].username
            != store@.users[j].username by {
            if j < orig.users.len() {
                assert(store@.users[i] == orig.users[i]);
                assert(store@.users[j] == orig.users[j]);
            } else {
                assert(store@.users[j].username == req.username@);
                assert(store@.users[i] == orig.users[i]);
                if orig.users[i].username == req.username@ {
                    assert(has_user_named(orig.users, req.username@));
                }
            }
        }
        assert forall|i: int| 0 <= i < store@.users.len() implies CatalogV::user_wf(
            #[trigger] store@.users[i],
        ) by {
            crate::hexstr::lemma_hex_of_len(pbkdf2_of(salt@, req.password@));
            crate::hexstr::lemma_hex_of_is_hex_lower(pbkdf2_of(salt@, req.password@));
            if i < orig.users.len() {
                assert(store@.users[i] == orig.users[i]);
            }
        }
        assert forall|i: int| 0 <= i < store@.users.len() implies (|u: UserV| u.id)(
            #[trigger] store@.users[i],
        ) == i + 1 by {
            if i < orig.users.len() {
                assert(store@.users[i] == orig.users[i]);
                assert(ids_ok(orig.users, |u: UserV| u.id));
            }
        }
        assert forall|i: int| 0 <= i < store@.admins.len() implies (|a: AdminV| a.id)(
            #[trigger] store@.admins[i],
        ) == i + 1 by {
            if i < orig.admins.len() {
                assert(store@.admins[i] == orig.admins[i]);
                assert(ids_ok(orig.admins, |a: AdminV| a.id));
            }
        }
        assert(store@.wf());
    }
    Response { success: true, message: String::from_str("User successfully added") }
}

/// What logging in does to the store: an unknown username or a wrong
/// password is refused; with the right password, a live session token is
/// reused, and otherwise the fresh token is stored with the current time.
pub open spec fn spec_login(
    cat: CatalogV,
    username: Seq<char>,
    password: Seq<char>,
    now: i64,
    fresh: Seq<char>,
) -> (CatalogV, bool, Option<Seq<char>>) {
    match find_named(cat.users, username) {
        None => (cat, false, None),
        Some(i) => {
            let u = cat.users[i];
            if u.password_hash != hex_of(pbkdf2_of(u.salt, password)) {
                (cat, false, None)
            } else if session_live(u, now) {
                (cat, true, Some(u.session->Some_0))
            } else {
                let u2 = UserV { session: Some(fresh), created_at: Some(now), ..u };
                (CatalogV { users: cat.users.update(i, u2), ..cat }, true, Some(fresh))
            }
        },
    }
}

/// Log a user in at time `now`: verify the password against the stored
/// hash; on success reuse a live session token or store the fresh one.
pub fn db_login(store: &mut Catalog, req: AuthRequest, now: i64, fresh: String) -> (r: AuthResponse)
    requires
        old(store)@.wf(),
    ensures
        final(store)@.wf(),
        final(store)@ == spec_login(old(store)@, req.username@, req.password@, now, fresh@).0,
        r.access == spec_login(old(store)@, req.username@, req.password@, now, fresh@).1,
        opt_view(r.token) == spec_login(old(store)@, req.username@, req.password@, now, fresh@).2,
{
    let ghost orig = store@;
    let found = store.find_user_named(&req.username);
    let i = match found {
        Some(i) => i,
        None => {
            return AuthResponse { access: false, token: None };
        },
    };
    proof {
        lemma_find_named_at(store@.users, req.username@, i as int);
        assert(CatalogV::user_wf(store@.users[i as int]));
    }
    let ok = verify_password(
        req.password.as_str(),
        store.users[i].salt.as_str(),
        store.users[i].password_hash.as_str(),
    );
    if !ok {
        return AuthResponse { access: false, token: None };
    }
    // reuse a live token rather than rotating it
    let live = match (&store.users[i].session, &store.users[i].created_at) {
        (Some(_), Some(t)) => (now as i128) - (*t as i128) < (WEEK_SECONDS as i128),
        _ => false,
    };
    if live {
        let token = crate::models::dup_opt_string(&store.users[i].session);
        return AuthResponse { access: true, token };
    }
    // otherwise store the fresh token with the current time
    let u = &store.users[i];
    let updated = User {
        id: u.id,
        username: u.username.clone(),
        password_hash: u.password_hash.clone(),
        salt: u.salt.clone(),
        session: Some(fresh.clone()),
        created_at: Some(now),
    };
    store.users.set(i, updated);
    proof {
        let spec_out = spec_login(orig, req.username@, req.password@, now, fresh@);
        assert(store@.users =~= spec_out.0.users);
        assert(store@ =~= spec_out.0);
        assert forall|a: int, b: int| 0 <= a < b < store@.users.len() implies store@.users[a].username
            != store@.users[b].username by {
            assert(orig.users[a].username != orig.users[b].username);
        }
        assert forall|a: int| 0 <= a < store@.users.len() implies CatalogV::user_wf(
            #[trigger] store@.users[a],
        ) by {
            assert(CatalogV::user_wf(orig.users[a]));
        }
        assert forall|a: int| 0 <= a < store@.users.len() implies (|u: UserV| u.id)(
            #[trigger] store@.users[a],
        ) == a + 1 by {
            assert(ids_ok(orig.users, |u: UserV| u.id));
            assert(orig.users[a].id == a + 1);
        }
        assert(store@.wf());
    }
    AuthResponse { access: true, token: Some(fresh) }
}

/// Add a user: reads the clock and draws a fresh salt, then updates the
/// store as `spec_adduser` says for that time and salt.
pub fn adduser(store: &mut Catalog, req: AddUserRequest) -> (r: Response<String>)
    requires
        old(store)@.wf(),
        old(store)@.users.len() < MAX_TABLE,
        old(store)@.admins.len() < MAX_TABLE,
    ensures
        final(store)@.wf(),
        exists|now: i64, salt: Seq<char>|
            {
                let out = #[trigger] spec_adduser(
                    old(store)@,
                    req.username@,
                    req.password@,
                    req.token@,
                    now,
                    salt,
                );
                &&& now >= 0
                &&& salt.len() == 36
                &&& final(store)@ == out.0
                &&& r.success == out.1
                &&& r.message@ == out.2
            },
{
    let now = now_seconds();
    let salt = fresh_uuid();
    let ghost salt_v = salt@;
    let r = db_adduser(store, req, now, salt);
    proof {
        let out = spec_adduser(old(store)@, req.username@, req.password@, req.token@, now, salt_v);
        assert(now >= 0 && salt_v.len() == 36 && store@ == out.0 && r.success == out.1
            && r.message@ == out.2);
    }
    r
}

/// Log a user in: reads the clock and draws a fresh candidate token, then
/// updates the store as `spec_login` says for that time and token.
pub fn login(store: &mut Catalog, req: AuthRequest) -> (r: AuthResponse)
    requires
        old(store)@.wf(),
    ensures
        final(store)@.wf(),
        exists|now: i64, fresh: Seq<char>|
            {
                let out = #[trigger] spec_login(
                    old(store)@,
                    req.username@,
                    req.password@,
                    now,
                    fresh,
                );
                &&& now >= 0
                &&& fresh.len() == 36
                &&& final(store)@ == out.0
                &&& r.access == out.1
                &&& opt_view(r.token) == out.2
            },
{
    let now = now_seconds();
    let fresh = fresh_uuid();
    let ghost fresh_v = fresh@;
    let r = db_login(store, req, now, fresh);
    proof {
        let out = spec_login(old(store)@, req.username@, req.password@, now, fresh_v);
        assert(now >= 0 && fresh_v.len() == 36 && store@ == out.0 && r.access == out.1 && opt_view(
            r.token,
        ) == out.2);
    }
    r
}

} // verus!
