//! Laws of the library, each proved from the specifications the operations
//! carry: password verification round-trips, the bootstrap admin rule, the
//! derived-path convention, and the equivalence of an expired session with
//! no session.
use vstd::prelude::*;

use crate::addmusic::{
    lemma_add_edges_contains, path_of, spec_add_contributor, spec_addpiece, spec_addrecording,
    spec_addrelease,
};
use crate::auth::{
    WEEK_SECONDS, has_admin_named, has_user_named, is_first_live, is_first_named,
    lemma_find_named_at, lemma_resolve_at, resolve_token, session_live, spec_adduser, spec_login,
    spec_is_admin, token_live_at,
};
use crate::crypto::{pbkdf2_of, spec_password_ok};
use crate::get::{
    ids_matching, lemma_ids_matching_absent, lemma_ids_matching_contains, spec_piece_view,
    spec_recording_view, spec_release_view,
};
use crate::hexstr::{hex_of, lemma_hex_of_injective};
use crate::models::{
    AddPieceRequest, AddRecordingRequest, AddReleaseRequest, ContributorV, UserV,
};
use crate::store::{CatalogV, MAX_TABLE, contains_pair, row_for_id};

verus! {

/// A password verifies against the hash stored for it under the same salt;
/// a candidate password verifies against that hash exactly when its
/// derived key coincides with the original password's. (In particular any
/// password whose derived key differs is refused.)
pub proof fn lemma_password_roundtrip(password: Seq<char>, other: Seq<char>, salt: Seq<char>)
    ensures
        spec_password_ok(password, salt, hex_of(pbkdf2_of(salt, password))),
        spec_password_ok(other, salt, hex_of(pbkdf2_of(salt, password))) == (pbkdf2_of(salt, other)
            == pbkdf2_of(salt, password)),
{
    if hex_of(pbkdf2_of(salt, other)) == hex_of(pbkdf2_of(salt, password)) {
        lemma_hex_of_injective(pbkdf2_of(salt, other), pbkdf2_of(salt, password));
    }
}

/// Creating the very first user in an empty store succeeds with no token
/// check, stores the user, and grants it admin privilege through an
/// admin-marker row for its name.
pub proof fn lemma_bootstrap_first_user(
    cat: CatalogV,
    username: Seq<char>,
    password: Seq<char>,
    token: Seq<char>,
    now: i64,
    salt: Seq<char>,
)
    requires
        cat.users.len() == 0,
    ensures
        ({
            let out = spec_adduser(cat, username, password, token, now, salt);
            &&& out.1 == true
            &&& has_user_named(out.0.users, username)
            &&& has_admin_named(out.0.admins, username)
        }),
{
    let out = spec_adduser(cat, username, password, token, now, salt);
    assert(out.0.users[0].username == username);
    assert(out.0.admins[cat.admins.len() as int].username == username);
}

/// Creating a user in a non-empty store under a token that does not belong
/// to an admin always fails and leaves the store unchanged.
pub proof fn lemma_second_user_needs_admin(
    cat: CatalogV,
    username: Seq<char>,
    password: Seq<char>,
    token: Seq<char>,
    now: i64,
    salt: Seq<char>,
)
    requires
        cat.users.len() > 0,
        !spec_is_admin(cat, token, now),
    ensures
        spec_adduser(cat, username, password, token, now, salt).1 == false,
        spec_adduser(cat, username, password, token, now, salt).0 == cat,
{
}

/// Creating a contributor assigns the next identifier; when an image was
/// announced, the stored row's image path and the returned message both
/// equal the path derived from that identifier, and without one the row's
/// image path stays absent.
pub proof fn lemma_contributor_derived_path(
    rows: Seq<ContributorV>,
    kind: Seq<char>,
    name: Seq<char>,
    description: Option<Seq<char>>,
    has_image: bool,
)
    requires
        rows.len() < MAX_TABLE,
    ensures
        ({
            let out = spec_add_contributor(rows, kind, name, description, has_image);
            let id = (rows.len() + 1) as i32;
            &&& out.0.len() == rows.len() + 1
            &&& row_for_id(out.0, id) == Some(out.0.last())
            &&& out.0.last().id == id
            &&& has_image ==> out.0.last().image_path == Some(path_of(kind, id)) && out.1
                == path_of(kind, id)
            &&& !has_image ==> out.0.last().image_path is None && out.1 == Seq::<char>::empty()
        }),
{
}

/// Creating a release with an announced image stores, and a subsequent
/// read returns, the image path derived from the new identifier; without
/// one the path stays absent.
pub proof fn lemma_release_derived_path(cat: CatalogV, req: AddReleaseRequest, now: i64)
    requires
        cat.releases.len() < MAX_TABLE,
        spec_is_admin(cat, req.token@, now),
    ensures
        ({
            let out = spec_addrelease(cat, req, now);
            let id = (cat.releases.len() + 1) as i32;
            let row = row_for_id(out.0.releases, id);
            &&& out.1 == true
            &&& row is Some
            &&& req.has_image ==> {
                &&& row->Some_0.image_path == Some(path_of("release"@, id))
                &&& spec_release_view(out.0, row->Some_0).image_path == Some(
                    path_of("release"@, id),
                )
                &&& out.2 == path_of("release"@, id)
            }
            &&& !req.has_image ==> row->Some_0.image_path is None && spec_release_view(
                out.0,
                row->Some_0,
            ).image_path is None
        }),
{
}

/// The users of a store with every expired session erased: a user whose
/// session is not live at `now` loses its session fields.
pub open spec fn clear_expired(users: Seq<UserV>, now: i64) -> Seq<UserV> {
    users.map_values(
        |u: UserV|
            if session_live(u, now) {
                u
            } else {
                UserV { session: None, created_at: None, ..u }
            },
    )
}

/// An expired session is treated identically to no session for
/// authorization: erasing every expired session changes no authorization
/// decision.
pub proof fn lemma_expired_session_is_no_session(cat: CatalogV, token: Seq<char>, now: i64)
    ensures
        spec_is_admin(cat, token, now) == spec_is_admin(
            CatalogV { users: clear_expired(cat.users, now), ..cat },
            token,
            now,
        ),
{
    let users = cat.users;
    let cleared = clear_expired(users, now);
    assert forall|i: int| 0 <= i < users.len() implies token_live_at(#[trigger] users[i], token, now)
        == token_live_at(cleared[i], token, now) by {
        if !session_live(users[i], now) {
            assert(cleared[i] == (UserV { session: None, created_at: None, ..users[i] }));
            assert(!token_live_at(cleared[i], token, now));
            assert(!token_live_at(users[i], token, now));
        } else {
            assert(cleared[i] == users[i]);
        }
    }
    assert forall|i: int|
        is_first_live(users, token, now, i) == is_first_live(cleared, token, now, i) by {
        if is_first_live(users, token, now, i) {
            assert(is_first_live(cleared, token, now, i));
        }
        if is_first_live(cleared, token, now, i) {
            assert(token_live_at(users[i], token, now));
            assert(is_first_live(users, token, now, i));
        }
    }
    match resolve_token(users, token, now) {
        Some(i) => {
            assert(is_first_live(users, token, now, i));
            assert(is_first_live(cleared, token, now, i));
            crate::auth::lemma_resolve_at(cleared, token, now, i);
            assert(cleared[i].username == users[i].username);
        },
        None => {
            if exists|j: int| is_first_live(cleared, token, now, j) {
                let j = choose|j: int| is_first_live(cleared, token, now, j);
                assert(is_first_live(users, token, now, j));
            }
        },
    }
}

/// A freshly created piece reports exactly the requested composer
/// identifiers (each at most once, order immaterial), and its songwriter
/// list is absent when none were requested.
pub proof fn lemma_new_piece_view(cat: CatalogV, req: AddPieceRequest, now: i64)
    requires
        cat.wf(),
        cat.pieces.len() < MAX_TABLE,
        spec_is_admin(cat, req.token@, now),
    ensures
        ({
            let out = spec_addpiece(cat, req, now);
            let id = (cat.pieces.len() + 1) as i32;
            let view = spec_piece_view(out.0, out.0.pieces.last());
            &&& out.1 == true
            &&& row_for_id(out.0.pieces, id) == Some(out.0.pieces.last())
            &&& out.0.pieces.last().id == id
            &&& forall|r: i32| view.composer_ids.contains(r) <==> req.composer_ids@.contains(r)
            &&& req.songwriter_ids is None ==> view.songwriter_ids is None
        }),
{
    let out = spec_addpiece(cat, req, now);
    let id = (cat.pieces.len() + 1) as i32;
    // the new identifier has no edges yet: existing parents are bounded by
    // the old table length
    assert forall|i: int| 0 <= i < cat.piece_composers.len() implies (
    #[trigger] cat.piece_composers[i]).left != id by {
        assert(1 <= cat.piece_composers[i].left <= cat.pieces.len());
    }
    assert forall|i: int| 0 <= i < cat.piece_songwriters.len() implies (
    #[trigger] cat.piece_songwriters[i]).left != id by {
        assert(1 <= cat.piece_songwriters[i].left <= cat.pieces.len());
    }
    assert forall|r: i32|
        ids_matching(out.0.piece_composers, id).contains(r)
            <==> req.composer_ids@.contains(r) by {
        lemma_ids_matching_contains(out.0.piece_composers, id, r);
        lemma_add_edges_contains(cat.piece_composers, id, req.composer_ids@, id, r);
        if contains_pair(cat.piece_composers, id, r) {
            let w = choose|w: int|
                0 <= w < cat.piece_composers.len() && (#[trigger] cat.piece_composers[w]).left
                    == id && cat.piece_composers[w].right == r;
        }
    }
    if req.songwriter_ids is None {
        lemma_ids_matching_absent(cat.piece_songwriters, id);
    }
}

/// A freshly created recording reports exactly the requested performer
/// identifiers; with none requested, the list is present and empty, not
/// absent.
pub proof fn lemma_new_recording_view(cat: CatalogV, req: AddRecordingRequest, now: i64)
    requires
        cat.wf(),
        cat.recordings.len() < MAX_TABLE,
        spec_is_admin(cat, req.token@, now),
        row_for_id(cat.pieces, req.piece_id) is Some,
    ensures
        ({
            let out = spec_addrecording(cat, req, now);
            let id = (cat.recordings.len() + 1) as i32;
            let view = spec_recording_view(out.0, out.0.recordings.last());
            &&& out.1 == true
            &&& row_for_id(out.0.recordings, id) == Some(out.0.recordings.last())
            &&& out.0.recordings.last().id == id
            &&& forall|r: i32| view.performer_ids.contains(r) <==> req.performer_ids@.contains(r)
            &&& req.performer_ids@.len() == 0 ==> view.performer_ids == Seq::<i32>::empty()
        }),
{
    let out = spec_addrecording(cat, req, now);
    let id = (cat.recordings.len() + 1) as i32;
    assert forall|i: int| 0 <= i < cat.recording_performers.len() implies (
    #[trigger] cat.recording_performers[i]).left != id by {
        assert(1 <= cat.recording_performers[i].left <= cat.recordings.len());
    }
    assert forall|r: i32|
        ids_matching(out.0.recording_performers, id).contains(r)
            <==> req.performer_ids@.contains(r) by {
        lemma_ids_matching_contains(out.0.recording_performers, id, r);
        lemma_add_edges_contains(cat.recording_performers, id, req.performer_ids@, id, r);
        if contains_pair(cat.recording_performers, id, r) {
            let w = choose|w: int|
                0 <= w < cat.recording_performers.len() && (
                #[trigger] cat.recording_performers[w]).left == id
                    && cat.recording_performers[w].right == r;
        }
    }
    if req.performer_ids@.len() == 0 {
        lemma_ids_matching_absent(cat.recording_performers, id);
    }
}

/// The bootstrap user can immediately act as an admin: after the first
/// user is created in an empty store and logs in, the issued session token
/// passes the admin check for as long as the session is live.
pub proof fn lemma_bootstrap_login_grants_admin(
    cat: CatalogV,
    username: Seq<char>,
    password: Seq<char>,
    token: Seq<char>,
    now0: i64,
    salt: Seq<char>,
    now1: i64,
    fresh: Seq<char>,
    now2: i64,
)
    requires
        cat.users.len() == 0,
        now2 - now1 < WEEK_SECONDS,
    ensures
        ({
            let cat1 = spec_adduser(cat, username, password, token, now0, salt).0;
            let out = spec_login(cat1, username, password, now1, fresh);
            &&& out.1 == true
            &&& out.2 == Some(fresh)
            &&& spec_is_admin(out.0, fresh, now2)
        }),
{
    let cat1 = spec_adduser(cat, username, password, token, now0, salt).0;
    let u = cat1.users[0];
    assert(is_first_named(cat1.users, username, 0));
    lemma_find_named_at(cat1.users, username, 0);
    assert(u.password_hash == hex_of(pbkdf2_of(salt, password)));
    assert(!session_live(u, now1));
    let out = spec_login(cat1, username, password, now1, fresh);
    let u2 = out.0.users[0];
    assert(u2.session == Some(fresh) && u2.created_at == Some(now1));
    assert(token_live_at(u2, fresh, now2));
    assert(is_first_live(out.0.users, fresh, now2, 0));
    lemma_resolve_at(out.0.users, fresh, now2, 0);
    assert(out.0.admins[cat.admins.len() as int].username == username);
    assert(has_admin_named(out.0.admins, username));
}

} // verus!
