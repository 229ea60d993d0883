use srv::addmusic::{addartist, db_addartist, db_addpiece, db_addrecording, db_addrelease, derived_path};
use srv::auth::{db_adduser, db_login};
use srv::get::{
    getcomposer, getcomposers, getperformer, getperformers, getpiece, getpieces, getrelease,
    getreleases, getsongwriter,
};
use srv::models::{
    AddArtistRequest, AddPieceRequest, AddRecordingRequest, AddReleaseRequest, AddUserRequest,
    AuthRequest,
};
use srv::store::Catalog;
use srv::strutil::u32_to_string;
use srv::IdRequest;

const NOW: i64 = 1_000_000;

/// A store with one bootstrap admin logged in; returns the store and the
/// admin's session token.
fn admin_catalog() -> (Catalog, String) {
    let mut store = Catalog::new();
    let resp = db_adduser(
        &mut store,
        AddUserRequest {
            username: "root".to_string(),
            password: "hunter2".to_string(),
            token: "".to_string(),
        },
        NOW,
        "salt-root".to_string(),
    );
    assert!(resp.success);
    let auth = db_login(
        &mut store,
        AuthRequest { username: "root".to_string(), password: "hunter2".to_string() },
        NOW,
        "admin-token".to_string(),
    );
    assert!(auth.access);
    (store, auth.token.unwrap())
}

fn artist_req(name: &str, kind: &str, has_image: bool, token: &str) -> AddArtistRequest {
    AddArtistRequest {
        name: name.to_string(),
        description: None,
        has_image,
        artist_type: kind.to_string(),
        token: token.to_string(),
    }
}

#[test]
fn decimal_rendering_is_exact() {
    assert_eq!(u32_to_string(0), "0");
    assert_eq!(u32_to_string(7), "7");
    assert_eq!(u32_to_string(1234), "1234");
    assert_eq!(u32_to_string(u32::MAX), "4294967295");
    assert_eq!(derived_path("release", 12), "release-12");
}

#[test]
fn piece_view_collects_composers_and_omits_empty_songwriters() {
    let (mut store, token) = admin_catalog();
    let resp = db_addpiece(
        &mut store,
        AddPieceRequest {
            name: "Eine kleine Nachtmusik".to_string(),
            movements: Some(4),
            composer_ids: vec![5, 7],
            songwriter_ids: None,
            description: None,
            token: token.clone(),
        },
        NOW,
    );
    assert!(resp.success);
    let got = getpiece(&store, IdRequest { id: 1 });
    assert!(got.success);
    let piece = got.message;
    assert_eq!(piece.id, 1);
    assert_eq!(piece.name, "Eine kleine Nachtmusik");
    assert_eq!(piece.movements, Some(4));
    let mut composers = piece.composer_ids.clone();
    composers.sort();
    assert_eq!(composers, vec![5, 7]);
    // no songwriter edges were written: the field is absent, not empty
    assert_eq!(piece.songwriter_ids, None);
}

#[test]
fn piece_view_keeps_songwriters_when_present_and_skips_duplicate_edges() {
    let (mut store, token) = admin_catalog();
    let resp = db_addpiece(
        &mut store,
        AddPieceRequest {
            name: "Song".to_string(),
            movements: None,
            composer_ids: vec![5, 5, 7],
            songwriter_ids: Some(vec![3]),
            description: Some("a song".to_string()),
            token,
        },
        NOW,
    );
    assert!(resp.success);
    let piece = getpiece(&store, IdRequest { id: 1 }).message;
    // the duplicate pair was quietly skipped
    assert_eq!(piece.composer_ids, vec![5, 7]);
    assert_eq!(piece.songwriter_ids, Some(vec![3]));
    assert_eq!(piece.description, Some("a song".to_string()));
}

#[test]
fn recording_keeps_empty_performer_list_present() {
    let (mut store, token) = admin_catalog();
    let ok = db_addpiece(
        &mut store,
        AddPieceRequest {
            name: "Air".to_string(),
            movements: None,
            composer_ids: vec![1],
            songwriter_ids: None,
            description: None,
            token: token.clone(),
        },
        NOW,
    );
    assert!(ok.success);
    let resp = db_addrecording(
        &mut store,
        AddRecordingRequest {
            piece_id: 1,
            release_id: 1,
            performer_ids: vec![],
            track_number: 1,
            token: token.clone(),
        },
        NOW,
    );
    assert!(resp.success);
    assert_eq!(resp.message, "recording-1");
    // the recording view is reached through search; its performer list is
    // present and empty, unlike a piece's absent songwriters
    let views = srv::search::db_searchrecording(
        &store,
        srv::models::SearchRequest { query: "air".to_string(), token },
        NOW,
    );
    assert!(views.success);
    assert_eq!(views.message.len(), 1);
    assert_eq!(views.message[0].performer_ids, Vec::<i32>::new());
    assert_eq!(views.message[0].track_number, 1);
}

#[test]
fn recording_requires_an_existing_piece() {
    let (mut store, token) = admin_catalog();
    let resp = db_addrecording(
        &mut store,
        AddRecordingRequest {
            piece_id: 9,
            release_id: 1,
            performer_ids: vec![],
            track_number: 1,
            token,
        },
        NOW,
    );
    assert!(!resp.success);
    assert_eq!(resp.message, "Piece id incorrect or piece not found");
}

#[test]
fn derived_image_path_round_trip_for_artists() {
    let (mut store, token) = admin_catalog();
    let with_image = db_addartist(&mut store, artist_req("Anna", "performer", true, &token), NOW);
    assert!(with_image.success);
    assert_eq!(with_image.message, "performer-1");
    let plain = db_addartist(&mut store, artist_req("Bela", "performer", false, &token), NOW);
    assert!(plain.success);
    assert_eq!(plain.message, "");
    let first = getperformer(&store, IdRequest { id: 1 }).message;
    assert_eq!(first.image_path, Some("performer-1".to_string()));
    let second = getperformer(&store, IdRequest { id: 2 }).message;
    assert_eq!(second.image_path, None);
}

#[test]
fn derived_image_path_round_trip_for_releases() {
    let (mut store, token) = admin_catalog();
    let resp = db_addrelease(
        &mut store,
        AddReleaseRequest {
            name: "Goldberg".to_string(),
            performer_ids: vec![4, 9],
            description: None,
            has_image: true,
            token,
        },
        NOW,
    );
    assert!(resp.success);
    assert_eq!(resp.message, "release-1");
    let got = getrelease(&store, IdRequest { id: 1 });
    assert!(got.success);
    let release = got.message;
    assert_eq!(release.image_path, Some("release-1".to_string()));
    assert_eq!(release.performer_ids, vec![4, 9]);
    // no recordings sit on it yet: the list is absent, not empty
    assert_eq!(release.recording_ids, None);
}

#[test]
fn release_view_lists_its_recordings_once_they_exist() {
    let (mut store, token) = admin_catalog();
    let ok = db_addpiece(
        &mut store,
        AddPieceRequest {
            name: "Aria".to_string(),
            movements: None,
            composer_ids: vec![1],
            songwriter_ids: None,
            description: None,
            token: token.clone(),
        },
        NOW,
    );
    assert!(ok.success);
    let ok = db_addrelease(
        &mut store,
        AddReleaseRequest {
            name: "Album".to_string(),
            performer_ids: vec![],
            description: None,
            has_image: false,
            token: token.clone(),
        },
        NOW,
    );
    assert!(ok.success);
    let ok = db_addrecording(
        &mut store,
        AddRecordingRequest {
            piece_id: 1,
            release_id: 1,
            performer_ids: vec![2],
            track_number: 3,
            token,
        },
        NOW,
    );
    assert!(ok.success);
    let release = getrelease(&store, IdRequest { id: 1 }).message;
    assert_eq!(release.recording_ids, Some(vec![1]));
    assert_eq!(release.image_path, None);
}

#[test]
fn unknown_ids_return_the_sentinel_view() {
    let (store, _) = admin_catalog();
    let piece = getpiece(&store, IdRequest { id: 42 });
    assert!(!piece.success);
    assert_eq!(piece.message.id, -1);
    assert_eq!(piece.message.name, "");
    let release = getrelease(&store, IdRequest { id: 0 });
    assert!(!release.success);
    assert_eq!(release.message.id, -1);
    let performer = getperformer(&store, IdRequest { id: -3 });
    assert!(!performer.success);
    assert_eq!(performer.message.id, -1);
    let composer = getcomposer(&store, IdRequest { id: 1 });
    assert!(!composer.success);
    let songwriter = getsongwriter(&store, IdRequest { id: 1 });
    assert!(!songwriter.success);
}

#[test]
fn unauthorized_writes_change_nothing() {
    let (mut store, _) = admin_catalog();
    let resp = db_addpiece(
        &mut store,
        AddPieceRequest {
            name: "Nope".to_string(),
            movements: None,
            composer_ids: vec![1],
            songwriter_ids: None,
            description: None,
            token: "bogus".to_string(),
        },
        NOW,
    );
    assert!(!resp.success);
    assert_eq!(resp.message, "User is not an admin");
    assert_eq!(getpieces(&store).message.len(), 0);
    let resp = db_addartist(&mut store, artist_req("X", "performer", false, "bogus"), NOW);
    assert!(!resp.success);
    assert_eq!(getperformers(&store).message.len(), 0);
}

#[test]
fn invalid_artist_type_is_refused() {
    let (mut store, token) = admin_catalog();
    let resp = db_addartist(&mut store, artist_req("X", "conductor", false, &token), NOW);
    assert!(!resp.success);
    assert_eq!(resp.message, "Invalid artist type");
}

#[test]
fn artist_type_picks_the_contributor_table() {
    let (mut store, token) = admin_catalog();
    assert!(db_addartist(&mut store, artist_req("P", "performer", false, &token), NOW).success);
    assert!(db_addartist(&mut store, artist_req("C", "composer", false, &token), NOW).success);
    assert!(db_addartist(&mut store, artist_req("S", "songwriter", false, &token), NOW).success);
    assert_eq!(getperformers(&store).message.len(), 1);
    assert_eq!(getcomposers(&store).message.len(), 1);
    assert_eq!(getperformers(&store).message[0].name, "P");
    assert_eq!(getcomposers(&store).message[0].name, "C");
    assert_eq!(getsongwriter(&store, IdRequest { id: 1 }).message.name, "S");
}

#[test]
fn bulk_reads_list_all_rows_in_creation_order() {
    let (mut store, token) = admin_catalog();
    for name in ["One", "Two", "Three"] {
        let resp = db_addpiece(
            &mut store,
            AddPieceRequest {
                name: name.to_string(),
                movements: None,
                composer_ids: vec![],
                songwriter_ids: None,
                description: None,
                token: token.clone(),
            },
            NOW,
        );
        assert!(resp.success);
    }
    let pieces = getpieces(&store).message;
    assert_eq!(pieces.len(), 3);
    assert_eq!(pieces[0].name, "One");
    assert_eq!(pieces[1].id, 2);
    assert_eq!(pieces[2].name, "Three");
    assert_eq!(getreleases(&store).message.len(), 0);
}

#[test]
fn clock_based_addartist_works_end_to_end() {
    let mut store = Catalog::new();
    let ok = srv::auth::adduser(
        &mut store,
        AddUserRequest {
            username: "root".to_string(),
            password: "pw".to_string(),
            token: "".to_string(),
        },
    );
    assert!(ok.success);
    let auth = srv::auth::login(
        &mut store,
        AuthRequest { username: "root".to_string(), password: "pw".to_string() },
    );
    let token = auth.token.unwrap();
    let resp = addartist(&mut store, artist_req("Anna", "performer", true, &token));
    assert!(resp.success);
    assert_eq!(resp.message, "performer-1");
}
