use srv::addmusic::{db_addartist, db_addpiece, db_addrecording};
use srv::auth::{db_adduser, db_login};
use srv::models::{
    AddArtistRequest, AddPieceRequest, AddRecordingRequest, AddUserRequest, AuthRequest,
    SearchRequest,
};
use srv::search::{
    db_searchcomposer, db_searchperformer, db_searchpiece, db_searchrecording, name_matches_str,
    searchperformer,
};
use srv::store::Catalog;

const NOW: i64 = 1_000_000;

fn search_catalog() -> (Catalog, String) {
    let mut store = Catalog::new();
    let resp = db_adduser(
        &mut store,
        AddUserRequest {
            username: "root".to_string(),
            password: "hunter2".to_string(),
            token: "".to_string(),
        },
        NOW,
        "salt-root".to_string(),
    );
    assert!(resp.success);
    let auth = db_login(
        &mut store,
        AuthRequest { username: "root".to_string(), password: "hunter2".to_string() },
        NOW,
        "admin-token".to_string(),
    );
    (store, auth.token.unwrap())
}

fn search_req(query: &str, token: &str) -> SearchRequest {
    SearchRequest { query: query.to_string(), token: token.to_string() }
}

#[test]
fn token_wildcard_matching_on_names() {
    // the tokens must occur in order, case-insensitively, gaps allowed
    assert!(name_matches_str("Strauss Insert", "stra ins"));
    assert!(!name_matches_str("Strauss Insert", "zz"));
    assert!(name_matches_str("Strauss Insert", "strauss insert"));
    assert!(name_matches_str("Strauss Insert", "SS INS"));
    assert!(!name_matches_str("Strauss Insert", "ins stra"));
    assert!(name_matches_str("anything", ""));
    assert!(name_matches_str("", ""));
    assert!(!name_matches_str("", "a"));
    // the two occurrences may not overlap
    assert!(name_matches_str("aba", "ab a"));
    assert!(!name_matches_str("aba", "ab ba"));
}

#[test]
fn query_normalization_builds_the_wildcard_pattern() {
    let req = search_req("stra ins", "t");
    assert_eq!(req.to_query(), "%stra%ins%");
    assert_eq!(search_req("  solo  ", "t").to_query(), "%solo%");
    assert_eq!(search_req("", "t").to_query(), "%%");
    assert_eq!(search_req("a b\tc", "t").to_query(), "%a%b%c%");
}

#[test]
fn query_splitting_covers_all_unicode_whitespace() {
    // every character str::split_whitespace splits on is a separator here,
    // so a whitespace-only query normalizes to the match-all pattern
    assert_eq!(search_req("\u{000B}", "t").to_query(), "%%");
    assert_eq!(search_req("\u{000C}\u{0085}\u{00A0}", "t").to_query(), "%%");
    assert_eq!(search_req("a\u{00A0}b", "t").to_query(), "%a%b%");
    assert_eq!(search_req("a\u{2003}b\u{3000}c", "t").to_query(), "%a%b%c%");
    assert_eq!(search_req("\u{2028}x\u{2029}", "t").to_query(), "%x%");
    assert!(name_matches_str("anything", "\u{000B}"));
    assert!(name_matches_str("ab", "a\u{1680}b"));
    // mirror of std's splitting on the same queries
    for q in ["\u{000B}", "a\u{00A0}b", "a\u{2003}b\u{3000}c", "  stra  ins "] {
        let expected = format!("%{}%", q.split_whitespace().collect::<Vec<&str>>().join("%"));
        assert_eq!(search_req(q, "t").to_query(), expected);
    }
}

#[test]
fn search_finds_matching_performers_only() {
    let (mut store, token) = search_catalog();
    for name in ["Strauss Insert", "Bach Ensemble"] {
        let resp = db_addartist(
            &mut store,
            AddArtistRequest {
                name: name.to_string(),
                description: None,
                has_image: false,
                artist_type: "performer".to_string(),
                token: token.clone(),
            },
            NOW,
        );
        assert!(resp.success);
    }
    let hits = db_searchperformer(&store, search_req("stra ins", &token), NOW);
    assert!(hits.success);
    assert_eq!(hits.message.len(), 1);
    assert_eq!(hits.message[0].name, "Strauss Insert");
    let misses = db_searchperformer(&store, search_req("zz", &token), NOW);
    assert!(misses.success);
    assert_eq!(misses.message.len(), 0);
    let all = db_searchperformer(&store, search_req("", &token), NOW);
    assert_eq!(all.message.len(), 2);
    // no hits in a table of another kind
    let composers = db_searchcomposer(&store, search_req("stra", &token), NOW);
    assert!(composers.success);
    assert_eq!(composers.message.len(), 0);
}

#[test]
fn search_without_authorization_returns_empty_failure() {
    let (mut store, token) = search_catalog();
    let resp = db_addartist(
        &mut store,
        AddArtistRequest {
            name: "Anna".to_string(),
            description: None,
            has_image: false,
            artist_type: "performer".to_string(),
            token: token.clone(),
        },
        NOW,
    );
    assert!(resp.success);
    let denied = db_searchperformer(&store, search_req("anna", "bogus"), NOW);
    assert!(!denied.success);
    assert_eq!(denied.message.len(), 0);
    // an expired admin session is refused the same way
    let expired = db_searchperformer(&store, search_req("anna", &token), NOW + 8 * 86400);
    assert!(!expired.success);
    assert_eq!(expired.message.len(), 0);
}

#[test]
fn search_assembles_full_piece_views() {
    let (mut store, token) = search_catalog();
    let resp = db_addpiece(
        &mut store,
        AddPieceRequest {
            name: "Eine kleine Nachtmusik".to_string(),
            movements: Some(4),
            composer_ids: vec![5, 7],
            songwriter_ids: None,
            description: None,
            token: token.clone(),
        },
        NOW,
    );
    assert!(resp.success);
    let hits = db_searchpiece(&store, search_req("kleine nacht", &token), NOW);
    assert!(hits.success);
    assert_eq!(hits.message.len(), 1);
    assert_eq!(hits.message[0].composer_ids, vec![5, 7]);
    assert_eq!(hits.message[0].songwriter_ids, None);
}

#[test]
fn search_matches_recordings_by_captured_piece_name() {
    let (mut store, token) = search_catalog();
    let ok = db_addpiece(
        &mut store,
        AddPieceRequest {
            name: "Morning Mood".to_string(),
            movements: None,
            composer_ids: vec![1],
            songwriter_ids: None,
            description: None,
            token: token.clone(),
        },
        NOW,
    );
    assert!(ok.success);
    let ok = db_addrecording(
        &mut store,
        AddRecordingRequest {
            piece_id: 1,
            release_id: 1,
            performer_ids: vec![2, 3],
            track_number: 1,
            token: token.clone(),
        },
        NOW,
    );
    assert!(ok.success);
    let hits = db_searchrecording(&store, search_req("morn mo", &token), NOW);
    assert!(hits.success);
    assert_eq!(hits.message.len(), 1);
    assert_eq!(hits.message[0].piece_id, 1);
    assert_eq!(hits.message[0].performer_ids, vec![2, 3]);
}

#[test]
fn clock_based_search_works_end_to_end() {
    let mut store = Catalog::new();
    let ok = srv::auth::adduser(
        &mut store,
        AddUserRequest {
            username: "root".to_string(),
            password: "pw".to_string(),
            token: "".to_string(),
        },
    );
    assert!(ok.success);
    let auth = srv::auth::login(
        &mut store,
        AuthRequest { username: "root".to_string(), password: "pw".to_string() },
    );
    let token = auth.token.unwrap();
    let resp = db_addartist(
        &mut store,
        AddArtistRequest {
            name: "Strauss Insert".to_string(),
            description: None,
            has_image: false,
            artist_type: "performer".to_string(),
            token: token.clone(),
        },
        NOW,
    );
    assert!(resp.success);
    // the session was created by the real clock, so it is live now
    let hits = searchperformer(&store, search_req("stra ins", &token));
    assert!(hits.success);
    assert_eq!(hits.message.len(), 1);
}
