//! The rows of the catalog's store and the request shapes of its
//! operations, each with a mathematical view: strings become sequences of
//! characters, timestamps are seconds since the Unix epoch, and the four
//! many-to-many edge tables all view to pairs of identifiers.
use vstd::prelude::*;

verus! {

/// The view of an `Option<String>`.
pub open spec fn opt_view(o: Option<String>) -> Option<Seq<char>> {
    match o {
        Some(s) => Some(s@),
        None => None,
    }
}

/// The view of an `Option<Vec<i32>>`.
pub open spec fn opt_ids_view(o: Option<Vec<i32>>) -> Option<Seq<i32>> {
    match o {
        Some(v) => Some(v@),
        None => None,
    }
}

/// Copy an optional string.
pub fn dup_opt_string(o: &Option<String>) -> (r: Option<String>)
    ensures
        opt_view(r) == opt_view(*o),
{
    match o {
        Some(s) => Some(s.clone()),
        None => None,
    }
}

/// A user row: credentials plus the (nullable) session fields that every
/// successful login may overwrite.
pub struct User {
    pub id: i32,
    pub username: String,
    pub password_hash: String,
    pub salt: String,
    pub session: Option<String>,
    pub created_at: Option<i64>,
}

#[verifier::ext_equal]
pub ghost struct UserV {
    pub id: i32,
    pub username: Seq<char>,
    pub password_hash: Seq<char>,
    pub salt: Seq<char>,
    pub session: Option<Seq<char>>,
    pub created_at: Option<i64>,
}

impl View for User {
    type V = UserV;

    open spec fn view(&self) -> UserV {
        UserV {
            id: self.id,
            username: self.username@,
            password_hash: self.password_hash@,
            salt: self.salt@,
            session: opt_view(self.session),
            created_at: self.created_at,
        }
    }
}

/// An admin marker row: the presence of a username here is the admin
/// privilege, a set membership rather than a role flag.
pub struct Admin {
    pub id: i32,
    pub username: String,
}

#[verifier::ext_equal]
pub ghost struct AdminV {
    pub id: i32,
    pub username: Seq<char>,
}

impl View for Admin {
    type V = AdminV;

    open spec fn view(&self) -> AdminV {
        AdminV { id: self.id, username: self.username@ }
    }
}

/// The shared view of the three structurally identical contributor kinds.
#[verifier::ext_equal]
pub ghost struct ContributorV {
    pub id: i32,
    pub name: Seq<char>,
    pub description: Option<Seq<char>>,
    pub image_path: Option<Seq<char>>,
}

impl ContributorV {
    /// The not-found sentinel: a zero-value object with id -1.
    pub open spec fn sentinel() -> ContributorV {
        ContributorV { id: -1i32, name: Seq::empty(), description: None, image_path: None }
    }
}

/// A performer row.
pub struct Performer {
    pub id: i32,
    pub name: String,
    pub description: Option<String>,
    pub image_path: Option<String>,
}

impl View for Performer {
    type V = ContributorV;

    open spec fn view(&self) -> ContributorV {
        ContributorV {
            id: self.id,
            name: self.name@,
            description: opt_view(self.description),
            image_path: opt_view(self.image_path),
        }
    }
}

impl Performer {
    /// Create an empty performer, the not-found sentinel.
    pub fn new() -> (r: Self)
        ensures
            r@ == ContributorV::sentinel(),
    {
        Performer { id: -1i32, name: String::new(), description: None, image_path: None }
    }

    /// Copy this row.
    pub fn duplicate(&self) -> (r: Self)
        ensures
            r@ == self@,
    {
        Performer {
            id: self.id,
            name: self.name.clone(),
            description: dup_opt_string(&self.description),
            image_path: dup_opt_string(&self.image_path),
        }
    }
}

/// A composer row.
pub struct Composer {
    pub id: i32,
    pub name: String,
    pub description: Option<String>,
    pub image_path: Option<String>,
}

impl View for Composer {
    type V = ContributorV;

    open spec fn view(&self) -> ContributorV {
        ContributorV {
            id: self.id,
            name: self.name@,
            description: opt_view(self.description),
            image_path: opt_view(self.image_path),
        }
    }
}

impl Composer {
    /// Create an empty composer, the not-found sentinel.
    pub fn new() -> (r: Self)
        ensures
            r@ == ContributorV::sentinel(),
    {
        Composer { id: -1i32, name: String::new(), description: None, image_path: None }
    }

    /// Copy this row.
    pub fn duplicate(&self) -> (r: Self)
        ensures
            r@ == self@,
    {
        Composer {
            id: self.id,
            name: self.name.clone(),
            description: dup_opt_string(&self.description),
            image_path: dup_opt_string(&self.image_path),
        }
    }
}

/// A songwriter row.
pub struct Songwriter {
    pub id: i32,
    pub name: String,
    pub description: Option<String>,
    pub image_path: Option<String>,
}

impl View for Songwriter {
    type V = ContributorV;

    open spec fn view(&self) -> ContributorV {
        ContributorV {
            id: self.id,
            name: self.name@,
            description: opt_view(self.description),
            image_path: opt_view(self.image_path),
        }
    }
}

impl Songwriter {
    /// Create an empty songwriter, the not-found sentinel.
    pub fn new() -> (r: Self)
        ensures
            r@ == ContributorV::sentinel(),
    {
        Songwriter { id: -1i32, name: String::new(), description: None, image_path: None }
    }

    /// Copy this row.
    pub fn duplicate(&self) -> (r: Self)
        ensures
            r@ == self@,
    {
        Songwriter {
            id: self.id,
            name: self.name.clone(),
            description: dup_opt_string(&self.description),
            image_path: dup_opt_string(&self.image_path),
        }
    }
}

/// A piece row as stored, without its edge tables.
pub struct DbPiece {
    pub id: i32,
    pub name: String,
    pub movements: Option<i32>,
    pub description: Option<String>,
}

#[verifier::ext_equal]
pub ghost struct PieceRowV {
    pub id: i32,
    pub name: Seq<char>,
    pub movements: Option<i32>,
    pub description: Option<Seq<char>>,
}

impl View for DbPiece {
    type V = PieceRowV;

    open spec fn view(&self) -> PieceRowV {
        PieceRowV {
            id: self.id,
            name: self.name@,
            movements: self.movements,
            description: opt_view(self.description),
        }
    }
}

impl DbPiece {
    /// Create an empty piece row.
    pub fn new() -> (r: Self)
        ensures
            r@ == (PieceRowV { id: -1i32, name: Seq::empty(), movements: None, description: None }),
    {
        DbPiece { id: -1i32, name: String::new(), movements: None, description: None }
    }
}

/// A release row as stored, without its edge tables.
pub struct DbRelease {
    pub id: i32,
    pub name: String,
    pub description: Option<String>,
    pub image_path: Option<String>,
}

#[verifier::ext_equal]
pub ghost struct ReleaseRowV {
    pub id: i32,
    pub name: Seq<char>,
    pub description: Option<Seq<char>>,
    pub image_path: Option<Seq<char>>,
}

impl View for DbRelease {
    type V = ReleaseRowV;

    open spec fn view(&self) -> ReleaseRowV {
        ReleaseRowV {
            id: self.id,
            name: self.name@,
            description: opt_view(self.description),
            image_path: opt_view(self.image_path),
        }
    }
}

impl DbRelease {
    /// Create an empty release row.
    pub fn new() -> (r: Self)
        ensures
            r@ == (ReleaseRowV {
                id: -1i32,
                name: Seq::empty(),
                description: None,
                image_path: None,
            }),
    {
        DbRelease { id: -1i32, name: String::new(), description: None, image_path: None }
    }
}

/// A recording row: the piece name is captured at creation time and not
/// kept in sync with the piece.
pub struct Recording {
    pub id: i32,
    pub piece_name: String,
    pub piece_id: i32,
    pub release_id: i32,
    pub track_number: i32,
    pub file_path: Option<String>,
}

#[verifier::ext_equal]
pub ghost struct RecordingRowV {
    pub id: i32,
    pub piece_name: Seq<char>,
    pub piece_id: i32,
    pub release_id: i32,
    pub track_number: i32,
    pub file_path: Option<Seq<char>>,
}

impl View for Recording {
    type V = RecordingRowV;

    open spec fn view(&self) -> RecordingRowV {
        RecordingRowV {
            id: self.id,
            piece_name: self.piece_name@,
            piece_id: self.piece_id,
            release_id: self.release_id,
            track_number: self.track_number,
            file_path: opt_view(self.file_path),
        }
    }
}

impl Recording {
    /// Create an empty recording row.
    pub fn new() -> (r: Self)
        ensures
            r@ == (RecordingRowV {
                id: -1i32,
                piece_name: Seq::empty(),
                piece_id: -1i32,
                release_id: -1i32,
                track_number: -1i32,
                file_path: None,
            }),
    {
        Recording {
            id: -1i32,
            piece_name: String::new(),
            piece_id: -1i32,
            release_id: -1i32,
            track_number: -1i32,
            file_path: None,
        }
    }
}

/// The shared view of the four many-to-many edge tables: the parent's
/// identifier on the left, the related identifier on the right.
#[verifier::ext_equal]
pub ghost struct PairV {
    pub left: i32,
    pub right: i32,
}

/// A piece-composer edge row.
pub struct PieceComposer {
    pub piece_id: i32,
    pub composer_id: i32,
}

impl View for PieceComposer {
    type V = PairV;

    open spec fn view(&self) -> PairV {
        PairV { left: self.piece_id, right: self.composer_id }
    }
}

/// A piece-songwriter edge row.
pub struct PieceSongwriter {
    pub piece_id: i32,
    pub songwriter_id: i32,
}

impl View for PieceSongwriter {
    type V = PairV;

    open spec fn view(&self) -> PairV {
        PairV { left: self.piece_id, right: self.songwriter_id }
    }
}

/// A release-performer edge row.
pub struct ReleasePerformer {
    pub release_id: i32,
    pub performer_id: i32,
}

impl View for ReleasePerformer {
    type V = PairV;

    open spec fn view(&self) -> PairV {
        PairV { left: self.release_id, right: self.performer_id }
    }
}

/// A recording-performer edge row.
pub struct RecordingPerformer {
    pub recording_id: i32,
    pub performer_id: i32,
}

impl View for RecordingPerformer {
    type V = PairV;

    open spec fn view(&self) -> PairV {
        PairV { left: self.recording_id, right: self.performer_id }
    }
}

/// An authorization request from a user.
pub struct AuthRequest {
    pub username: String,
    pub password: String,
}

/// Whether access is granted, and the session token, for an authorization
/// request.
pub struct AuthResponse {
    pub access: bool,
    pub token: Option<String>,
}

/// A request to create a new user, from an administrator.
pub struct AddUserRequest {
    pub username: String,
    pub password: String,
    pub token: String,
}

/// Session information returned to a logged-in user.
pub struct Session {
    pub token: String,
    pub created_at: i64,
}

/// A request to add an artist of one of the three contributor kinds.
pub struct AddArtistRequest {
    pub name: String,
    pub description: Option<String>,
    pub has_image: bool,
    pub artist_type: String,
    pub token: String,
}

/// A request to add a release.
pub struct AddReleaseRequest {
    pub name: String,
    pub performer_ids: Vec<i32>,
    pub description: Option<String>,
    pub has_image: bool,
    pub token: String,
}

/// A request to add a piece.
pub struct AddPieceRequest {
    pub name: String,
    pub movements: Option<i32>,
    pub composer_ids: Vec<i32>,
    pub songwriter_ids: Option<Vec<i32>>,
    pub description: Option<String>,
    pub token: String,
}

/// A request to add a recording.
pub struct AddRecordingRequest {
    pub piece_id: i32,
    pub release_id: i32,
    pub performer_ids: Vec<i32>,
    pub track_number: i32,
    pub token: String,
}

/// A search request with a free-text query.
pub struct SearchRequest {
    pub query: String,
    pub token: String,
}

} // verus!
