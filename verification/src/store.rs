//! The catalog's store: one vector per table, modelling the normalized
//! schema the service persists. Identifiers are assigned on creation as
//! one plus the row's position, which makes them stable, unique, and
//! directly addressable.
use vstd::prelude::*;

use crate::hexstr::is_hex_lower;
use crate::models::{
    Admin, AdminV, Composer, ContributorV, DbPiece, DbRelease, PairV, Performer, PieceComposer,
    PieceRowV, PieceSongwriter, Recording, RecordingPerformer, RecordingRowV, ReleasePerformer,
    ReleaseRowV, Songwriter, User, UserV,
};

verus! {

/// The largest row count a table may reach: every identifier, one plus a
/// row's position, must fit in `i32`.
pub const MAX_TABLE: usize = 0x7fff_fffe;

/// Rows are numbered from one in order of creation.
pub open spec fn ids_ok<T>(rows: Seq<T>, id_of: spec_fn(T) -> i32) -> bool {
    &&& rows.len() <= MAX_TABLE
    &&& forall|i: int| 0 <= i < rows.len() ==> id_of(#[trigger] rows[i]) == i + 1
}

/// An edge table holds each pair at most once.
pub open spec fn pairs_unique(pairs: Seq<PairV>) -> bool {
    forall|i: int, j: int| 0 <= i < j < pairs.len() ==> pairs[i] != pairs[j]
}

/// Whether an edge table holds this pair.
pub open spec fn contains_pair(pairs: Seq<PairV>, left: i32, right: i32) -> bool {
    exists|i: int|
        0 <= i < pairs.len() && (#[trigger] pairs[i]).left == left && pairs[i].right == right
}

/// Every edge's parent identifier points at a row its parent table holds.
pub open spec fn lefts_bounded(pairs: Seq<PairV>, parent_count: nat) -> bool {
    forall|i: int| 0 <= i < pairs.len() ==> 1 <= (#[trigger] pairs[i]).left <= parent_count
}

/// The row a table holds under this identifier, if any.
pub open spec fn row_for_id<T>(rows: Seq<T>, id: i32) -> Option<T> {
    if 1 <= id && id <= rows.len() {
        Some(rows[id - 1])
    } else {
        None
    }
}

/// Appending a row with the next identifier keeps identifiers positional.
pub proof fn lemma_ids_ok_push<T>(rows: Seq<T>, id_of: spec_fn(T) -> i32, x: T)
    requires
        ids_ok(rows, id_of),
        rows.len() < MAX_TABLE,
        id_of(x) == rows.len() + 1,
    ensures
        ids_ok(rows.push(x), id_of),
{
    assert forall|i: int| 0 <= i < rows.push(x).len() implies id_of(#[trigger] rows.push(x)[i]) == i
        + 1 by {
        if i < rows.len() {
            assert(rows.push(x)[i] == rows[i]);
        } else {
            assert(rows.push(x)[i] == x);
        }
    }
}

/// Appending a pair an edge table does not yet hold keeps its pairs
/// unique.
pub proof fn lemma_pairs_unique_push(pairs: Seq<PairV>, left: i32, right: i32)
    requires
        pairs_unique(pairs),
        !contains_pair(pairs, left, right),
    ensures
        pairs_unique(pairs.push(PairV { left, right })),
{
    let pushed = pairs.push(PairV { left, right });
    assert forall|i: int, j: int| 0 <= i < j < pushed.len() implies pushed[i] != pushed[j] by {
        if j < pairs.len() {
            assert(pushed[i] == pairs[i] && pushed[j] == pairs[j]);
        } else {
            assert(pushed[i] == pairs[i]);
            assert(pushed[j] == PairV { left, right });
            if pairs[i] == (PairV { left, right }) {
                assert(contains_pair(pairs, left, right));
            }
        }
    }
}

/// The whole store.
pub struct Catalog {
    pub users: Vec<User>,
    pub admins: Vec<Admin>,
    pub performers: Vec<Performer>,
    pub composers: Vec<Composer>,
    pub songwriters: Vec<Songwriter>,
    pub pieces: Vec<DbPiece>,
    pub releases: Vec<DbRelease>,
    pub recordings: Vec<Recording>,
    pub piece_composers: Vec<PieceComposer>,
    pub piece_songwriters: Vec<PieceSongwriter>,
    pub release_performers: Vec<ReleasePerformer>,
    pub recording_performers: Vec<RecordingPerformer>,
}

/// The store's mathematical view: a sequence per table.
#[verifier::ext_equal]
pub ghost struct CatalogV {
    pub users: Seq<UserV>,
    pub admins: Seq<AdminV>,
    pub performers: Seq<ContributorV>,
    pub composers: Seq<ContributorV>,
    pub songwriters: Seq<ContributorV>,
    pub pieces: Seq<PieceRowV>,
    pub releases: Seq<ReleaseRowV>,
    pub recordings: Seq<RecordingRowV>,
    pub piece_composers: Seq<PairV>,
    pub piece_songwriters: Seq<PairV>,
    pub release_performers: Seq<PairV>,
    pub recording_performers: Seq<PairV>,
}

impl View for Catalog {
    type V = CatalogV;

    open spec fn view(&self) -> CatalogV {
        CatalogV {
            users: self.users@.map_values(|r: User| r@),
            admins: self.admins@.map_values(|r: Admin| r@),
            performers: self.performers@.map_values(|r: Performer| r@),
            composers: self.composers@.map_values(|r: Composer| r@),
            songwriters: self.songwriters@.map_values(|r: Songwriter| r@),
            pieces: self.pieces@.map_values(|r: DbPiece| r@),
            releases: self.releases@.map_values(|r: DbRelease| r@),
            recordings: self.recordings@.map_values(|r: Recording| r@),
            piece_composers: self.piece_composers@.map_values(|r: PieceComposer| r@),
            piece_songwriters: self.piece_songwriters@.map_values(|r: PieceSongwriter| r@),
            release_performers: self.release_performers@.map_values(|r: ReleasePerformer| r@),
            recording_performers: self.recording_performers@.map_values(|r: RecordingPerformer| r@),
        }
    }
}

impl CatalogV {
    /// A user row as stored is well formed when its password hash is a
    /// 64-character lowercase hexadecimal string, the form `adduser`
    /// writes.
    pub open spec fn user_wf(u: UserV) -> bool {
        &&& is_hex_lower(u.password_hash)
        &&& u.password_hash.len() == 64
    }

    /// Well-formedness of the whole store: identifiers are positional,
    /// usernames are unique, stored hashes are well formed, and each edge
    /// table holds a pair at most once. An edge's left side always names a
    /// row its parent table holds; its right side is deliberately not
    /// checked against the related table, matching the service's
    /// best-effort edge writes.
    pub open spec fn wf(self) -> bool {
        &&& ids_ok(self.users, |u: UserV| u.id)
        &&& ids_ok(self.admins, |a: AdminV| a.id)
        &&& ids_ok(self.performers, |c: ContributorV| c.id)
        &&& ids_ok(self.composers, |c: ContributorV| c.id)
        &&& ids_ok(self.songwriters, |c: ContributorV| c.id)
        &&& ids_ok(self.pieces, |p: PieceRowV| p.id)
        &&& ids_ok(self.releases, |r: ReleaseRowV| r.id)
        &&& ids_ok(self.recordings, |r: RecordingRowV| r.id)
        &&& forall|i: int, j: int|
            0 <= i < j < self.users.len() ==> self.users[i].username != self.users[j].username
        &&& forall|i: int| 0 <= i < self.users.len() ==> Self::user_wf(#[trigger] self.users[i])
        &&& pairs_unique(self.piece_composers)
        &&& pairs_unique(self.piece_songwriters)
        &&& pairs_unique(self.release_performers)
        &&& pairs_unique(self.recording_performers)
        &&& lefts_bounded(self.piece_composers, self.pieces.len())
        &&& lefts_bounded(self.piece_songwriters, self.pieces.len())
        &&& lefts_bounded(self.release_performers, self.releases.len())
        &&& lefts_bounded(self.recording_performers, self.recordings.len())
    }
}

impl Catalog {
    /// Create an empty store.
    pub fn new() -> (r: Catalog)
        ensures
            r@.wf(),
            r@.users.len() == 0,
            r@.admins.len() == 0,
            r@.performers.len() == 0,
            r@.composers.len() == 0,
            r@.songwriters.len() == 0,
            r@.pieces.len() == 0,
            r@.releases.len() == 0,
            r@.recordings.len() == 0,
            r@.piece_composers.len() == 0,
            r@.piece_songwriters.len() == 0,
            r@.release_performers.len() == 0,
            r@.recording_performers.len() == 0,
    {
        Catalog {
            users: Vec::new(),
            admins: Vec::new(),
            performers: Vec::new(),
            composers: Vec::new(),
            songwriters: Vec::new(),
            pieces: Vec::new(),
            releases: Vec::new(),
            recordings: Vec::new(),
            piece_composers: Vec::new(),
            piece_songwriters: Vec::new(),
            release_performers: Vec::new(),
            recording_performers: Vec::new(),
        }
    }
}

} // verus!
