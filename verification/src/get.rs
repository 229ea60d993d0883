//! The aggregate assembler and the read operations: a parent row plus the
//! identifiers its edge tables relate to it, assembled into one view
//! object, for single-item and bulk reads. A piece's songwriter list and a
//! release's recording list collapse to absent when empty; a recording's
//! performer list stays present even when empty.
use vstd::prelude::*;

use crate::models::{
    Composer, ContributorV, DbPiece, DbRelease, PairV, Performer, PieceRowV, Recording,
    RecordingRowV, ReleaseRowV, Songwriter, dup_opt_string, opt_ids_view,
};
use crate::store::{Catalog, CatalogV, contains_pair, row_for_id};
use crate::{IdRequest, Response};

verus! {

/// The related identifiers an edge table holds for one parent: the right
/// element of every pair whose left element is the parent's identifier, in
/// table order.
pub open spec fn ids_matching(pairs: Seq<PairV>, key: i32) -> Seq<i32>
    decreases pairs.len(),
{
    if pairs.len() == 0 {
        Seq::empty()
    } else {
        ids_matching(pairs.drop_last(), key) + if pairs.last().left == key {
            seq![pairs.last().right]
        } else {
            Seq::empty()
        }
    }
}

/// The identifiers of the recordings that sit on one release, in table
/// order.
pub open spec fn rec_ids_matching(recs: Seq<RecordingRowV>, release_id: i32) -> Seq<i32>
    decreases recs.len(),
{
    if recs.len() == 0 {
        Seq::empty()
    } else {
        rec_ids_matching(recs.drop_last(), release_id) + if recs.last().release_id == release_id {
            seq![recs.last().id]
        } else {
            Seq::empty()
        }
    }
}

/// An identifier is among an edge table's matches for a parent exactly
/// when the table holds that pair.
pub proof fn lemma_ids_matching_contains(pairs: Seq<PairV>, left: i32, r: i32)
    ensures
        ids_matching(pairs, left).contains(r) <==> contains_pair(pairs, left, r),
    decreases pairs.len(),
{
    if pairs.len() > 0 {
        let prefix = pairs.drop_last();
        lemma_ids_matching_contains(prefix, left, r);
        let out = ids_matching(pairs, left);
        let pre_ids = ids_matching(prefix, left);
        if out.contains(r) {
            let i = choose|i: int| 0 <= i < out.len() && out[i] == r;
            if i < pre_ids.len() {
                assert(pre_ids[i] == r);
                assert(pre_ids.contains(r));
                let w = choose|w: int|
                    0 <= w < prefix.len() && (#[trigger] prefix[w]).left == left && prefix[w].right
                        == r;
                assert(pairs[w] == prefix[w]);
                assert(contains_pair(pairs, left, r));
            } else {
                assert(pairs.last().left == left && pairs.last().right == r);
                assert(pairs[pairs.len() - 1] == pairs.last());
                assert(contains_pair(pairs, left, r));
            }
        }
        if contains_pair(pairs, left, r) {
            let w = choose|w: int|
                0 <= w < pairs.len() && (#[trigger] pairs[w]).left == left && pairs[w].right == r;
            if w < pairs.len() - 1 {
                assert(prefix[w] == pairs[w]);
                assert(contains_pair(prefix, left, r));
                assert(pre_ids.contains(r));
                let i = choose|i: int| 0 <= i < pre_ids.len() && pre_ids[i] == r;
                assert(out[i] == pre_ids[i]);
                assert(out.contains(r));
            } else {
                assert(pairs.last().left == left && pairs.last().right == r);
                assert(out[out.len() - 1] == r);
                assert(out.contains(r));
            }
        }
    }
}

/// A parent no edge mentions has no matches.
pub proof fn lemma_ids_matching_absent(pairs: Seq<PairV>, left: i32)
    requires
        forall|i: int| 0 <= i < pairs.len() ==> (#[trigger] pairs[i]).left != left,
    ensures
        ids_matching(pairs, left) == Seq::<i32>::empty(),
    decreases pairs.len(),
{
    if pairs.len() > 0 {
        let prefix = pairs.drop_last();
        assert forall|i: int| 0 <= i < prefix.len() implies (#[trigger] prefix[i]).left
            != left by {
            assert(prefix[i] == pairs[i]);
        }
        lemma_ids_matching_absent(prefix, left);
        assert(pairs.last() == pairs[pairs.len() - 1]);
        assert(ids_matching(pairs, left) =~= Seq::<i32>::empty());
    }
}

/// A piece with all its associated data.
pub struct Piece {
    pub id: i32,
    pub name: String,
    pub movements: Option<i32>,
    pub description: Option<String>,
    pub composer_ids: Vec<i32>,
    pub songwriter_ids: Option<Vec<i32>>,
}

#[verifier::ext_equal]
pub ghost struct PieceV {
    pub id: i32,
    pub name: Seq<char>,
    pub movements: Option<i32>,
    pub description: Option<Seq<char>>,
    pub composer_ids: Seq<i32>,
    pub songwriter_ids: Option<Seq<i32>>,
}

impl View for Piece {
    type V = PieceV;

    open spec fn view(&self) -> PieceV {
        PieceV {
            id: self.id,
            name: self.name@,
            movements: self.movements,
            description: crate::models::opt_view(self.description),
            composer_ids: self.composer_ids@,
            songwriter_ids: opt_ids_view(self.songwriter_ids),
        }
    }
}

impl PieceV {
    /// The not-found sentinel view.
    pub open spec fn sentinel() -> PieceV {
        PieceV {
            id: -1i32,
            name: Seq::empty(),
            movements: None,
            description: None,
            composer_ids: Seq::empty(),
            songwriter_ids: None,
        }
    }
}

impl Piece {
    /// Create an empty piece view, the not-found sentinel.
    pub fn new() -> (r: Self)
        ensures
            r@ == PieceV::sentinel(),
    {
        let r = Piece {
            id: -1,
            name: String::new(),
            movements: None,
            description: None,
            composer_ids: Vec::new(),
            songwriter_ids: None,
        };
        proof {
            assert(r@ =~= PieceV::sentinel());
        }
        r
    }
}

/// A release with all its associated data.
pub struct Release {
    pub id: i32,
    pub name: String,
    pub description: Option<String>,
    pub image_path: Option<String>,
    pub recording_ids: Option<Vec<i32>>,
    pub performer_ids: Vec<i32>,
}

#[verifier::ext_equal]
pub ghost struct ReleaseV {
    pub id: i32,
    pub name: Seq<char>,
    pub description: Option<Seq<char>>,
    pub image_path: Option<Seq<char>>,
    pub recording_ids: Option<Seq<i32>>,
    pub performer_ids: Seq<i32>,
}

impl View for Release {
    type V = ReleaseV;

    open spec fn view(&self) -> ReleaseV {
        ReleaseV {
            id: self.id,
            name: self.name@,
            description: crate::models::opt_view(self.description),
            image_path: crate::models::opt_view(self.image_path),
            recording_ids: opt_ids_view(self.recording_ids),
            performer_ids: self.performer_ids@,
        }
    }
}

impl ReleaseV {
    /// The not-found sentinel view.
    pub open spec fn sentinel() -> ReleaseV {
        ReleaseV {
            id: -1i32,
            name: Seq::empty(),
            description: None,
            image_path: None,
            recording_ids: None,
            performer_ids: Seq::empty(),
        }
    }
}

impl Release {
    /// Create an empty release view, the not-found sentinel.
    pub fn new() -> (r: Self)
        ensures
            r@ == ReleaseV::sentinel(),
    {
        let r = Release {
            id: -1,
            name: String::new(),
            description: None,
            image_path: None,
            recording_ids: None,
            performer_ids: Vec::new(),
        };
        proof {
            assert(r@ =~= ReleaseV::sentinel());
        }
        r
    }
}

/// A recording with its performers. The performer list is a required
/// collection: it stays present even when empty.
pub struct RecordingView {
    pub id: i32,
    pub piece_id: i32,
    pub release_id: i32,
    pub performer_ids: Vec<i32>,
    pub track_number: i32,
}

#[verifier::ext_equal]
pub ghost struct RecordingViewV {
    pub id: i32,
    pub piece_id: i32,
    pub release_id: i32,
    pub performer_ids: Seq<i32>,
    pub track_number: i32,
}

impl View for RecordingView {
    type V = RecordingViewV;

    open spec fn view(&self) -> RecordingViewV {
        RecordingViewV {
            id: self.id,
            piece_id: self.piece_id,
            release_id: self.release_id,
            performer_ids: self.performer_ids@,
            track_number: self.track_number,
        }
    }
}

/// The assembled view of one piece row.
pub open spec fn spec_piece_view(cat: CatalogV, row: PieceRowV) -> PieceV {
    let sws = ids_matching(cat.piece_songwriters, row.id);
    PieceV {
        id: row.id,
        name: row.name,
        movements: row.movements,
        description: row.description,
        composer_ids: ids_matching(cat.piece_composers, row.id),
        songwriter_ids: if sws.len() == 0 {
            None
        } else {
            Some(sws)
        },
    }
}

/// The assembled view of one release row.
pub open spec fn spec_release_view(cat: CatalogV, row: ReleaseRowV) -> ReleaseV {
    let recs = rec_ids_matching(cat.recordings, row.id);
    ReleaseV {
        id: row.id,
        name: row.name,
        description: row.description,
        image_path: row.image_path,
        recording_ids: if recs.len() == 0 {
            None
        } else {
            Some(recs)
        },
        performer_ids: ids_matching(cat.release_performers, row.id),
    }
}

/// The assembled view of one recording row.
pub open spec fn spec_recording_view(cat: CatalogV, row: RecordingRowV) -> RecordingViewV {
    RecordingViewV {
        id: row.id,
        piece_id: row.piece_id,
        release_id: row.release_id,
        performer_ids: ids_matching(cat.recording_performers, row.id),
        track_number: row.track_number,
    }
}

impl Catalog {
    /// The composers related to one piece.
    pub fn composer_ids_of(&self, piece_id: i32) -> (r: Vec<i32>)
        ensures
            r@ == ids_matching(self@.piece_composers, piece_id),
    {
        let ghost pairs = self@.piece_composers;
        let n = self.piece_composers.len();
        let mut r: Vec<i32> = Vec::new();
        let mut j: usize = 0;
        while j < n
            invariant
                n == pairs.len(),
                pairs == self@.piece_composers,
                j <= n,
                r@ == ids_matching(pairs.take(j as int), piece_id),
            decreases n - j,
        {
            proof {
                assert(pairs.take(j + 1).drop_last() =~= pairs.take(j as int));
                assert(pairs.take(j + 1).last() == pairs[j as int]);
            }
            let e = &self.piece_composers[j];
            if e.piece_id == piece_id {
                r.push(e.composer_id);
            }
            assert(r@ =~= ids_matching(pairs.take(j + 1), piece_id));
            j += 1;
        }
        proof {
            assert(pairs.take(n as int) =~= pairs);
        }
        r
    }

    /// The songwriters related to one piece.
    pub fn songwriter_ids_of(&self, piece_id: i32) -> (r: Vec<i32>)
        ensures
            r@ == ids_matching(self@.piece_songwriters, piece_id),
    {
        let ghost pairs = self@.piece_songwriters;
        let n = self.piece_songwriters.len();
        let mut r: Vec<i32> = Vec::new();
        let mut j: usize = 0;
        while j < n
            invariant
                n == pairs.len(),
                pairs == self@.piece_songwriters,
                j <= n,
                r@ == ids_matching(pairs.take(j as int), piece_id),
            decreases n - j,
        {
            proof {
                assert(pairs.take(j + 1).drop_last() =~= pairs.take(j as int));
                assert(pairs.take(j + 1).last() == pairs[j as int]);
            }
            let e = &self.piece_songwriters[j];
            if e.piece_id == piece_id {
                r.push(e.songwriter_id);
            }
            assert(r@ =~= ids_matching(pairs.take(j + 1), piece_id));
            j += 1;
        }
        proof {
            assert(pairs.take(n as int) =~= pairs);
        }
        r
    }

    /// The performers related to one release.
    pub fn release_performer_ids_of(&self, release_id: i32) -> (r: Vec<i32>)
        ensures
            r@ == ids_matching(self@.release_performers, release_id),
    {
        let ghost pairs = self@.release_performers;
        let n = self.release_performers.len();
        let mut r: Vec<i32> = Vec::new();
        let mut j: usize = 0;
        while j < n
            invariant
                n == pairs.len(),
                pairs == self@.release_performers,
                j <= n,
                r@ == ids_matching(pairs.take(j as int), release_id),
            decreases n - j,
        {
            proof {
                assert(pairs.take(j + 1).drop_last() =~= pairs.take(j as int));
                assert(pairs.take(j + 1).last() == pairs[j as int]);
            }
            let e = &self.release_performers[j];
            if e.release_id == release_id {
                r.push(e.performer_id);
            }
            assert(r@ =~= ids_matching(pairs.take(j + 1), release_id));
            j += 1;
        }
        proof {
            assert(pairs.take(n as int) =~= pairs);
        }
        r
    }

    /// The performers related to one recording.
    pub fn recording_performer_ids_of(&self, recording_id: i32) -> (r: Vec<i32>)
        ensures
            r@ == ids_matching(self@.recording_performers, recording_id),
    {
        let ghost pairs = self@.recording_performers;
        let n = self.recording_performers.len();
        let mut r: Vec<i32> = Vec::new();
        let mut j: usize = 0;
        while j < n
            invariant
                n == pairs.len(),
                pairs == self@.recording_performers,
                j <= n,
                r@ == ids_matching(pairs.take(j as int), recording_id),
            decreases n - j,
        {
            proof {
                assert(pairs.take(j + 1).drop_last() =~= pairs.take(j as int));
                assert(pairs.take(j + 1).last() == pairs[j as int]);
            }
            let e = &self.recording_performers[j];
            if e.recording_id == recording_id {
                r.push(e.performer_id);
            }
            assert(r@ =~= ids_matching(pairs.take(j + 1), recording_id));
            j += 1;
        }
        proof {
            assert(pairs.take(n as int) =~= pairs);
        }
        r
    }

    /// The recordings that sit on one release.
    pub fn recording_ids_of(&self, release_id: i32) -> (r: Vec<i32>)
        ensures
            r@ == rec_ids_matching(self@.recordings, release_id),
    {
        let ghost recs = self@.recordings;
        let n = self.recordings.len();
        let mut r: Vec<i32> = Vec::new();
        let mut j: usize = 0;
        while j < n
            invariant
                n == recs.len(),
                recs == self@.recordings,
                j <= n,
                r@ == rec_ids_matching(recs.take(j as int), release_id),
            decreases n - j,
        {
            proof {
                assert(recs.take(j + 1).drop_last() =~= recs.take(j as int));
                assert(recs.take(j + 1).last() == recs[j as int]);
            }
            let e = &self.recordings[j];
            if e.release_id == release_id {
                r.push(e.id);
            }
            assert(r@ =~= rec_ids_matching(recs.take(j + 1), release_id));
            j += 1;
        }
        proof {
            assert(recs.take(n as int) =~= recs);
        }
        r
    }

    /// Assemble the view of one piece row.
    pub fn build_piece_view(&self, row: &DbPiece) -> (p: Piece)
        ensures
            p@ == spec_piece_view(self@, row@),
    {
        let composer_ids = self.composer_ids_of(row.id);
        let sw = self.songwriter_ids_of(row.id);
        // a piece's songwriter list is absent, not empty, when no edges exist
        let songwriter_ids = if sw.len() == 0 {
            None
        } else {
            Some(sw)
        };
        let p = Piece {
            id: row.id,
            name: row.name.clone(),
            movements: row.movements,
            description: dup_opt_string(&row.description),
            composer_ids,
            songwriter_ids,
        };
        proof {
            assert(p@ =~= spec_piece_view(self@, row@));
        }
        p
    }

    /// Assemble the view of one release row.
    pub fn build_release_view(&self, row: &DbRelease) -> (p: Release)
        ensures
            p@ == spec_release_view(self@, row@),
    {
        let performer_ids = self.release_performer_ids_of(row.id);
        let recs = self.recording_ids_of(row.id);
        // a release's recording list is absent, not empty, when none exist
        let recording_ids = if recs.len() == 0 {
            None
        } else {
            Some(recs)
        };
        let p = Release {
            id: row.id,
            name: row.name.clone(),
            description: dup_opt_string(&row.description),
            image_path: dup_opt_string(&row.image_path),
            recording_ids,
            performer_ids,
        };
        proof {
            assert(p@ =~= spec_release_view(self@, row@));
        }
        p
    }

    /// Assemble the view of one recording row. The performer list stays
    /// present even when empty.
    pub fn build_recording_view(&self, row: &Recording) -> (p: RecordingView)
        ensures
            p@ == spec_recording_view(self@, row@),
    {
        let performer_ids = self.recording_performer_ids_of(row.id);
        let p = RecordingView {
            id: row.id,
            piece_id: row.piece_id,
            release_id: row.release_id,
            performer_ids,
            track_number: row.track_number,
        };
        proof {
            assert(p@ =~= spec_recording_view(self@, row@));
        }
        p
    }
}

/// Get one piece by id, assembled with its composers and songwriters.
pub fn getpiece(store: &Catalog, req: IdRequest) -> (r: Response<Piece>)
    ensures
        match row_for_id(store@.pieces, req.id) {
            Some(row) => r.success && r.message@ == spec_piece_view(store@, row),
            None => !r.success && r.message@ == PieceV::sentinel(),
        },
{
    if req.id >= 1 && (req.id as usize) <= store.pieces.len() {
        let row = &store.pieces[(req.id - 1) as usize];
        Response { success: true, message: store.build_piece_view(row) }
    } else {
        Response { success: false, message: Piece::new() }
    }
}

/// Get all pieces, each assembled with its composers and songwriters.
pub fn getpieces(store: &Catalog) -> (r: Response<Vec<Piece>>)
    ensures
        r.success,
        r.message@.len() == store@.pieces.len(),
        forall|i: int|
            0 <= i < store@.pieces.len() ==> (#[trigger] r.message@[i])@ == spec_piece_view(
                store@,
                store@.pieces[i],
            ),
{
    let n = store.pieces.len();
    let mut out: Vec<Piece> = Vec::new();
    let mut i: usize = 0;
    while i < n
        invariant
            n == store@.pieces.len(),
            i <= n,
            out@.len() == i,
            forall|k: int|
                0 <= k < i ==> (#[trigger] out@[k])@ == spec_piece_view(store@, store@.pieces[k]),
        decreases n - i,
    {
        out.push(store.build_piece_view(&store.pieces[i]));
        i += 1;
    }
    Response { success: true, message: out }
}

/// Get one release by id, assembled with its performers and recordings.
pub fn getrelease(store: &Catalog, req: IdRequest) -> (r: Response<Release>)
    ensures
        match row_for_id(store@.releases, req.id) {
            Some(row) => r.success && r.message@ == spec_release_view(store@, row),
            None => !r.success && r.message@ == ReleaseV::sentinel(),
        },
{
    if req.id >= 1 && (req.id as usize) <= store.releases.len() {
        let row = &store.releases[(req.id - 1) as usize];
        Response { success: true, message: store.build_release_view(row) }
    } else {
        Response { success: false, message: Release::new() }
    }
}

/// Get all releases, each assembled with its performers and recordings.
pub fn getreleases(store: &Catalog) -> (r: Response<Vec<Release>>)
    ensures
        r.success,
        r.message@.len() == store@.releases.len(),
        forall|i: int|
            0 <= i < store@.releases.len() ==> (#[trigger] r.message@[i])@ == spec_release_view(
                store@,
                store@.releases[i],
            ),
{
    let n = store.releases.len();
    let mut out: Vec<Release> = Vec::new();
    let mut i: usize = 0;
    while i < n
        invariant
            n == store@.releases.len(),
            i <= n,
            out@.len() == i,
            forall|k: int|
                0 <= k < i ==> (#[trigger] out@[k])@ == spec_release_view(
                    store@,
                    store@.releases[k],
                ),
        decreases n - i,
    {
        out.push(store.build_release_view(&store.releases[i]));
        i += 1;
    }
    Response { success: true, message: out }
}

/// Get one performer by id.
pub fn getperformer(store: &Catalog, req: IdRequest) -> (r: Response<Performer>)
    ensures
        match row_for_id(store@.performers, req.id) {
            Some(row) => r.success && r.message@ == row,
            None => !r.success && r.message@ == ContributorV::sentinel(),
        },
{
    if req.id >= 1 && (req.id as usize) <= store.performers.len() {
        Response { success: true, message: store.performers[(req.id - 1) as usize].duplicate() }
    } else {
        Response { success: false, message: Performer::new() }
    }
}

/// Get all performers.
pub fn getperformers(store: &Catalog) -> (r: Response<Vec<Performer>>)
    ensures
        r.success,
        r.message@.len() == store@.performers.len(),
        forall|i: int|
            0 <= i < store@.performers.len() ==> (#[trigger] r.message@[i])@
                == store@.performers[i],
{
    let n = store.performers.len();
    let mut out: Vec<Performer> = Vec::new();
    let mut i: usize = 0;
    while i < n
        invariant
            n == store@.performers.len(),
            i <= n,
            out@.len() == i,
            forall|k: int| 0 <= k < i ==> (#[trigger] out@[k])@ == store@.performers[k],
        decreases n - i,
    {
        out.push(store.performers[i].duplicate());
        i += 1;
    }
    Response { success: true, message: out }
}

/// Get one composer by id.
pub fn getcomposer(store: &Catalog, req: IdRequest) -> (r: Response<Composer>)
    ensures
        match row_for_id(store@.composers, req.id) {
            Some(row) => r.success && r.message@ == row,
            None => !r.success && r.message@ == ContributorV::sentinel(),
        },
{
    if req.id >= 1 && (req.id as usize) <= store.composers.len() {
        Response { success: true, message: store.composers[(req.id - 1) as usize].duplicate() }
    } else {
        Response { success: false, message: Composer::new() }
    }
}

/// Get all composers.
pub fn getcomposers(store: &Catalog) -> (r: Response<Vec<Composer>>)
    ensures
        r.success,
        r.message@.len() == store@.composers.len(),
        forall|i: int|
            0 <= i < store@.composers.len() ==> (#[trigger] r.message@[i])@ == store@.composers[i],
{
    let n = store.composers.len();
    let mut out: Vec<Composer> = Vec::new();
    let mut i: usize = 0;
    while i < n
        invariant
            n == store@.composers.len(),
            i <= n,
            out@.len() == i,
            forall|k: int| 0 <= k < i ==> (#[trigger] out@[k])@ == store@.composers[k],
        decreases n - i,
    {
        out.push(store.composers[i].duplicate());
        i += 1;
    }
    Response { success: true, message: out }
}

/// Get one songwriter by id.
pub fn getsongwriter(store: &Catalog, req: IdRequest) -> (r: Response<Songwriter>)
    ensures
        match row_for_id(store@.songwriters, req.id) {
            Some(row) => r.success && r.message@ == row,
            None => !r.success && r.message@ == ContributorV::sentinel(),
        },
{
    if req.id >= 1 && (req.id as usize) <= store.songwriters.len() {
        Response { success: true, message: store.songwriters[(req.id - 1) as usize].duplicate() }
    } else {
        Response { success: false, message: Songwriter::new() }
    }
}

/// Get all songwriters.
pub fn getsongwriters(store: &Catalog) -> (r: Response<Vec<Songwriter>>)
    ensures
        r.success,
        r.message@.len() == store@.songwriters.len(),
        forall|i: int|
            0 <= i < store@.songwriters.len() ==> (#[trigger] r.message@[i])@
                == store@.songwriters[i],
{
    let n = store.songwriters.len();
    let mut out: Vec<Songwriter> = Vec::new();
    let mut i: usize = 0;
    while i < n
        invariant
            n == store@.songwriters.len(),
            i <= n,
            out@.len() == i,
            forall|k: int| 0 <= k < i ==> (#[trigger] out@[k])@ == store@.songwriters[k],
        decreases n - i,
    {
        out.push(store.songwriters[i].duplicate());
        i += 1;
    }
    Response { success: true, message: out }
}

} // verus!
