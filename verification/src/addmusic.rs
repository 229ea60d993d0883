//! The write side of the catalog: creating contributors, pieces, releases
//! and recordings. Every write is gated on admin authorization. Creation
//! is two-phase where a derived path is wanted: the row is inserted first,
//! the path is computed from the identifier the insert produced, and the
//! row is patched. Edge rows are written best-effort: a duplicate pair is
//! quietly skipped.
use vstd::prelude::*;

use crate::auth::{check_admin, spec_is_admin};
use crate::models::{
    AddArtistRequest, AddPieceRequest, AddRecordingRequest, AddReleaseRequest, Composer,
    ContributorV, DbRelease, PairV, Performer, PieceComposer, PieceRowV, PieceSongwriter,
    Recording, RecordingPerformer, RecordingRowV, ReleasePerformer, ReleaseRowV, Songwriter,
    dup_opt_string, opt_ids_view, opt_view,
};
use crate::store::{
    Catalog, CatalogV, MAX_TABLE, contains_pair, ids_ok, lefts_bounded, lemma_ids_ok_push,
    lemma_pairs_unique_push, pairs_unique, row_for_id,
};
use crate::insert::{NewComposer, NewPerformer, NewPiece, NewRelease, NewSongwriter};
use crate::strutil::{dec_digits, u32_to_string};
use crate::crypto::now_seconds;
use crate::Response;

verus! {

/// The derived path convention: the entity's kind, a hyphen, and its
/// identifier in decimal.
pub open spec fn path_of(kind: Seq<char>, id: i32) -> Seq<char>
    recommends
        id >= 0,
{
    kind + seq!['-'] + dec_digits(id as nat)
}

/// Compute a derived path. The identifier exists before the path does.
pub fn derived_path(kind: &str, id: i32) -> (r: String)
    requires
        id >= 0,
    ensures
        r@ == path_of(kind@, id),
{
    let mut s = String::from_str(kind);
    s.push('-');
    let digits = u32_to_string(id as u32);
    s.append(digits.as_str());
    proof {
        assert(s@ =~= path_of(kind@, id));
    }
    s
}

/// One best-effort edge insert: a pair the table already holds is left
/// alone.
pub open spec fn add_edge(pairs: Seq<PairV>, left: i32, right: i32) -> Seq<PairV> {
    if contains_pair(pairs, left, right) {
        pairs
    } else {
        pairs.push(PairV { left, right })
    }
}

/// Best-effort edge inserts for one parent and a list of related
/// identifiers, in order.
pub open spec fn add_edges(pairs: Seq<PairV>, left: i32, rights: Seq<i32>) -> Seq<PairV>
    decreases rights.len(),
{
    if rights.len() == 0 {
        pairs
    } else {
        add_edge(add_edges(pairs, left, rights.drop_last()), left, rights.last())
    }
}

/// Appending edges leaves the earlier pairs in place, and every appended
/// pair carries the given parent identifier.
pub proof fn lemma_add_edges_frame(pairs: Seq<PairV>, left: i32, rights: Seq<i32>)
    ensures
        ({
            let out = add_edges(pairs, left, rights);
            &&& out.len() >= pairs.len()
            &&& forall|i: int| 0 <= i < pairs.len() ==> out[i] == pairs[i]
            &&& forall|i: int| pairs.len() <= i < out.len() ==> out[i].left == left
        }),
    decreases rights.len(),
{
    if rights.len() > 0 {
        lemma_add_edges_frame(pairs, left, rights.drop_last());
    }
}

/// Appending edges for a parent the table may hold keeps every parent
/// identifier in bounds.
pub proof fn lemma_add_edges_bounded(
    pairs: Seq<PairV>,
    left: i32,
    rights: Seq<i32>,
    old_count: nat,
    new_count: nat,
)
    requires
        lefts_bounded(pairs, old_count),
        1 <= left <= new_count,
        old_count <= new_count,
    ensures
        lefts_bounded(add_edges(pairs, left, rights), new_count),
{
    lemma_add_edges_frame(pairs, left, rights);
    let out = add_edges(pairs, left, rights);
    assert forall|i: int| 0 <= i < out.len() implies 1 <= (#[trigger] out[i]).left <= new_count by {
        if i < pairs.len() {
            assert(out[i] == pairs[i]);
            assert(1 <= pairs[i].left <= old_count);
        }
    }
}

/// What pairs an edge table holds after best-effort inserts: the old
/// pairs, plus one pair under the given parent for each distinct requested
/// identifier.
pub proof fn lemma_add_edges_contains(
    pairs: Seq<PairV>,
    left: i32,
    rights: Seq<i32>,
    l2: i32,
    r: i32,
)
    ensures
        contains_pair(add_edges(pairs, left, rights), l2, r) <==> (contains_pair(pairs, l2, r) || (
        l2 == left && rights.contains(r))),
    decreases rights.len(),
{
    if rights.len() == 0 {
        assert(!rights.contains(r));
    } else {
        let prefix = rights.drop_last();
        lemma_add_edges_contains(pairs, left, prefix, l2, r);
        let mid = add_edges(pairs, left, prefix);
        assert(rights.contains(r) <==> (prefix.contains(r) || rights.last() == r)) by {
            if rights.contains(r) {
                let i = choose|i: int| 0 <= i < rights.len() && rights[i] == r;
                if i < rights.len() - 1 {
                    assert(prefix[i] == r);
                }
            }
            if prefix.contains(r) {
                let i = choose|i: int| 0 <= i < prefix.len() && prefix[i] == r;
                assert(rights[i] == r);
            }
            if rights.last() == r {
                assert(rights[rights.len() - 1] == r);
            }
        }
        if !contains_pair(mid, left, rights.last()) {
            let out = mid.push(PairV { left, right: rights.last() });
            assert(contains_pair(out, l2, r) <==> (contains_pair(mid, l2, r) || (l2 == left
                && rights.last() == r))) by {
                if contains_pair(out, l2, r) {
                    let w = choose|w: int|
                        0 <= w < out.len() && (#[trigger] out[w]).left == l2 && out[w].right == r;
                    if w < mid.len() {
                        assert(mid[w] == out[w]);
                        assert(contains_pair(mid, l2, r));
                    }
                }
                if contains_pair(mid, l2, r) {
                    let w = choose|w: int|
                        0 <= w < mid.len() && (#[trigger] mid[w]).left == l2 && mid[w].right == r;
                    assert(out[w] == mid[w]);
                    assert(contains_pair(out, l2, r));
                }
                if l2 == left && rights.last() == r {
                    assert(out[out.len() - 1].left == l2 && out[out.len() - 1].right == r);
                    assert(contains_pair(out, l2, r));
                }
            }
        }
    }
}

/// Appending edges keeps an edge table's pairs unique.
pub proof fn lemma_add_edges_unique(pairs: Seq<PairV>, left: i32, rights: Seq<i32>)
    requires
        pairs_unique(pairs),
    ensures
        pairs_unique(add_edges(pairs, left, rights)),
    decreases rights.len(),
{
    if rights.len() > 0 {
        lemma_add_edges_unique(pairs, left, rights.drop_last());
        let mid = add_edges(pairs, left, rights.drop_last());
        if !contains_pair(mid, left, rights.last()) {
            lemma_pairs_unique_push(mid, left, rights.last());
        }
    }
}

impl Catalog {
    /// Whether the piece-composer table holds this pair.
    fn has_piece_composer(&self, left: i32, right: i32) -> (r: bool)
        ensures
            r == contains_pair(self@.piece_composers, left, right),
    {
        let n = self.piece_composers.len();
        let mut i: usize = 0;
        while i < n
            invariant
                n == self@.piece_composers.len(),
                i <= n,
                forall|k: int|
                    0 <= k < i ==> !((#[trigger] self@.piece_composers[k]).left == left
                        && self@.piece_composers[k].right == right),
            decreases n - i,
        {
            let e = &self.piece_composers[i];
            if e.piece_id == left && e.composer_id == right {
                assert(self@.piece_composers[i as int] == PairV { left, right });
                return true;
            }
            i += 1;
        }
        false
    }

    /// Whether the piece-songwriter table holds this pair.
    fn has_piece_songwriter(&self, left: i32, right: i32) -> (r: bool)
        ensures
            r == contains_pair(self@.piece_songwriters, left, right),
    {
        let n = self.piece_songwriters.len();
        let mut i: usize = 0;
        while i < n
            invariant
                n == self@.piece_songwriters.len(),
                i <= n,
                forall|k: int|
                    0 <= k < i ==> !((#[trigger] self@.piece_songwriters[k]).left == left
                        && self@.piece_songwriters[k].right == right),
            decreases n - i,
        {
            let e = &self.piece_songwriters[i];
            if e.piece_id == left && e.songwriter_id == right {
                assert(self@.piece_songwriters[i as int] == PairV { left, right });
                return true;
            }
            i += 1;
        }
        false
    }

    /// Whether the release-performer table holds this pair.
    fn has_release_performer(&self, left: i32, right: i32) -> (r: bool)
        ensures
            r == contains_pair(self@.release_performers, left, right),
    {
        let n = self.release_performers.len();
        let mut i: usize = 0;
        while i < n
            invariant
                n == self@.release_performers.len(),
                i <= n,
                forall|k: int|
                    0 <= k < i ==> !((#[trigger] self@.release_performers[k]).left == left
                        && self@.release_performers[k].right == right),
            decreases n - i,
        {
            let e = &self.release_performers[i];
            if e.release_id == left && e.performer_id == right {
                assert(self@.release_performers[i as int] == PairV { left, right });
                return true;
            }
            i += 1;
        }
        false
    }

    /// Whether the recording-performer table holds this pair.
    fn has_recording_performer(&self, left: i32, right: i32) -> (r: bool)
        ensures
            r == contains_pair(self@.recording_performers, left, right),
    {
        let n = self.recording_performers.len();
        let mut i: usize = 0;
        while i < n
            invariant
                n == self@.recording_performers.len(),
                i <= n,
                forall|k: int|
                    0 <= k < i ==> !((#[trigger] self@.recording_performers[k]).left == left
                        && self@.recording_performers[k].right == right),
            decreases n - i,
        {
            let e = &self.recording_performers[i];
            if e.recording_id == left && e.performer_id == right {
                assert(self@.recording_performers[i as int] == PairV { left, right });
                return true;
            }
            i += 1;
        }
        false
    }

    /// Insert piece-composer edges best-effort.
    fn add_piece_composer_edges(&mut self, left: i32, rights: &Vec<i32>)
        requires
            pairs_unique(old(self)@.piece_composers),
        ensures
            final(self)@ == (CatalogV {
                piece_composers: add_edges(old(self)@.piece_composers, left, rights@),
                ..old(self)@
            }),
            pairs_unique(final(self)@.piece_composers),
    {
        let ghost orig = self@;
        let n = rights.len();
        let mut k: usize = 0;
        while k < n
            invariant
                n == rights@.len(),
                k <= n,
                self@ == (CatalogV {
                    piece_composers: add_edges(orig.piece_composers, left, rights@.take(k as int)),
                    ..orig
                }),
                pairs_unique(self@.piece_composers),
            decreases n - k,
        {
            proof {
                assert(rights@.take(k + 1).drop_last() =~= rights@.take(k as int));
                assert(rights@.take(k + 1).last() == rights@[k as int]);
            }
            let right = rights[k];
            if !self.has_piece_composer(left, right) {
                proof {
                    lemma_pairs_unique_push(self@.piece_composers, left, right);
                }
                self.piece_composers.push(PieceComposer { piece_id: left, composer_id: right });
                assert(self@ =~= (CatalogV {
                    piece_composers: add_edges(orig.piece_composers, left, rights@.take(k + 1)),
                    ..orig
                }));
            }
            k += 1;
        }
        proof {
            assert(rights@.take(n as int) =~= rights@);
        }
    }

    /// Insert piece-songwriter edges best-effort.
    fn add_piece_songwriter_edges(&mut self, left: i32, rights: &Vec<i32>)
        requires
            pairs_unique(old(self)@.piece_songwriters),
        ensures
            final(self)@ == (CatalogV {
                piece_songwriters: add_edges(old(self)@.piece_songwriters, left, rights@),
                ..old(self)@
            }),
            pairs_unique(final(self)@.piece_songwriters),
    {
        let ghost orig = self@;
        let n = rights.len();
        let mut k: usize = 0;
        while k < n
            invariant
                n == rights@.len(),
                k <= n,
                self@ == (CatalogV {
                    piece_songwriters: add_edges(
                        orig.piece_songwriters,
                        left,
                        rights@.take(k as int),
                    ),
                    ..orig
                }),
                pairs_unique(self@.piece_songwriters),
            decreases n - k,
        {
            proof {
                assert(rights@.take(k + 1).drop_last() =~= rights@.take(k as int));
                assert(rights@.take(k + 1).last() == rights@[k as int]);
            }
            let right = rights[k];
            if !self.has_piece_songwriter(left, right) {
                proof {
                    lemma_pairs_unique_push(self@.piece_songwriters, left, right);
                }
                self.piece_songwriters.push(
                    PieceSongwriter { piece_id: left, songwriter_id: right },
                );
                assert(self@ =~= (CatalogV {
                    piece_songwriters: add_edges(orig.piece_songwriters, left, rights@.take(k + 1)),
                    ..orig
                }));
            }
            k += 1;
        }
        proof {
            assert(rights@.take(n as int) =~= rights@);
        }
    }

    /// Insert release-performer edges best-effort.
    fn add_release_performer_edges(&mut self, left: i32, rights: &Vec<i32>)
        requires
            pairs_unique(old(self)@.release_performers),
        ensures
            final(self)@ == (CatalogV {
                release_performers: add_edges(old(self)@.release_performers, left, rights@),
                ..old(self)@
            }),
            pairs_unique(final(self)@.release_performers),
    {
        let ghost orig = self@;
        let n = rights.len();
        let mut k: usize = 0;
        while k < n
            invariant
                n == rights@.len(),
                k <= n,
                self@ == (CatalogV {
                    release_performers: add_edges(
                        orig.release_performers,
                        left,
                        rights@.take(k as int),
                    ),
                    ..orig
                }),
                pairs_unique(self@.release_performers),
            decreases n - k,
        {
            proof {
                assert(rights@.take(k + 1).drop_last() =~= rights@.take(k as int));
                assert(rights@.take(k + 1).last() == rights@[k as int]);
            }
            let right = rights[k];
            if !self.has_release_performer(left, right) {
                proof {
                    lemma_pairs_unique_push(self@.release_performers, left, right);
                }
                self.release_performers.push(
                    ReleasePerformer { release_id: left, performer_id: right },
                );
                assert(self@ =~= (CatalogV {
                    release_performers: add_edges(
                        orig.release_performers,
                        left,
                        rights@.take(k + 1),
                    ),
                    ..orig
                }));
            }
            k += 1;
        }
        proof {
            assert(rights@.take(n as int) =~= rights@);
        }
    }

    /// Insert recording-performer edges best-effort.
    fn add_recording_performer_edges(&mut self, left: i32, rights: &Vec<i32>)
        requires
            pairs_unique(old(self)@.recording_performers),
        ensures
            final(self)@ == (CatalogV {
                recording_performers: add_edges(old(self)@.recording_performers, left, rights@),
                ..old(self)@
            }),
            pairs_unique(final(self)@.recording_performers),
    {
        let ghost orig = self@;
        let n = rights.len();
        let mut k: usize = 0;
        while k < n
            invariant
                n == rights@.len(),
                k <= n,
                self@ == (CatalogV {
                    recording_performers: add_edges(
                        orig.recording_performers,
                        left,
                        rights@.take(k as int),
                    ),
                    ..orig
                }),
                pairs_unique(self@.recording_performers),
            decreases n - k,
        {
            proof {
                assert(rights@.take(k + 1).drop_last() =~= rights@.take(k as int));
                assert(rights@.take(k + 1).last() == rights@[k as int]);
            }
            let right = rights[k];
            if !self.has_recording_performer(left, right) {
                proof {
                    lemma_pairs_unique_push(self@.recording_performers, left, right);
                }
                self.recording_performers.push(
                    RecordingPerformer { recording_id: left, performer_id: right },
                );
                assert(self@ =~= (CatalogV {
                    recording_performers: add_edges(
                        orig.recording_performers,
                        left,
                        rights@.take(k + 1),
                    ),
                    ..orig
                }));
            }
            k += 1;
        }
        proof {
            assert(rights@.take(n as int) =~= rights@);
        }
    }
}

/// What creating a contributor does to its table: the row takes the next
/// identifier; if an image was announced, the path derived from that
/// identifier is written back, and it is also the returned message.
pub open spec fn spec_add_contributor(
    rows: Seq<ContributorV>,
    kind: Seq<char>,
    name: Seq<char>,
    description: Option<Seq<char>>,
    has_image: bool,
) -> (Seq<ContributorV>, Seq<char>) {
    let id = (rows.len() + 1) as i32;
    let path = path_of(kind, id);
    let row = ContributorV {
        id,
        name,
        description,
        image_path: if has_image {
            Some(path)
        } else {
            None
        },
    };
    (rows.push(row), if has_image {
        path
    } else {
        Seq::empty()
    })
}

/// Add a performer; the returned message is the derived image path if one
/// was announced, empty otherwise.
pub fn db_addperformer(store: &mut Catalog, req: AddArtistRequest) -> (r: Response<String>)
    requires
        old(store)@.wf(),
        old(store)@.performers.len() < MAX_TABLE,
    ensures
        final(store)@.wf(),
        final(store)@ == (CatalogV {
            performers: spec_add_contributor(
                old(store)@.performers,
                "performer"@,
                req.name@,
                opt_view(req.description),
                req.has_image,
            ).0,
            ..old(store)@
        }),
        r.success,
        r.message@ == spec_add_contributor(
            old(store)@.performers,
            "performer"@,
            req.name@,
            opt_view(req.description),
            req.has_image,
        ).1,
{
    let ghost orig = store@;
    let id_pos = store.performers.len() + 1;
    let id = id_pos as i32;
    // two-phase: insert without a path, then patch in the path derived
    // from the new identifier
    let new_performer = NewPerformer { name: req.name, description: req.description, image_path: None };
    store.performers.push(new_performer.into_row(id));
    let mut message = String::new();
    if req.has_image {
        let path = derived_path("performer", id);
        let p = &store.performers[id_pos - 1];
        let updated = Performer {
            id: p.id,
            name: p.name.clone(),
            description: dup_opt_string(&p.description),
            image_path: Some(path.clone()),
        };
        store.performers.set(id_pos - 1, updated);
        message = path;
    }
    proof {
        let out = spec_add_contributor(
            orig.performers,
            "performer"@,
            req.name@,
            opt_view(req.description),
            req.has_image,
        );
        assert(store@.performers =~= out.0);
        assert(store@ =~= (CatalogV { performers: out.0, ..orig }));
        lemma_ids_ok_push(orig.performers, |c: ContributorV| c.id, out.0.last());
        assert(ids_ok(store@.performers, |c: ContributorV| c.id));
    }
    Response { success: true, message }
}

/// Add a composer; the returned message is the derived image path if one
/// was announced, empty otherwise.
pub fn db_addcomposer(store: &mut Catalog, req: AddArtistRequest) -> (r: Response<String>)
    requires
        old(store)@.wf(),
        old(store)@.composers.len() < MAX_TABLE,
    ensures
        final(store)@.wf(),
        final(store)@ == (CatalogV {
            composers: spec_add_contributor(
                old(store)@.composers,
                "composer"@,
                req.name@,
                opt_view(req.description),
                req.has_image,
            ).0,
            ..old(store)@
        }),
        r.success,
        r.message@ == spec_add_contributor(
            old(store)@.composers,
            "composer"@,
            req.name@,
            opt_view(req.description),
            req.has_image,
        ).1,
{
    let ghost orig = store@;
    let id_pos = store.composers.len() + 1;
    let id = id_pos as i32;
    let new_composer = NewComposer { name: req.name, description: req.description, image_path: None };
    store.composers.push(new_composer.into_row(id));
    let mut message = String::new();
    if req.has_image {
        let path = derived_path("composer", id);
        let p = &store.composers[id_pos - 1];
        let updated = Composer {
            id: p.id,
            name: p.name.clone(),
            description: dup_opt_string(&p.description),
            image_path: Some(path.clone()),
        };
        store.composers.set(id_pos - 1, updated);
        message = path;
    }
    proof {
        let out = spec_add_contributor(
            orig.composers,
            "composer"@,
            req.name@,
            opt_view(req.description),
            req.has_image,
        );
        assert(store@.composers =~= out.0);
        assert(store@ =~= (CatalogV { composers: out.0, ..orig }));
        lemma_ids_ok_push(orig.composers, |c: ContributorV| c.id, out.0.last());
        assert(ids_ok(store@.composers, |c: ContributorV| c.id));
    }
    Response { success: true, message }
}

/// Add a songwriter; the returned message is the derived image path if one
/// was announced, empty otherwise.
pub fn db_addsongwriter(store: &mut Catalog, req: AddArtistRequest) -> (r: Response<String>)
    requires
        old(store)@.wf(),
        old(store)@.songwriters.len() < MAX_TABLE,
    ensures
        final(store)@.wf(),
        final(store)@ == (CatalogV {
            songwriters: spec_add_contributor(
                old(store)@.songwriters,
                "songwriter"@,
                req.name@,
                opt_view(req.description),
                req.has_image,
            ).0,
            ..old(store)@
        }),
        r.success,
        r.message@ == spec_add_contributor(
            old(store)@.songwriters,
            "songwriter"@,
            req.name@,
            opt_view(req.description),
            req.has_image,
        ).1,
{
    let ghost orig = store@;
    let id_pos = store.songwriters.len() + 1;
    let id = id_pos as i32;
    let new_songwriter = NewSongwriter { name: req.name, description: req.description, image_path: None };
    store.songwriters.push(new_songwriter.into_row(id));
    let mut message = String::new();
    if req.has_image {
        let path = derived_path("songwriter", id);
        let p = &store.songwriters[id_pos - 1];
        let updated = Songwriter {
            id: p.id,
            name: p.name.clone(),
            description: dup_opt_string(&p.description),
            image_path: Some(path.clone()),
        };
        store.songwriters.set(id_pos - 1, updated);
        message = path;
    }
    proof {
        let out = spec_add_contributor(
            orig.songwriters,
            "songwriter"@,
            req.name@,
            opt_view(req.description),
            req.has_image,
        );
        assert(store@.songwriters =~= out.0);
        assert(store@ =~= (CatalogV { songwriters: out.0, ..orig }));
        lemma_ids_ok_push(orig.songwriters, |c: ContributorV| c.id, out.0.last());
        assert(ids_ok(store@.songwriters, |c: ContributorV| c.id));
    }
    Response { success: true, message }
}

/// What adding an artist does to the store: the token must belong to an
/// admin, and the artist type picks the contributor table; any other type
/// string is refused.
pub open spec fn spec_addartist(cat: CatalogV, req: AddArtistRequest, now: i64) -> (
    CatalogV,
    bool,
    Seq<char>,
) {
    if !spec_is_admin(cat, req.token@, now) {
        (cat, false, "User is not an admin"@)
    } else if req.artist_type@ == "performer"@ {
        let out = spec_add_contributor(
            cat.performers,
            "performer"@,
            req.name@,
            opt_view(req.description),
            req.has_image,
        );
        (CatalogV { performers: out.0, ..cat }, true, out.1)
    } else if req.artist_type@ == "composer"@ {
        let out = spec_add_contributor(
            cat.composers,
            "composer"@,
            req.name@,
            opt_view(req.description),
            req.has_image,
        );
        (CatalogV { composers: out.0, ..cat }, true, out.1)
    } else if req.artist_type@ == "songwriter"@ {
        let out = spec_add_contributor(
            cat.songwriters,
            "songwriter"@,
            req.name@,
            opt_view(req.description),
            req.has_image,
        );
        (CatalogV { songwriters: out.0, ..cat }, true, out.1)
    } else {
        (cat, false, "Invalid artist type"@)
    }
}

/// Add an artist of the requested type at time `now`, after the admin
/// check.
pub fn db_addartist(store: &mut Catalog, req: AddArtistRequest, now: i64) -> (r: Response<String>)
    requires
        old(store)@.wf(),
        old(store)@.performers.len() < MAX_TABLE,
        old(store)@.composers.len() < MAX_TABLE,
        old(store)@.songwriters.len() < MAX_TABLE,
    ensures
        final(store)@.wf(),
        final(store)@ == spec_addartist(old(store)@, req, now).0,
        r.success == spec_addartist(old(store)@, req, now).1,
        r.message@ == spec_addartist(old(store)@, req, now).2,
{
    let is_admin = check_admin(store, &req.token, now);
    if !is_admin {
        return Response { success: false, message: String::from_str("User is not an admin") };
    }
    if req.artist_type == String::from_str("performer") {
        db_addperformer(store, req)
    } else if req.artist_type == String::from_str("composer") {
        db_addcomposer(store, req)
    } else if req.artist_type == String::from_str("songwriter") {
        db_addsongwriter(store, req)
    } else {
        Response { success: false, message: String::from_str("Invalid artist type") }
    }
}

/// What adding a piece does to the store: the token must belong to an
/// admin; the piece takes the next identifier and its composer and
/// songwriter edges are written best-effort.
pub open spec fn spec_addpiece(cat: CatalogV, req: AddPieceRequest, now: i64) -> (
    CatalogV,
    bool,
    Seq<char>,
) {
    if !spec_is_admin(cat, req.token@, now) {
        (cat, false, "User is not an admin"@)
    } else {
        let id = (cat.pieces.len() + 1) as i32;
        let row = PieceRowV {
            id,
            name: req.name@,
            movements: req.movements,
            description: opt_view(req.description),
        };
        let cat2 = CatalogV {
            pieces: cat.pieces.push(row),
            piece_composers: add_edges(cat.piece_composers, id, req.composer_ids@),
            piece_songwriters: match opt_ids_view(req.songwriter_ids) {
                Some(sws) => add_edges(cat.piece_songwriters, id, sws),
                None => cat.piece_songwriters,
            },
            ..cat
        };
        (cat2, true, Seq::empty())
    }
}

/// Add a piece with its composer and songwriter edges at time `now`, after
/// the admin check.
pub fn db_addpiece(store: &mut Catalog, req: AddPieceRequest, now: i64) -> (r: Response<String>)
    requires
        old(store)@.wf(),
        old(store)@.pieces.len() < MAX_TABLE,
    ensures
        final(store)@.wf(),
        final(store)@ == spec_addpiece(old(store)@, req, now).0,
        r.success == spec_addpiece(old(store)@, req, now).1,
        r.message@ == spec_addpiece(old(store)@, req, now).2,
{
    let ghost orig = store@;
    let is_admin = check_admin(store, &req.token, now);
    if !is_admin {
        return Response { success: false, message: String::from_str("User is not an admin") };
    }
    let id_pos = store.pieces.len() + 1;
    let id = id_pos as i32;
    let new_piece = NewPiece { name: req.name, movements: req.movements, description: req.description };
    store.pieces.push(new_piece.into_row(id));
    proof {
        assert(store@ =~= (CatalogV { pieces: orig.pieces.push(store@.pieces.last()), ..orig }));
        lemma_ids_ok_push(orig.pieces, |p: PieceRowV| p.id, store@.pieces.last());
    }
    store.add_piece_composer_edges(id, &req.composer_ids);
    match &req.songwriter_ids {
        Some(sws) => {
            store.add_piece_songwriter_edges(id, sws);
        },
        None => {},
    }
    proof {
        lemma_add_edges_unique(orig.piece_composers, id, req.composer_ids@);
        assert(store@ =~= spec_addpiece(orig, req, now).0);
        lemma_add_edges_bounded(
            orig.piece_composers,
            id,
            req.composer_ids@,
            orig.pieces.len(),
            store@.pieces.len(),
        );
        match opt_ids_view(req.songwriter_ids) {
            Some(sws) => {
                lemma_add_edges_bounded(
                    orig.piece_songwriters,
                    id,
                    sws,
                    orig.pieces.len(),
                    store@.pieces.len(),
                );
            },
            None => {},
        }
        assert(store@.wf());
    }
    Response { success: true, message: String::new() }
}

/// What adding a release does to the store: the token must belong to an
/// admin; the release takes the next identifier, its performer edges are
/// written best-effort, and an announced image path is derived from the
/// identifier and returned as the message.
pub open spec fn spec_addrelease(cat: CatalogV, req: AddReleaseRequest, now: i64) -> (
    CatalogV,
    bool,
    Seq<char>,
) {
    if !spec_is_admin(cat, req.token@, now) {
        (cat, false, "User is not an admin"@)
    } else {
        let id = (cat.releases.len() + 1) as i32;
        let path = path_of("release"@, id);
        let row = ReleaseRowV {
            id,
            name: req.name@,
            description: opt_view(req.description),
            image_path: if req.has_image {
                Some(path)
            } else {
                None
            },
        };
        let cat2 = CatalogV {
            releases: cat.releases.push(row),
            release_performers: add_edges(cat.release_performers, id, req.performer_ids@),
            ..cat
        };
        (cat2, true, if req.has_image {
            path
        } else {
            Seq::empty()
        })
    }
}

/// Add a release with its performer edges at time `now`, after the admin
/// check.
pub fn db_addrelease(store: &mut Catalog, req: AddReleaseRequest, now: i64) -> (r: Response<String>)
    requires
        old(store)@.wf(),
        old(store)@.releases.len() < MAX_TABLE,
    ensures
        final(store)@.wf(),
        final(store)@ == spec_addrelease(old(store)@, req, now).0,
        r.success == spec_addrelease(old(store)@, req, now).1,
        r.message@ == spec_addrelease(old(store)@, req, now).2,
{
    let ghost orig = store@;
    let is_admin = check_admin(store, &req.token, now);
    if !is_admin {
        return Response { success: false, message: String::from_str("User is not an admin") };
    }
    let id_pos = store.releases.len() + 1;
    let id = id_pos as i32;
    let new_release = NewRelease { name: req.name, description: req.description, image_path: None };
    store.releases.push(new_release.into_row(id));
    // two-phase image path, patched after the identifier exists
    let mut message = String::new();
    if req.has_image {
        let path = derived_path("release", id);
        let p = &store.releases[id_pos - 1];
        let updated = DbRelease {
            id: p.id,
            name: p.name.clone(),
            description: dup_opt_string(&p.description),
            image_path: Some(path.clone()),
        };
        store.releases.set(id_pos - 1, updated);
        message = path;
    }
    store.add_release_performer_edges(id, &req.performer_ids);
    proof {
        let out = spec_addrelease(orig, req, now);
        assert(store@.releases =~= out.0.releases);
        assert(store@ =~= out.0);
        lemma_ids_ok_push(orig.releases, |x: ReleaseRowV| x.id, out.0.releases.last());
        lemma_add_edges_unique(orig.release_performers, id, req.performer_ids@);
        lemma_add_edges_bounded(
            orig.release_performers,
            id,
            req.performer_ids@,
            orig.releases.len(),
            store@.releases.len(),
        );
        assert(store@.wf());
    }
    Response { success: true, message }
}

/// What adding a recording does to the store: the token must belong to an
/// admin and the piece must exist; the recording captures the piece's name
/// as of now, takes the next identifier, always receives its derived file
/// path, and its performer edges are written best-effort.
pub open spec fn spec_addrecording(cat: CatalogV, req: AddRecordingRequest, now: i64) -> (
    CatalogV,
    bool,
    Seq<char>,
) {
    if !spec_is_admin(cat, req.token@, now) {
        (cat, false, "User is not an admin"@)
    } else {
        match row_for_id(cat.pieces, req.piece_id) {
            None => (cat, false, "Piece id incorrect or piece not found"@),
            Some(piece) => {
                let id = (cat.recordings.len() + 1) as i32;
                let path = path_of("recording"@, id);
                let row = RecordingRowV {
                    id,
                    piece_name: piece.name,
                    piece_id: req.piece_id,
                    release_id: req.release_id,
                    track_number: req.track_number,
                    file_path: Some(path),
                };
                let cat2 = CatalogV {
                    recordings: cat.recordings.push(row),
                    recording_performers: add_edges(
                        cat.recording_performers,
                        id,
                        req.performer_ids@,
                    ),
                    ..cat
                };
                (cat2, true, path)
            },
        }
    }
}

/// Add a recording with its performer edges at time `now`, after the admin
/// check; the returned message is the derived file path.
pub fn db_addrecording(store: &mut Catalog, req: AddRecordingRequest, now: i64) -> (r: Response<
    String,
>)
    requires
        old(store)@.wf(),
        old(store)@.recordings.len() < MAX_TABLE,
    ensures
        final(store)@.wf(),
        final(store)@ == spec_addrecording(old(store)@, req, now).0,
        r.success == spec_addrecording(old(store)@, req, now).1,
        r.message@ == spec_addrecording(old(store)@, req, now).2,
{
    let ghost orig = store@;
    let is_admin = check_admin(store, &req.token, now);
    if !is_admin {
        return Response { success: false, message: String::from_str("User is not an admin") };
    }
    // the denormalized piece name is captured at creation time
    if !(req.piece_id >= 1 && (req.piece_id as usize) <= store.pieces.len()) {
        return Response {
            success: false,
            message: String::from_str("Piece id incorrect or piece not found"),
        };
    }
    let piece_name = store.pieces[(req.piece_id - 1) as usize].name.clone();
    let id_pos = store.recordings.len() + 1;
    let id = id_pos as i32;
    // the file path always derives from the new identifier
    let path = derived_path("recording", id);
    store.recordings.push(
        Recording {
            id,
            piece_name,
            piece_id: req.piece_id,
            release_id: req.release_id,
            track_number: req.track_number,
            file_path: Some(path.clone()),
        },
    );
    store.add_recording_performer_edges(id, &req.performer_ids);
    proof {
        let out = spec_addrecording(orig, req, now);
        assert(store@.recordings =~= out.0.recordings);
        assert(store@ =~= out.0);
        lemma_ids_ok_push(orig.recordings, |x: RecordingRowV| x.id, out.0.recordings.last());
        lemma_add_edges_unique(orig.recording_performers, id, req.performer_ids@);
        lemma_add_edges_bounded(
            orig.recording_performers,
            id,
            req.performer_ids@,
            orig.recordings.len(),
            store@.recordings.len(),
        );
        assert(store@.wf());
    }
    Response { success: true, message: path }
}

/// Add an artist: reads the clock, then updates the store as
/// `spec_addartist` says for that time.
pub fn addartist(store: &mut Catalog, req: AddArtistRequest) -> (r: Response<String>)
    requires
        old(store)@.wf(),
        old(store)@.performers.len() < MAX_TABLE,
        old(store)@.composers.len() < MAX_TABLE,
        old(store)@.songwriters.len() < MAX_TABLE,
    ensures
        final(store)@.wf(),
        exists|now: i64|
            {
                let out = #[trigger] spec_addartist(old(store)@, req, now);
                &&& now >= 0
                &&& final(store)@ == out.0
                &&& r.success == out.1
                &&& r.message@ == out.2
            },
{
    let now = now_seconds();
    let r = db_addartist(store, req, now);
    proof {
        let out = spec_addartist(old(store)@, req, now);
        assert(now >= 0 && store@ == out.0 && r.success == out.1 && r.message@ == out.2);
    }
    r
}

/// Add a piece: reads the clock, then updates the store as `spec_addpiece`
/// says for that time.
pub fn addpiece(store: &mut Catalog, req: AddPieceRequest) -> (r: Response<String>)
    requires
        old(store)@.wf(),
        old(store)@.pieces.len() < MAX_TABLE,
    ensures
        final(store)@.wf(),
        exists|now: i64|
            {
                let out = #[trigger] spec_addpiece(old(store)@, req, now);
                &&& now >= 0
                &&& final(store)@ == out.0
                &&& r.success == out.1
                &&& r.message@ == out.2
            },
{
    let now = now_seconds();
    let r = db_addpiece(store, req, now);
    proof {
        let out = spec_addpiece(old(store)@, req, now);
        assert(now >= 0 && store@ == out.0 && r.success == out.1 && r.message@ == out.2);
    }
    r
}

/// Add a release: reads the clock, then updates the store as
/// `spec_addrelease` says for that time.
pub fn addrelease(store: &mut Catalog, req: AddReleaseRequest) -> (r: Response<String>)
    requires
        old(store)@.wf(),
        old(store)@.releases.len() < MAX_TABLE,
    ensures
        final(store)@.wf(),
        exists|now: i64|
            {
                let out = #[trigger] spec_addrelease(old(store)@, req, now);
                &&& now >= 0
                &&& final(store)@ == out.0
                &&& r.success == out.1
                &&& r.message@ == out.2
            },
{
    let now = now_seconds();
    let r = db_addrelease(store, req, now);
    proof {
        let out = spec_addrelease(old(store)@, req, now);
        assert(now >= 0 && store@ == out.0 && r.success == out.1 && r.message@ == out.2);
    }
    r
}

/// Add a recording: reads the clock, then updates the store as
/// `spec_addrecording` says for that time.
pub fn addrecording(store: &mut Catalog, req: AddRecordingRequest) -> (r: Response<String>)
    requires
        old(store)@.wf(),
        old(store)@.recordings.len() < MAX_TABLE,
    ensures
        final(store)@.wf(),
        exists|now: i64|
            {
                let out = #[trigger] spec_addrecording(old(store)@, req, now);
                &&& now >= 0
                &&& final(store)@ == out.0
                &&& r.success == out.1
                &&& r.message@ == out.2
            },
{
    let now = now_seconds();
    let r = db_addrecording(store, req, now);
    proof {
        let out = spec_addrecording(old(store)@, req, now);
        assert(now >= 0 && store@ == out.0 && r.success == out.1 && r.message@ == out.2);
    }
    r
}

} // verus!
