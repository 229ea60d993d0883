//! The search resolver. A query is split on whitespace into tokens; a name
//! matches when the tokens occur in it, case-insensitively, in order and
//! without overlapping — the semantics of scanning with a substring
//! pattern that joins the tokens with wildcards. Matching rows are
//! assembled into full views, exactly as the read operations do.
use vstd::prelude::*;

use crate::auth::{check_admin, spec_is_admin};
use crate::crypto::now_seconds;
use crate::get::{
    Piece, PieceV, RecordingView, RecordingViewV, Release, ReleaseV, spec_piece_view,
    spec_recording_view, spec_release_view,
};
use crate::models::{
    Composer, ContributorV, Performer, PieceRowV, RecordingRowV, ReleaseRowV, SearchRequest,
    Songwriter,
};
use crate::store::{Catalog, CatalogV};
use crate::strutil::{fold_char, fold_char_exec, from_chars, is_space, is_space_exec, to_chars};
use crate::Response;

verus! {

/// The position right after the whitespace-free run that starts at `i`:
/// the first position at or after `i` that is past the end or holds
/// whitespace.
pub open spec fn word_end(s: Seq<char>, i: int) -> int
    decreases s.len() - i,
{
    if i < 0 || i >= s.len() || is_space(s[i]) {
        i
    } else {
        word_end(s, i + 1)
    }
}

pub proof fn lemma_word_end(s: Seq<char>, i: int)
    requires
        0 <= i <= s.len(),
    ensures
        i <= word_end(s, i) <= s.len(),
        forall|k: int| i <= k < word_end(s, i) ==> !is_space(s[k]),
        word_end(s, i) < s.len() ==> is_space(s[word_end(s, i)]),
    decreases s.len() - i,
{
    if i < s.len() && !is_space(s[i]) {
        lemma_word_end(s, i + 1);
    }
}

/// The whitespace-separated tokens of `s` from position `i` on.
pub open spec fn spec_tokens_from(s: Seq<char>, i: int) -> Seq<Seq<char>>
    decreases s.len() - i,
    via spec_tokens_from_dec
{
    if i < 0 || i >= s.len() {
        Seq::empty()
    } else if is_space(s[i]) {
        spec_tokens_from(s, i + 1)
    } else {
        seq![s.subrange(i, word_end(s, i))] + spec_tokens_from(s, word_end(s, i))
    }
}

#[via_fn]
proof fn spec_tokens_from_dec(s: Seq<char>, i: int) {
    if 0 <= i && i < s.len() && !is_space(s[i]) {
        lemma_word_end(s, i);
    }
}

/// The tokens of a whole query.
pub open spec fn spec_tokens(s: Seq<char>) -> Seq<Seq<char>> {
    spec_tokens_from(s, 0)
}

/// Whether the token occurs in the name at position `j`, compared after
/// ASCII case folding on both sides.
pub open spec fn matches_at(name: Seq<char>, tok: Seq<char>, j: int) -> bool {
    &&& 0 <= j
    &&& j + tok.len() <= name.len()
    &&& forall|k: int| 0 <= k < tok.len() ==> fold_char(name[j + k]) == fold_char(#[trigger] tok[k])
}

/// Whether the tokens occur in the name in order, without overlapping,
/// starting no earlier than `from`.
pub open spec fn toks_match_from(name: Seq<char>, toks: Seq<Seq<char>>, from: int) -> bool
    decreases toks.len(),
{
    if toks.len() == 0 {
        true
    } else {
        exists|j: int|
            from <= j && #[trigger] matches_at(name, toks[0], j) && toks_match_from(
                name,
                toks.drop_first(),
                j + toks[0].len(),
            )
    }
}

/// Whether a name matches a tokenized query: every token occurs, in order,
/// case-insensitively.
pub open spec fn name_matches(name: Seq<char>, toks: Seq<Seq<char>>) -> bool {
    toks_match_from(name, toks, 0)
}

/// A match that starts no earlier than `b` also starts no earlier than any
/// `a <= b`.
pub proof fn lemma_match_mono(name: Seq<char>, toks: Seq<Seq<char>>, a: int, b: int)
    requires
        a <= b,
        toks_match_from(name, toks, b),
    ensures
        toks_match_from(name, toks, a),
{
    if toks.len() > 0 {
        let j = choose|j: int|
            b <= j && #[trigger] matches_at(name, toks[0], j) && toks_match_from(
                name,
                toks.drop_first(),
                j + toks[0].len(),
            );
        assert(a <= j && matches_at(name, toks[0], j) && toks_match_from(
            name,
            toks.drop_first(),
            j + toks[0].len(),
        ));
    }
}

/// The view of a vector of token vectors.
pub open spec fn toks_view(toks: Seq<Vec<char>>) -> Seq<Seq<char>> {
    toks.map_values(|t: Vec<char>| t@)
}

/// Split a query into its whitespace-separated tokens.
pub fn tokenize(q: &Vec<char>) -> (r: Vec<Vec<char>>)
    ensures
        toks_view(r@) == spec_tokens(q@),
{
    let n = q.len();
    let mut r: Vec<Vec<char>> = Vec::new();
    let mut i: usize = 0;
    while i < n
        invariant
            n == q@.len(),
            i <= n,
            toks_view(r@) + spec_tokens_from(q@, i as int) =~= spec_tokens(q@),
        decreases n - i,
    {
        if is_space_exec(q[i]) {
            proof {
                assert(spec_tokens_from(q@, i as int) == spec_tokens_from(q@, i + 1));
            }
            i += 1;
        } else {
            proof {
                lemma_word_end(q@, i as int);
            }
            // scan to the end of the whitespace-free run
            let mut e: usize = i;
            while e < n && !is_space_exec(q[e])
                invariant
                    n == q@.len(),
                    i <= e <= n,
                    word_end(q@, i as int) == word_end(q@, e as int),
                decreases n - e,
            {
                proof {
                    assert(word_end(q@, e as int) == word_end(q@, e + 1));
                }
                e += 1;
            }
            proof {
                assert(word_end(q@, e as int) == e);
                assert(word_end(q@, i as int) == e);
            }
            // copy the word out
            let mut w: Vec<char> = Vec::new();
            let mut t: usize = i;
            while t < e
                invariant
                    n == q@.len(),
                    i <= t <= e <= n,
                    w@ == q@.subrange(i as int, t as int),
                decreases e - t,
            {
                w.push(q[t]);
                assert(w@ =~= q@.subrange(i as int, t + 1));
                t += 1;
            }
            let ghost pre = r@;
            r.push(w);
            proof {
                assert(w@ =~= q@.subrange(i as int, e as int));
                assert(spec_tokens_from(q@, i as int) == seq![q@.subrange(i as int, e as int)]
                    + spec_tokens_from(q@, e as int));
                assert(toks_view(r@) =~= toks_view(pre) + seq![w@]);
                assert(toks_view(r@) + spec_tokens_from(q@, e as int) =~= spec_tokens(q@));
            }
            i = e;
        }
    }
    proof {
        assert(spec_tokens_from(q@, n as int) =~= Seq::<Seq<char>>::empty());
        assert(toks_view(r@) =~= spec_tokens(q@));
    }
    r
}

/// Whether the token occurs in the name at position `j`.
fn token_at(name: &Vec<char>, tok: &Vec<char>, j: usize) -> (r: bool)
    requires
        j + tok@.len() <= name@.len(),
    ensures
        r == matches_at(name@, tok@, j as int),
{
    let nlen = name.len();
    let m = tok.len();
    let mut k: usize = 0;
    while k < m
        invariant
            nlen == name@.len(),
            m == tok@.len(),
            j + m <= nlen,
            k <= m,
            forall|t: int|
                0 <= t < k ==> fold_char(name@[j + t]) == fold_char(#[trigger] tok@[t]),
        decreases m - k,
    {
        if fold_char_exec(name[j + k]) != fold_char_exec(tok[k]) {
            assert(!matches_at(name@, tok@, j as int));
            return false;
        }
        k += 1;
    }
    true
}

/// Find the first position at or after `from` where the token occurs in
/// the name.
fn find_token_from(name: &Vec<char>, tok: &Vec<char>, from: usize) -> (r: Option<usize>)
    ensures
        match r {
            Some(j) => from <= j && matches_at(name@, tok@, j as int) && (forall|j2: int|
                from <= j2 < j ==> !matches_at(name@, tok@, j2)),
            None => forall|j2: int| from <= j2 ==> !matches_at(name@, tok@, j2),
        },
{
    let n = name.len();
    let m = tok.len();
    if m > n || from > n - m {
        return None;
    }
    let mut j = from;
    while j <= n - m
        invariant
            n == name@.len(),
            m == tok@.len(),
            m <= n,
            from <= j,
            forall|j2: int| from <= j2 < j ==> !matches_at(name@, tok@, j2),
        decreases n - j,
    {
        if token_at(name, tok, j) {
            return Some(j);
        }
        j += 1;
    }
    None
}

/// Whether the name matches the tokens: each occurs in order, without
/// overlapping, scanning greedily left to right.
fn match_tokens(name: &Vec<char>, toks: &Vec<Vec<char>>) -> (r: bool)
    ensures
        r == name_matches(name@, toks_view(toks@)),
{
    let ghost tv = toks_view(toks@);
    let nlen = name.len();
    let tn = toks.len();
    let mut k: usize = 0;
    let mut pos: usize = 0;
    proof {
        assert(tv.skip(0) =~= tv);
    }
    while k < tn
        invariant
            nlen == name@.len(),
            tn == tv.len(),
            tv == toks_view(toks@),
            k <= tn,
            pos <= nlen,
            name_matches(name@, tv) == toks_match_from(name@, tv.skip(k as int), pos as int),
        decreases tn - k,
    {
        let tok = &toks[k];
        proof {
            assert(tv.skip(k as int)[0] == tok@);
            assert(tv.skip(k as int).drop_first() =~= tv.skip(k + 1));
            assert(tv.skip(k as int).len() == tn - k);
        }
        match find_token_from(name, tok, pos) {
            None => {
                proof {
                    if toks_match_from(name@, tv.skip(k as int), pos as int) {
                        let j = choose|j: int|
                            pos <= j && #[trigger] matches_at(name@, tv.skip(k as int)[0], j)
                                && toks_match_from(
                                name@,
                                tv.skip(k as int).drop_first(),
                                j + tv.skip(k as int)[0].len(),
                            );
                        assert(matches_at(name@, tok@, j));
                    }
                }
                return false;
            },
            Some(j) => {
                proof {
                    let next = j + tok@.len();
                    if toks_match_from(name@, tv.skip(k as int), pos as int) {
                        let j2 = choose|j2: int|
                            pos <= j2 && #[trigger] matches_at(name@, tv.skip(k as int)[0], j2)
                                && toks_match_from(
                                name@,
                                tv.skip(k as int).drop_first(),
                                j2 + tv.skip(k as int)[0].len(),
                            );
                        assert(j as int <= j2);
                        lemma_match_mono(
                            name@,
                            tv.skip(k + 1),
                            next as int,
                            j2 + tok@.len(),
                        );
                        assert(toks_match_from(name@, tv.skip(k + 1), next as int));
                    }
                    if toks_match_from(name@, tv.skip(k + 1), next as int) {
                        assert(pos <= j as int && matches_at(name@, tv.skip(k as int)[0], j as int)
                            && toks_match_from(
                            name@,
                            tv.skip(k as int).drop_first(),
                            j + tv.skip(k as int)[0].len(),
                        ));
                        assert(toks_match_from(name@, tv.skip(k as int), pos as int));
                    }
                }
                assert(j + tok@.len() <= nlen);
                pos = j + tok.len();
                k += 1;
            },
        }
    }
    proof {
        assert(tv.skip(tn as int) =~= Seq::<Seq<char>>::empty());
    }
    true
}

/// Whether a name matches a free-text query, token by token.
pub fn name_matches_str(name: &str, query: &str) -> (r: bool)
    ensures
        r == name_matches(name@, spec_tokens(query@)),
{
    let nm = to_chars(name);
    let q = to_chars(query);
    let toks = tokenize(&q);
    match_tokens(&nm, &toks)
}

/// The query's tokens joined by a single wildcard character.
pub open spec fn join_pct(toks: Seq<Seq<char>>) -> Seq<char>
    decreases toks.len(),
{
    if toks.len() == 0 {
        Seq::empty()
    } else if toks.len() == 1 {
        toks[0]
    } else {
        join_pct(toks.drop_last()) + seq!['%'] + toks.last()
    }
}

/// The substring pattern a query normalizes to: its tokens joined with a
/// wildcard between each pair and one at either end.
pub open spec fn pattern_of(toks: Seq<Seq<char>>) -> Seq<char> {
    seq!['%'] + join_pct(toks) + seq!['%']
}

impl SearchRequest {
    /// Normalize the query into one substring pattern that allows other
    /// words between the search terms.
    pub fn to_query(&self) -> (r: String)
        ensures
            r@ == pattern_of(spec_tokens(self.query@)),
    {
        let qchars = to_chars(self.query.as_str());
        let toks = tokenize(&qchars);
        let ghost tv = toks_view(toks@);
        let mut s = String::new();
        s.push('%');
        let tn = toks.len();
        let mut k: usize = 0;
        while k < tn
            invariant
                tn == tv.len(),
                tv == toks_view(toks@),
                tv == spec_tokens(self.query@),
                k <= tn,
                s@ == seq!['%'] + join_pct(tv.take(k as int)),
            decreases tn - k,
        {
            proof {
                assert(tv.take(k + 1).drop_last() =~= tv.take(k as int));
                assert(tv.take(k + 1).last() == tv[k as int]);
            }
            if k > 0 {
                s.push('%');
            }
            let word = from_chars(&toks[k]);
            s.append(word.as_str());
            proof {
                assert(s@ =~= seq!['%'] + join_pct(tv.take(k + 1)));
            }
            k += 1;
        }
        s.push('%');
        proof {
            assert(tv.take(tn as int) =~= tv);
            assert(s@ =~= pattern_of(tv));
        }
        s
    }
}

/// The contributors whose names match the tokens, in table order.
pub open spec fn matching_contributors(rows: Seq<ContributorV>, toks: Seq<Seq<char>>) -> Seq<
    ContributorV,
>
    decreases rows.len(),
{
    if rows.len() == 0 {
        Seq::empty()
    } else {
        matching_contributors(rows.drop_last(), toks) + if name_matches(rows.last().name, toks) {
            seq![rows.last()]
        } else {
            Seq::empty()
        }
    }
}

/// The assembled views of the pieces whose names match the tokens.
pub open spec fn matching_piece_views(cat: CatalogV, rows: Seq<PieceRowV>, toks: Seq<Seq<char>>) -> Seq<
    PieceV,
>
    decreases rows.len(),
{
    if rows.len() == 0 {
        Seq::empty()
    } else {
        matching_piece_views(cat, rows.drop_last(), toks) + if name_matches(
            rows.last().name,
            toks,
        ) {
            seq![spec_piece_view(cat, rows.last())]
        } else {
            Seq::empty()
        }
    }
}

/// The assembled views of the releases whose names match the tokens.
pub open spec fn matching_release_views(
    cat: CatalogV,
    rows: Seq<ReleaseRowV>,
    toks: Seq<Seq<char>>,
) -> Seq<ReleaseV>
    decreases rows.len(),
{
    if rows.len() == 0 {
        Seq::empty()
    } else {
        matching_release_views(cat, rows.drop_last(), toks) + if name_matches(
            rows.last().name,
            toks,
        ) {
            seq![spec_release_view(cat, rows.last())]
        } else {
            Seq::empty()
        }
    }
}

/// The assembled views of the recordings whose captured piece names match
/// the tokens.
pub open spec fn matching_recording_views(
    cat: CatalogV,
    rows: Seq<RecordingRowV>,
    toks: Seq<Seq<char>>,
) -> Seq<RecordingViewV>
    decreases rows.len(),
{
    if rows.len() == 0 {
        Seq::empty()
    } else {
        matching_recording_views(cat, rows.drop_last(), toks) + if name_matches(
            rows.last().piece_name,
            toks,
        ) {
            seq![spec_recording_view(cat, rows.last())]
        } else {
            Seq::empty()
        }
    }
}

/// Search performers by name at time `now`; without admin authorization
/// the result is empty and unsuccessful.
pub fn db_searchperformer(store: &Catalog, req: SearchRequest, now: i64) -> (r: Response<
    Vec<Performer>,
>)
    ensures
        r.success == spec_is_admin(store@, req.token@, now),
        r.success ==> r.message@.map_values(|p: Performer| p@) == matching_contributors(
            store@.performers,
            spec_tokens(req.query@),
        ),
        !r.success ==> r.message@.len() == 0,
{
    let is_admin = check_admin(store, &req.token, now);
    if !is_admin {
        return Response { success: false, message: Vec::new() };
    }
    let q = to_chars(req.query.as_str());
    let toks = tokenize(&q);
    let ghost tv = spec_tokens(req.query@);
    let ghost rows = store@.performers;
    let n = store.performers.len();
    let mut out: Vec<Performer> = Vec::new();
    let mut i: usize = 0;
    while i < n
        invariant
            n == rows.len(),
            rows == store@.performers,
            tv == toks_view(toks@),
            i <= n,
            out@.map_values(|p: Performer| p@) =~= matching_contributors(
                rows.take(i as int),
                tv,
            ),
        decreases n - i,
    {
        proof {
            assert(rows.take(i + 1).drop_last() =~= rows.take(i as int));
            assert(rows.take(i + 1).last() == rows[i as int]);
        }
        let row = &store.performers[i];
        let name_chars = to_chars(row.name.as_str());
        if match_tokens(&name_chars, &toks) {
            out.push(row.duplicate());
        }
        assert(out@.map_values(|p: Performer| p@) =~= matching_contributors(
            rows.take(i + 1),
            tv,
        ));
        i += 1;
    }
    proof {
        assert(rows.take(n as int) =~= rows);
    }
    Response { success: true, message: out }
}

/// Search composers by name at time `now`; without admin authorization the
/// result is empty and unsuccessful.
pub fn db_searchcomposer(store: &Catalog, req: SearchRequest, now: i64) -> (r: Response<
    Vec<Composer>,
>)
    ensures
        r.success == spec_is_admin(store@, req.token@, now),
        r.success ==> r.message@.map_values(|p: Composer| p@) == matching_contributors(
            store@.composers,
            spec_tokens(req.query@),
        ),
        !r.success ==> r.message@.len() == 0,
{
    let is_admin = check_admin(store, &req.token, now);
    if !is_admin {
        return Response { success: false, message: Vec::new() };
    }
    let q = to_chars(req.query.as_str());
    let toks = tokenize(&q);
    let ghost tv = spec_tokens(req.query@);
    let ghost rows = store@.composers;
    let n = store.composers.len();
    let mut out: Vec<Composer> = Vec::new();
    let mut i: usize = 0;
    while i < n
        invariant
            n == rows.len(),
            rows == store@.composers,
            tv == toks_view(toks@),
            i <= n,
            out@.map_values(|p: Composer| p@) =~= matching_contributors(rows.take(i as int), tv),
        decreases n - i,
    {
        proof {
            assert(rows.take(i + 1).drop_last() =~= rows.take(i as int));
            assert(rows.take(i + 1).last() == rows[i as int]);
        }
        let row = &store.composers[i];
        let name_chars = to_chars(row.name.as_str());
        if match_tokens(&name_chars, &toks) {
            out.push(row.duplicate());
        }
        assert(out@.map_values(|p: Composer| p@) =~= matching_contributors(rows.take(i + 1), tv));
        i += 1;
    }
    proof {
        assert(rows.take(n as int) =~= rows);
    }
    Response { success: true, message: out }
}

/// Search songwriters by name at time `now`; without admin authorization
/// the result is empty and unsuccessful.
pub fn db_searchsongwriter(store: &Catalog, req: SearchRequest, now: i64) -> (r: Response<
    Vec<Songwriter>,
>)
    ensures
        r.success == spec_is_admin(store@, req.token@, now),
        r.success ==> r.message@.map_values(|p: Songwriter| p@) == matching_contributors(
            store@.songwriters,
            spec_tokens(req.query@),
        ),
        !r.success ==> r.message@.len() == 0,
{
    let is_admin = check_admin(store, &req.token, now);
    if !is_admin {
        return Response { success: false, message: Vec::new() };
    }
    let q = to_chars(req.query.as_str());
    let toks = tokenize(&q);
    let ghost tv = spec_tokens(req.query@);
    let ghost rows = store@.songwriters;
    let n = store.songwriters.len();
    let mut out: Vec<Songwriter> = Vec::new();
    let mut i: usize = 0;
    while i < n
        invariant
            n == rows.len(),
            rows == store@.songwriters,
            tv == toks_view(toks@),
            i <= n,
            out@.map_values(|p: Songwriter| p@) =~= matching_contributors(
                rows.take(i as int),
                tv,
            ),
        decreases n - i,
    {
        proof {
            assert(rows.take(i + 1).drop_last() =~= rows.take(i as int));
            assert(rows.take(i + 1).last() == rows[i as int]);
        }
        let row = &store.songwriters[i];
        let name_chars = to_chars(row.name.as_str());
        if match_tokens(&name_chars, &toks) {
            out.push(row.duplicate());
        }
        assert(out@.map_values(|p: Songwriter| p@) =~= matching_contributors(
            rows.take(i + 1),
            tv,
        ));
        i += 1;
    }
    proof {
        assert(rows.take(n as int) =~= rows);
    }
    Response { success: true, message: out }
}

/// Search pieces by name at time `now` and assemble the matches into full
/// views; without admin authorization the result is empty and
/// unsuccessful.
pub fn db_searchpiece(store: &Catalog, req: SearchRequest, now: i64) -> (r: Response<Vec<Piece>>)
    ensures
        r.success == spec_is_admin(store@, req.token@, now),
        r.success ==> r.message@.map_values(|p: Piece| p@) == matching_piece_views(
            store@,
            store@.pieces,
            spec_tokens(req.query@),
        ),
        !r.success ==> r.message@.len() == 0,
{
    let is_admin = check_admin(store, &req.token, now);
    if !is_admin {
        return Response { success: false, message: Vec::new() };
    }
    let q = to_chars(req.query.as_str());
    let toks = tokenize(&q);
    let ghost tv = spec_tokens(req.query@);
    let ghost rows = store@.pieces;
    let n = store.pieces.len();
    let mut out: Vec<Piece> = Vec::new();
    let mut i: usize = 0;
    while i < n
        invariant
            n == rows.len(),
            rows == store@.pieces,
            tv == toks_view(toks@),
            i <= n,
            out@.map_values(|p: Piece| p@) =~= matching_piece_views(
                store@,
                rows.take(i as int),
                tv,
            ),
        decreases n - i,
    {
        proof {
            assert(rows.take(i + 1).drop_last() =~= rows.take(i as int));
            assert(rows.take(i + 1).last() == rows[i as int]);
        }
        let row = &store.pieces[i];
        let name_chars = to_chars(row.name.as_str());
        if match_tokens(&name_chars, &toks) {
            out.push(store.build_piece_view(row));
        }
        assert(out@.map_values(|p: Piece| p@) =~= matching_piece_views(
            store@,
            rows.take(i + 1),
            tv,
        ));
        i += 1;
    }
    proof {
        assert(rows.take(n as int) =~= rows);
    }
    Response { success: true, message: out }
}

/// Search releases by name at time `now` and assemble the matches into
/// full views; without admin authorization the result is empty and
/// unsuccessful.
pub fn db_searchrelease(store: &Catalog, req: SearchRequest, now: i64) -> (r: Response<
    Vec<Release>,
>)
    ensures
        r.success == spec_is_admin(store@, req.token@, now),
        r.success ==> r.message@.map_values(|p: Release| p@) == matching_release_views(
            store@,
            store@.releases,
            spec_tokens(req.query@),
        ),
        !r.success ==> r.message@.len() == 0,
{
    let is_admin = check_admin(store, &req.token, now);
    if !is_admin {
        return Response { success: false, message: Vec::new() };
    }
    let q = to_chars(req.query.as_str());
    let toks = tokenize(&q);
    let ghost tv = spec_tokens(req.query@);
    let ghost rows = store@.releases;
    let n = store.releases.len();
    let mut out: Vec<Release> = Vec::new();
    let mut i: usize = 0;
    while i < n
        invariant
            n == rows.len(),
            rows == store@.releases,
            tv == toks_view(toks@),
            i <= n,
            out@.map_values(|p: Release| p@) =~= matching_release_views(
                store@,
                rows.take(i as int),
                tv,
            ),
        decreases n - i,
    {
        proof {
            assert(rows.take(i + 1).drop_last() =~= rows.take(i as int));
            assert(rows.take(i + 1).last() == rows[i as int]);
        }
        let row = &store.releases[i];
        let name_chars = to_chars(row.name.as_str());
        if match_tokens(&name_chars, &toks) {
            out.push(store.build_release_view(row));
        }
        assert(out@.map_values(|p: Release| p@) =~= matching_release_views(
            store@,
            rows.take(i + 1),
            tv,
        ));
        i += 1;
    }
    proof {
        assert(rows.take(n as int) =~= rows);
    }
    Response { success: true, message: out }
}

/// Search recordings by their captured piece name at time `now` and
/// assemble the matches with their performers; without admin authorization
/// the result is empty and unsuccessful.
pub fn db_searchrecording(store: &Catalog, req: SearchRequest, now: i64) -> (r: Response<
    Vec<RecordingView>,
>)
    ensures
        r.success == spec_is_admin(store@, req.token@, now),
        r.success ==> r.message@.map_values(|p: RecordingView| p@) == matching_recording_views(
            store@,
            store@.recordings,
            spec_tokens(req.query@),
        ),
        !r.success ==> r.message@.len() == 0,
{
    let is_admin = check_admin(store, &req.token, now);
    if !is_admin {
        return Response { success: false, message: Vec::new() };
    }
    let q = to_chars(req.query.as_str());
    let toks = tokenize(&q);
    let ghost tv = spec_tokens(req.query@);
    let ghost rows = store@.recordings;
    let n = store.recordings.len();
    let mut out: Vec<RecordingView> = Vec::new();
    let mut i: usize = 0;
    while i < n
        invariant
            n == rows.len(),
            rows == store@.recordings,
            tv == toks_view(toks@),
            i <= n,
            out@.map_values(|p: RecordingView| p@) =~= matching_recording_views(
                store@,
                rows.take(i as int),
                tv,
            ),
        decreases n - i,
    {
        proof {
            assert(rows.take(i + 1).drop_last() =~= rows.take(i as int));
            assert(rows.take(i + 1).last() == rows[i as int]);
        }
        let row = &store.recordings[i];
        let name_chars = to_chars(row.piece_name.as_str());
        if match_tokens(&name_chars, &toks) {
            out.push(store.build_recording_view(row));
        }
        assert(out@.map_values(|p: RecordingView| p@) =~= matching_recording_views(
            store@,
            rows.take(i + 1),
            tv,
        ));
        i += 1;
    }
    proof {
        assert(rows.take(n as int) =~= rows);
    }
    Response { success: true, message: out }
}

/// Search performers: reads the clock, then answers as
/// `db_searchperformer` does for that time.
pub fn searchperformer(store: &Catalog, req: SearchRequest) -> (r: Response<Vec<Performer>>)
    ensures
        exists|now: i64|
            {
                &&& now >= 0
                &&& r.success == #[trigger] spec_is_admin(store@, req.token@, now)
                &&& r.success ==> r.message@.map_values(|p: Performer| p@)
                    == matching_contributors(store@.performers, spec_tokens(req.query@))
                &&& !r.success ==> r.message@.len() == 0
            },
{
    let now = now_seconds();
    let r = db_searchperformer(store, req, now);
    proof {
        assert(now >= 0 && r.success == spec_is_admin(store@, req.token@, now));
    }
    r
}

/// Search composers: reads the clock, then answers as `db_searchcomposer`
/// does for that time.
pub fn searchcomposer(store: &Catalog, req: SearchRequest) -> (r: Response<Vec<Composer>>)
    ensures
        exists|now: i64|
            {
                &&& now >= 0
                &&& r.success == #[trigger] spec_is_admin(store@, req.token@, now)
                &&& r.success ==> r.message@.map_values(|p: Composer| p@) == matching_contributors(
                    store@.composers,
                    spec_tokens(req.query@),
                )
                &&& !r.success ==> r.message@.len() == 0
            },
{
    let now = now_seconds();
    let r = db_searchcomposer(store, req, now);
    proof {
        assert(now >= 0 && r.success == spec_is_admin(store@, req.token@, now));
    }
    r
}

/// Search songwriters: reads the clock, then answers as
/// `db_searchsongwriter` does for that time.
pub fn searchsongwriter(store: &Catalog, req: SearchRequest) -> (r: Response<Vec<Songwriter>>)
    ensures
        exists|now: i64|
            {
                &&& now >= 0
                &&& r.success == #[trigger] spec_is_admin(store@, req.token@, now)
                &&& r.success ==> r.message@.map_values(|p: Songwriter| p@)
                    == matching_contributors(store@.songwriters, spec_tokens(req.query@))
                &&& !r.success ==> r.message@.len() == 0
            },
{
    let now = now_seconds();
    let r = db_searchsongwriter(store, req, now);
    proof {
        assert(now >= 0 && r.success == spec_is_admin(store@, req.token@, now));
    }
    r
}

/// Search pieces: reads the clock, then answers as `db_searchpiece` does
/// for that time.
pub fn searchpiece(store: &Catalog, req: SearchRequest) -> (r: Response<Vec<Piece>>)
    ensures
        exists|now: i64|
            {
                &&& now >= 0
                &&& r.success == #[trigger] spec_is_admin(store@, req.token@, now)
                &&& r.success ==> r.message@.map_values(|p: Piece| p@) == matching_piece_views(
                    store@,
                    store@.pieces,
                    spec_tokens(req.query@),
                )
                &&& !r.success ==> r.message@.len() == 0
            },
{
    let now = now_seconds();
    let r = db_searchpiece(store, req, now);
    proof {
        assert(now >= 0 && r.success == spec_is_admin(store@, req.token@, now));
    }
    r
}

/// Search releases: reads the clock, then answers as `db_searchrelease`
/// does for that time.
pub fn searchrelease(store: &Catalog, req: SearchRequest) -> (r: Response<Vec<Release>>)
    ensures
        exists|now: i64|
            {
                &&& now >= 0
                &&& r.success == #[trigger] spec_is_admin(store@, req.token@, now)
                &&& r.success ==> r.message@.map_values(|p: Release| p@) == matching_release_views(
                    store@,
                    store@.releases,
                    spec_tokens(req.query@),
                )
                &&& !r.success ==> r.message@.len() == 0
            },
{
    let now = now_seconds();
    let r = db_searchrelease(store, req, now);
    proof {
        assert(now >= 0 && r.success == spec_is_admin(store@, req.token@, now));
    }
    r
}

/// Search recordings: reads the clock, then answers as `db_searchrecording`
/// does for that time.
pub fn searchrecording(store: &Catalog, req: SearchRequest) -> (r: Response<Vec<RecordingView>>)
    ensures
        exists|now: i64|
            {
                &&& now >= 0
                &&& r.success == #[trigger] spec_is_admin(store@, req.token@, now)
                &&& r.success ==> r.message@.map_values(|p: RecordingView| p@)
                    == matching_recording_views(store@, store@.recordings, spec_tokens(req.query@))
                &&& !r.success ==> r.message@.len() == 0
            },
{
    let now = now_seconds();
    let r = db_searchrecording(store, req, now);
    proof {
        assert(now >= 0 && r.success == spec_is_admin(store@, req.token@, now));
    }
    r
}

} // verus!
