//! The game endpoints' processors.
//!
//! Every read and every mutation is ownership-scoped: a game is addressed by
//! its identity *and* the requester's identity, so a game owned by someone
//! else answers exactly as a nonexistent one — not found, never forbidden.
//! Creation and update reconcile the requested category names through the
//! store's normalizer.

use vstd::prelude::*;

use crate::entities::{
    clone_opt_string, opt_str, Categories, Game, GameCreatePayload, GameRecord, GameUpdatePayload,
};
use crate::errors::{ProcessorError, StorageError};
use crate::store::{links_without, normalized_into, Store};
use crate::token::SessionClaims;

verus! {

/// The visible game `g` renders the stored record `rec`, its category names
/// reconstructed through the link table of `s`.
pub open spec fn game_shows_record(s: Store, g: Game, rec: GameRecord) -> bool {
    &&& g.id@ == rec.id@
    &&& g.user_id@ == rec.user_id@
    &&& g.title@ == rec.title@
    &&& opt_str(g.image_url) == opt_str(rec.image_url)
    &&& g.status == rec.status
    &&& g.rating == rec.rating
    &&& opt_str(g.note) == opt_str(rec.note)
    &&& g.created_at@ == rec.created_at@
    &&& opt_str(g.updated_at) == opt_str(rec.updated_at)
    &&& (g.categories matches Some(c) && c.content.deep_view() == s.spec_game_category_names(
        rec.id@,
    ))
}

/// The games of one user, in the order the store holds them.
pub open spec fn user_games(games: Seq<GameRecord>, user_id: Seq<char>) -> Seq<GameRecord>
    decreases games.len(),
{
    if games.len() == 0 {
        Seq::empty()
    } else {
        let rest = user_games(games.drop_last(), user_id);
        if games.last().user_id@ == user_id {
            rest.push(games.last())
        } else {
            rest
        }
    }
}

pub struct GamesProcessor;

impl GamesProcessor {
    /// Render one stored game for the response.
    fn game_dto(store: &Store, j: usize) -> (g: Game)
        requires
            store.wf(),
            j < store.games@.len(),
        ensures
            game_shows_record(*store, g, store.games@[j as int]),
    {
        let rec = &store.games[j];
        let names = store.categories_of_game(&rec.id);
        Game {
            id: rec.id.clone(),
            user_id: rec.user_id.clone(),
            title: rec.title.clone(),
            image_url: clone_opt_string(&rec.image_url),
            status: rec.status,
            rating: rec.rating,
            categories: Some(Categories { content: names }),
            note: clone_opt_string(&rec.note),
            created_at: rec.created_at.clone(),
            updated_at: clone_opt_string(&rec.updated_at),
        }
    }

    /// Create a game owned by the authenticated subject and link it to its
    /// requested categories; the response echoes the requested names.
    pub fn create(store: &mut Store, claims: &SessionClaims, payload: GameCreatePayload) -> (r:
        Result<(u16, Game), ProcessorError>)
        requires
            old(store).wf(),
        ensures
            final(store).wf(),
            final(store).users == old(store).users,
            old(store).categories@.is_prefix_of(final(store).categories@),
            old(store).links@.is_prefix_of(final(store).links@),
            old(store).games@.is_prefix_of(final(store).games@),
            final(store).games@.len() <= old(store).games@.len() + 1,
            (r matches Ok(p) ==> p.0 == 201 && final(store).games@.len() == old(store).games@.len()
                + 1 && {
                let rec = final(store).games@.last();
                let g = p.1;
                &&& !old(store).spec_has_game_id(rec.id@)
                &&& rec.user_id@ == claims.subject@
                &&& rec.title@ == payload.title@
                &&& opt_str(rec.image_url) == opt_str(payload.image_url)
                &&& rec.status == payload.status
                &&& rec.rating == payload.rating
                &&& opt_str(rec.note) == opt_str(payload.note)
                &&& rec.updated_at is None
                &&& g.id@ == rec.id@
                &&& g.user_id@ == claims.subject@
                &&& g.title@ == payload.title@
                &&& opt_str(g.image_url) == opt_str(payload.image_url)
                &&& g.status == payload.status
                &&& g.rating == payload.rating
                &&& opt_str(g.note) == opt_str(payload.note)
                &&& g.created_at@ == rec.created_at@
                &&& g.updated_at is None
                &&& (g.categories matches Some(c) && (match payload.categories {
                    Some(v) => c.content.deep_view() == v.deep_view(),
                    None => c.content.deep_view().len() == 0,
                }))
                &&& normalized_into(
                    *old(store),
                    *final(store),
                    rec.id@,
                    match payload.categories {
                        Some(v) => v.deep_view(),
                        None => Seq::empty(),
                    },
                )
            }),
            (r matches Err(e) ==> e == ProcessorError::DatabaseError(StorageError::Other)),
            (old(store).games@.len() == 0 && (payload.categories is Some ==> forall|m: int|
                #![trigger payload.categories->Some_0.deep_view()[m]]
                0 <= m < payload.categories->Some_0.deep_view().len() ==> old(
                    store,
                ).spec_has_category_named(payload.categories->Some_0.deep_view()[m])) ==> r is Ok),
    {
        let id = crate::ids::fresh_id();
        match store.find_game_by_id(&id) {
            Some(_) => {
                return Err(ProcessorError::DatabaseError(StorageError::Other));
            },
            None => {},
        }
        let created_at = crate::clock::utc_now_string();
        let content: Vec<String> = match payload.categories {
            Some(v) => v,
            None => Vec::new(),
        };
        let rec = GameRecord {
            id: id.clone(),
            user_id: claims.subject.clone(),
            title: payload.title.clone(),
            image_url: clone_opt_string(&payload.image_url),
            status: payload.status,
            rating: payload.rating,
            note: clone_opt_string(&payload.note),
            created_at: created_at.clone(),
            updated_at: None,
        };
        let ghost pre = *store;
        store.games.push(rec);
        proof {
            let cur = *store;
            assert forall|a: int, b: int|
                #![trigger cur.games@[a], cur.games@[b]]
                0 <= a < b < cur.games@.len() implies cur.games@[a].id@ != cur.games@[b].id@ by {
                if b < pre.games@.len() {
                    assert(cur.games@[a] == pre.games@[a]);
                    assert(cur.games@[b] == pre.games@[b]);
                } else {
                    assert(cur.games@[a] == pre.games@[a]);
                    assert(cur.games@[b].id@ == id@);
                    assert(!pre.spec_has_game_id(id@));
                }
            }
            crate::store::lemma_links_wf_preserved(pre, cur);
            assert(cur.wf());
            assert(cur.games@.last().id@ == id@);
            assert(cur.spec_has_game_id(id@));
            assert(pre.games@ =~= cur.games@.subrange(0, pre.games@.len() as int));
        }
        proof {
            // category rows have not moved, so every name present at entry
            // is still present for the normalizer
            let reqs = content.deep_view();
            assert forall|m: int|
                #![trigger reqs[m]]
                0 <= m < reqs.len() && old(store).spec_has_category_named(reqs[m])
                implies store.spec_has_category_named(reqs[m]) by {
                let w = choose|w: int|
                    0 <= w < old(store).categories@.len() && #[trigger] old(store).categories@[
                    w].name@ == reqs[m];
                assert(store.categories@[w].name@ == reqs[m]);
            }
            if payload.categories is Some {
                assert(content.deep_view() == payload.categories->Some_0.deep_view());
            }
        }
        match store.normalize_categories(&id, &content) {
            Ok(()) => {},
            Err(e) => {
                return Err(e);
            },
        }
        let game = Game {
            id,
            user_id: claims.subject.clone(),
            title: payload.title,
            image_url: payload.image_url,
            status: payload.status,
            rating: payload.rating,
            categories: Some(Categories { content }),
            note: payload.note,
            created_at,
            updated_at: None,
        };
        Ok((201, game))
    }

    /// Read one game under the requester's identity; anyone else's game is
    /// simply not found.
    pub fn read(store: &Store, claims: &SessionClaims, id: &String) -> (r: Result<
        Game,
        ProcessorError,
    >)
        requires
            store.wf(),
        ensures
            (r matches Ok(g) ==> exists|j: int|
                0 <= j < store.games@.len() && #[trigger] store.games@[j].id@ == id@
                    && store.games@[j].user_id@ == claims.subject@ && game_shows_record(
                    *store,
                    g,
                    store.games@[j],
                )),
            (r matches Err(e) ==> !store.spec_has_owned_game(id@, claims.subject@) && e
                == ProcessorError::DatabaseError(StorageError::NotFound)),
    {
        match store.find_game(id, &claims.subject) {
            Some(j) => Ok(Self::game_dto(store, j)),
            None => Err(ProcessorError::DatabaseError(StorageError::NotFound)),
        }
    }

    /// Read every game of the requester, newest first. The store appends
    /// rows in creation order, so reverse insertion order realizes the
    /// creation-time-descending listing; the order pinned here is the
    /// insertion-based one.
    pub fn read_all(store: &Store, claims: &SessionClaims) -> (r: Vec<Game>)
        requires
            store.wf(),
        ensures
            r@.len() == user_games(store.games@, claims.subject@).len(),
            forall|t: int|
                0 <= t < r@.len() ==> game_shows_record(
                    *store,
                    #[trigger] r@[t],
                    user_games(store.games@, claims.subject@)[r@.len() - 1 - t],
                ),
    {
        let mut out: Vec<Game> = Vec::new();
        let n = store.games.len();
        let mut i = n;
        while i > 0
            invariant
                store.wf(),
                n == store.games@.len(),
                i <= n,
                out@.len() == user_games(store.games@.skip(i as int), claims.subject@).len(),
                forall|t: int|
                    0 <= t < out@.len() ==> game_shows_record(
                        *store,
                        #[trigger] out@[t],
                        user_games(store.games@.skip(i as int), claims.subject@)[out@.len() - 1
                            - t],
                    ),
            decreases i,
        {
            i = i - 1;
            let ghost before = user_games(store.games@.skip(i + 1), claims.subject@);
            let ghost after = user_games(store.games@.skip(i as int), claims.subject@);
            proof {
                lemma_user_games_step(store.games@, claims.subject@, i as int);
            }
            let subject = &claims.subject;
            if store.games[i].user_id == *subject {
                let g = Self::game_dto(store, i);
                out.push(g);
                proof {
                    assert(after =~= seq![store.games@[i as int]] + before);
                    assert(after[0] == store.games@[i as int]);
                    assert forall|t: int| 0 <= t < out@.len() implies game_shows_record(
                        *store,
                        #[trigger] out@[t],
                        after[out@.len() - 1 - t],
                    ) by {
                        if t < out@.len() - 1 {
                            assert(after[out@.len() - 1 - t] == before[before.len() - 1 - t]);
                        } else {
                            assert(after[0] == store.games@[i as int]);
                        }
                    }
                }
            } else {
                proof {
                    assert(after =~= before);
                }
            }
        }
        proof {
            assert(store.games@.skip(0) =~= store.games@);
        }
        out
    }

    /// Update a game under the requester's identity: every column is
    /// replaced from the payload; the category set is replaced only when the
    /// payload supplies one, and left untouched when it does not.
    pub fn update(
        store: &mut Store,
        claims: &SessionClaims,
        id: &String,
        payload: GameUpdatePayload,
    ) -> (r: Result<u16, ProcessorError>)
        requires
            old(store).wf(),
        ensures
            final(store).wf(),
            final(store).users == old(store).users,
            old(store).categories@.is_prefix_of(final(store).categories@),
            (!old(store).spec_has_owned_game(id@, claims.subject@) ==> r == Err::<
                u16,
                ProcessorError,
            >(ProcessorError::DatabaseError(StorageError::NotFound)) && *final(store) == *old(store)),
            (r matches Ok(code) ==> code == 200 && exists|j: int|
                0 <= j < old(store).games@.len() && #[trigger] old(store).games@[j].id@ == id@
                    && old(store).games@[j].user_id@ == claims.subject@ && final(store).games@.len() == old(store).games@.len() && (forall|t: int|
                    0 <= t < old(store).games@.len() && t != j ==> final(store).games@[t] == old(store).games@[t]) && {
                    let rec = final(store).games@[j];
                    &&& rec.id@ == id@
                    &&& rec.user_id@ == claims.subject@
                    &&& rec.title@ == payload.title@
                    &&& opt_str(rec.image_url) == opt_str(payload.image_url)
                    &&& rec.status == payload.status
                    &&& rec.rating == payload.rating
                    &&& opt_str(rec.note) == opt_str(payload.note)
                    &&& rec.created_at@ == old(store).games@[j].created_at@
                    &&& rec.updated_at is Some
                }),
            (r is Ok && payload.categories is None ==> final(store).links == old(store).links
                && final(store).categories == old(store).categories),
            (r is Ok && payload.categories is Some ==> {
                let v = payload.categories->Some_0;
                let names = v.deep_view();
                &&& forall|i: int|
                    0 <= i < final(store).links@.len() && (#[trigger] final(store).links@[
                    i]).game_id@ == id@ ==> names.contains(
                        final(store).spec_category_name_of(final(store).links@[i].category_id@),
                    )
                &&& forall|k: int|
                    #![trigger names[k]]
                    0 <= k < names.len() ==> final(store).spec_has_category_named(names[k])
                        && final(store).spec_has_link(
                        id@,
                        final(store).spec_category_id_named(names[k]),
                    )
                &&& forall|i: int|
                    0 <= i < old(store).links@.len() && (#[trigger] old(store).links@[i]).game_id@
                        != id@ ==> final(store).links@.contains(old(store).links@[i])
                &&& forall|i: int|
                    0 <= i < final(store).links@.len() ==> (#[trigger] final(store).links@[
                    i]).game_id@ == id@ || old(store).links@.contains(final(store).links@[i])
            }),
            (r matches Err(e) ==> e == ProcessorError::DatabaseError(StorageError::NotFound) || e
                == ProcessorError::DatabaseError(StorageError::Other)),
            (old(store).spec_has_owned_game(id@, claims.subject@) && payload.categories is None
                ==> (r matches Ok(code) && code == 200)),
            (old(store).spec_has_owned_game(id@, claims.subject@) && payload.categories is Some
                && (forall|m: int|
                #![trigger payload.categories->Some_0.deep_view()[m]]
                0 <= m < payload.categories->Some_0.deep_view().len() ==> old(
                    store,
                ).spec_has_category_named(payload.categories->Some_0.deep_view()[m])) ==> (
            r matches Ok(code) && code == 200)),
    {
        let j: usize = match store.find_game(id, &claims.subject) {
            Some(j) => j,
            None => {
                return Err(ProcessorError::DatabaseError(StorageError::NotFound));
            },
        };
        let ghost pre = *store;
        let created_at = store.games[j].created_at.clone();
        let updated_at = crate::clock::utc_now_string();
        let rec = GameRecord {
            id: id.clone(),
            user_id: claims.subject.clone(),
            title: payload.title,
            image_url: payload.image_url,
            status: payload.status,
            rating: payload.rating,
            note: payload.note,
            created_at,
            updated_at: Some(updated_at),
        };
        store.games[j] = rec;
        proof {
            let cur = *store;
            assert(cur.games@ =~= pre.games@.update(j as int, cur.games@[j as int]));
            assert forall|a: int, b: int|
                #![trigger cur.games@[a], cur.games@[b]]
                0 <= a < b < cur.games@.len() implies cur.games@[a].id@ != cur.games@[b].id@ by {
                assert(pre.games@[a].id@ != pre.games@[b].id@);
                assert(cur.games@[a].id@ == pre.games@[a].id@);
                assert(cur.games@[b].id@ == pre.games@[b].id@);
            }
            assert forall|i: int|
                #![trigger cur.games@[i]]
                0 <= i < pre.games@.len() implies cur.games@[i].id@ == pre.games@[i].id@ by {}
            crate::store::lemma_links_wf_preserved(pre, cur);
            assert(cur.wf());
            assert(cur.games@[j as int].id@ == id@);
            assert(cur.spec_has_game_id(id@));
        }
        let names: Vec<String> = match payload.categories {
            Some(v) => v,
            None => {
                return Ok(200);
            },
        };
        let ghost mid = *store;
        store.remove_links_of_game(id);
        let ghost mid2 = *store;
        proof {
            // the category table has not moved, so every name present at
            // entry is still present for the normalizer
            let reqs = names.deep_view();
            assert(reqs == payload.categories->Some_0.deep_view());
            assert forall|m: int|
                #![trigger reqs[m]]
                0 <= m < reqs.len() && old(store).spec_has_category_named(reqs[m])
                implies mid2.spec_has_category_named(reqs[m]) by {
                let w = choose|w: int|
                    0 <= w < old(store).categories@.len() && #[trigger] old(store).categories@[
                    w].name@ == reqs[m];
                assert(mid2.categories@[w].name@ == reqs[m]);
            }
        }
        match store.normalize_categories(id, &names) {
            Ok(()) => {},
            Err(e) => {
                return Err(e);
            },
        }
        proof {
            let fin = *store;
            let nv = names.deep_view();
            crate::store::lemma_links_without_props(mid.links@, id@);
            // links of this game all come from the normalizer, so they carry
            // requested names
            assert forall|i: int|
                0 <= i < fin.links@.len() && (#[trigger] fin.links@[i]).game_id@ == id@
                implies nv.contains(fin.spec_category_name_of(fin.links@[i].category_id@)) by {
                if i < mid2.links@.len() {
                    assert(mid2.links@[i] == fin.links@.subrange(0, mid2.links@.len() as int)[i]);
                    assert(fin.links@[i] == mid2.links@[i]);
                    assert(mid2.links@[i].game_id@ != id@);
                }
            }
            // links of other games survive the replacement
            assert forall|i: int|
                0 <= i < mid.links@.len() && (#[trigger] mid.links@[i]).game_id@ != id@
                implies fin.links@.contains(mid.links@[i]) by {
                assert(mid2.links@.contains(mid.links@[i]));
                let w = choose|w: int| 0 <= w < mid2.links@.len() && mid2.links@[w] == mid.links@[i];
                assert(mid2.links@[w] == fin.links@.subrange(0, mid2.links@.len() as int)[w]);
                assert(fin.links@[w] == mid.links@[i]);
            }
            // nothing else was added
            assert forall|i: int|
                0 <= i < fin.links@.len() implies (#[trigger] fin.links@[i]).game_id@ == id@
                || mid.links@.contains(fin.links@[i]) by {
                if i < mid2.links@.len() {
                    assert(mid2.links@[i] == fin.links@.subrange(0, mid2.links@.len() as int)[i]);
                    assert(fin.links@[i] == mid2.links@[i]);
                    assert(mid.links@.contains(mid2.links@[i]));
                }
            }
        }
        Ok(200)
    }

    /// Delete a game under the requester's identity, and its links with it.
    pub fn delete(store: &mut Store, claims: &SessionClaims, id: &String) -> (r: Result<
        u16,
        ProcessorError,
    >)
        requires
            old(store).wf(),
        ensures
            final(store).wf(),
            final(store).users == old(store).users,
            final(store).categories == old(store).categories,
            (!old(store).spec_has_owned_game(id@, claims.subject@) ==> r == Err::<
                u16,
                ProcessorError,
            >(ProcessorError::DatabaseError(StorageError::NotFound)) && *final(store) == *old(store)),
            (r matches Ok(code) ==> code == 204 && exists|j: int|
                0 <= j < old(store).games@.len() && #[trigger] old(store).games@[j].id@ == id@
                    && old(store).games@[j].user_id@ == claims.subject@ && final(store).games@
                    == old(store).games@.remove(j) && final(store).links@ == links_without(
                    old(store).links@,
                    id@,
                )),
            (r matches Err(e) ==> e == ProcessorError::DatabaseError(StorageError::NotFound)),
            (old(store).spec_has_owned_game(id@, claims.subject@) ==> (r matches Ok(code)
                && code == 204)),
    {
        let j: usize = match store.find_game(id, &claims.subject) {
            Some(j) => j,
            None => {
                return Err(ProcessorError::DatabaseError(StorageError::NotFound));
            },
        };
        store.remove_links_of_game(id);
        store.delete_game_row(j);
        Ok(204)
    }
}

/// One step of the per-user filtering, unfolded at the front.
proof fn lemma_user_games_step(games: Seq<GameRecord>, user_id: Seq<char>, i: int)
    requires
        0 <= i < games.len(),
    ensures
        games[i].user_id@ == user_id ==> user_games(games.skip(i), user_id) =~= seq![games[i]]
            + user_games(games.skip(i + 1), user_id),
        games[i].user_id@ != user_id ==> user_games(games.skip(i), user_id) =~= user_games(
            games.skip(i + 1),
            user_id,
        ),
    decreases games.len() - i,
{
    lemma_user_games_front(games.skip(i), user_id);
    assert(games.skip(i)[0] == games[i]);
    assert(games.skip(i).skip(1) =~= games.skip(i + 1));
}

/// The per-user filtering, seen from the front of the sequence.
proof fn lemma_user_games_front(games: Seq<GameRecord>, user_id: Seq<char>)
    requires
        games.len() > 0,
    ensures
        games[0].user_id@ == user_id ==> user_games(games, user_id) =~= seq![games[0]]
            + user_games(games.skip(1), user_id),
        games[0].user_id@ != user_id ==> user_games(games, user_id) =~= user_games(
            games.skip(1),
            user_id,
        ),
    decreases games.len(),
{
    if games.len() == 1 {
        assert(games.skip(1) =~= Seq::<GameRecord>::empty());
        assert(games.drop_last() =~= Seq::<GameRecord>::empty());
        assert(games.last() == games[0]);
    } else {
        lemma_user_games_front(games.drop_last(), user_id);
        assert(games.drop_last()[0] == games[0]);
        assert(games.drop_last().skip(1) =~= games.skip(1).drop_last());
        assert(games.skip(1).last() == games.last());
    }
}

} // verus!
