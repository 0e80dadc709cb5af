//! The backing store, modelled as the four tables the service persists.
//!
//! Well-formedness pins what the schema's constraints give the tables:
//! unique user identities and usernames, unique game identities,
//! unique category identities and names, and a link table of distinct pairs
//! in which no link references a nonexistent game or category.

use vstd::prelude::*;

use crate::entities::{Category, GameCategoryLink, GameRecord, User};
use crate::errors::{ProcessorError, StorageError};

verus! {

/// The four tables.
pub struct Store {
    pub users: Vec<User>,
    pub games: Vec<GameRecord>,
    pub categories: Vec<Category>,
    pub links: Vec<GameCategoryLink>,
}

/// Distinct (game, category) pairs.
pub open spec fn links_distinct(links: Seq<GameCategoryLink>) -> bool {
    forall|i: int, j: int|
        #![trigger links[i], links[j]]
        0 <= i < j < links.len() ==> !(links[i].game_id@ == links[j].game_id@
            && links[i].category_id@ == links[j].category_id@)
}

/// Referential integrity of the link table survives any mutation that keeps
/// the link table and, at every old position, the game and category
/// identities: each link's witness row stays where it was.
pub proof fn lemma_links_wf_preserved(pre: Store, cur: Store)
    requires
        pre.links_wf(),
        cur.links == pre.links,
        cur.games@.len() >= pre.games@.len(),
        forall|i: int|
            #![trigger cur.games@[i]]
            0 <= i < pre.games@.len() ==> cur.games@[i].id@ == pre.games@[i].id@,
        cur.categories@.len() >= pre.categories@.len(),
        forall|i: int|
            #![trigger cur.categories@[i]]
            0 <= i < pre.categories@.len() ==> cur.categories@[i].id@ == pre.categories@[i].id@,
    ensures
        cur.links_wf(),
{
    assert forall|k: int| 0 <= k < cur.links@.len() implies cur.spec_has_game_id(
        cur.links@[k].game_id@,
    ) && cur.spec_has_category_id(cur.links@[k].category_id@) by {
        assert(cur.links@[k] == pre.links@[k]);
        assert(pre.spec_has_game_id(pre.links@[k].game_id@));
        let gw = choose|w: int|
            0 <= w < pre.games@.len() && #[trigger] pre.games@[w].id@ == pre.links@[k].game_id@;
        assert(cur.games@[gw].id@ == pre.links@[k].game_id@);
        assert(pre.spec_has_category_id(pre.links@[k].category_id@));
        let cw = choose|w: int|
            0 <= w < pre.categories@.len() && #[trigger] pre.categories@[w].id@ == pre.links@[
            k].category_id@;
        assert(cur.categories@[cw].id@ == pre.links@[k].category_id@);
    }
}

impl Store {
    pub open spec fn users_wf(self) -> bool {
        forall|i: int, j: int|
            #![trigger self.users@[i], self.users@[j]]
            0 <= i < j < self.users@.len() ==> self.users@[i].id@ != self.users@[j].id@
                && self.users@[i].username@ != self.users@[j].username@
    }

    pub open spec fn games_wf(self) -> bool {
        forall|i: int, j: int|
            #![trigger self.games@[i], self.games@[j]]
            0 <= i < j < self.games@.len() ==> self.games@[i].id@ != self.games@[j].id@
    }

    pub open spec fn categories_wf(self) -> bool {
        forall|i: int, j: int|
            #![trigger self.categories@[i], self.categories@[j]]
            0 <= i < j < self.categories@.len() ==> self.categories@[i].id@
                != self.categories@[j].id@ && self.categories@[i].name@
                != self.categories@[j].name@
    }

    pub open spec fn links_wf(self) -> bool {
        links_distinct(self.links@) && (forall|i: int|
            #![trigger self.links@[i]]
            0 <= i < self.links@.len() ==> self.spec_has_game_id(self.links@[i].game_id@)
                && self.spec_has_category_id(self.links@[i].category_id@))
    }

    /// Every invariant the schema guarantees.
    pub open spec fn wf(self) -> bool {
        self.users_wf() && self.games_wf() && self.categories_wf() && self.links_wf()
    }

    pub open spec fn spec_has_user_id(self, id: Seq<char>) -> bool {
        exists|i: int| 0 <= i < self.users@.len() && #[trigger] self.users@[i].id@ == id
    }

    pub open spec fn spec_has_username(self, username: Seq<char>) -> bool {
        exists|i: int| 0 <= i < self.users@.len() && #[trigger] self.users@[i].username@ == username
    }

    /// The user a username names (well defined under `users_wf`).
    pub open spec fn spec_user_named(self, username: Seq<char>) -> User {
        self.users@[choose|i: int|
            0 <= i < self.users@.len() && #[trigger] self.users@[i].username@ == username]
    }

    pub open spec fn spec_has_game_id(self, id: Seq<char>) -> bool {
        exists|i: int| 0 <= i < self.games@.len() && #[trigger] self.games@[i].id@ == id
    }

    /// Ownership-scoped existence: a game with this identity owned by this
    /// user.
    pub open spec fn spec_has_owned_game(self, id: Seq<char>, user_id: Seq<char>) -> bool {
        exists|i: int|
            0 <= i < self.games@.len() && #[trigger] self.games@[i].id@ == id
                && self.games@[i].user_id@ == user_id
    }

    pub open spec fn spec_has_category_id(self, id: Seq<char>) -> bool {
        exists|i: int| 0 <= i < self.categories@.len() && #[trigger] self.categories@[i].id@ == id
    }

    pub open spec fn spec_has_category_named(self, name: Seq<char>) -> bool {
        exists|i: int|
            0 <= i < self.categories@.len() && #[trigger] self.categories@[i].name@ == name
    }

    /// The identity of the category a name names (well defined under
    /// `categories_wf`).
    pub open spec fn spec_category_id_named(self, name: Seq<char>) -> Seq<char> {
        self.categories@[choose|i: int|
            0 <= i < self.categories@.len() && #[trigger] self.categories@[i].name@ == name].id@
    }

    /// The name of the category an identity names (well defined under
    /// `categories_wf`).
    pub open spec fn spec_category_name_of(self, id: Seq<char>) -> Seq<char> {
        self.categories@[choose|i: int|
            0 <= i < self.categories@.len() && #[trigger] self.categories@[i].id@ == id].name@
    }

    pub open spec fn spec_has_link(self, game_id: Seq<char>, category_id: Seq<char>) -> bool {
        exists|i: int|
            0 <= i < self.links@.len() && #[trigger] self.links@[i].game_id@ == game_id
                && self.links@[i].category_id@ == category_id
    }

    /// The empty store.
    pub fn new() -> (r: Self)
        ensures
            r.wf(),
            r.users@.len() == 0,
            r.games@.len() == 0,
            r.categories@.len() == 0,
            r.links@.len() == 0,
    {
        Store { users: Vec::new(), games: Vec::new(), categories: Vec::new(), links: Vec::new() }
    }

    pub fn find_user_by_username(&self, username: &String) -> (r: Option<usize>)
        ensures
            (r matches Some(i) ==> i < self.users@.len() && self.users@[i as int].username@
                == username@),
            (r is None ==> !self.spec_has_username(username@)),
    {
        let n = self.users.len();
        for i in 0..n
            invariant
                n == self.users@.len(),
                forall|k: int| 0 <= k < i ==> #[trigger] self.users@[k].username@ != username@,
        {
            if self.users[i].username == *username {
                return Some(i);
            }
        }
        None
    }

    pub fn find_user_by_id(&self, id: &String) -> (r: Option<usize>)
        ensures
            (r matches Some(i) ==> i < self.users@.len() && self.users@[i as int].id@ == id@),
            (r is None ==> !self.spec_has_user_id(id@)),
    {
        let n = self.users.len();
        for i in 0..n
            invariant
                n == self.users@.len(),
                forall|k: int| 0 <= k < i ==> #[trigger] self.users@[k].id@ != id@,
        {
            if self.users[i].id == *id {
                return Some(i);
            }
        }
        None
    }

    /// The ownership-scoped lookup: a game is found only under its owner's
    /// identity; for anyone else it does not exist.
    pub fn find_game(&self, id: &String, user_id: &String) -> (r: Option<usize>)
        ensures
            (r matches Some(i) ==> i < self.games@.len() && self.games@[i as int].id@ == id@
                && self.games@[i as int].user_id@ == user_id@),
            (r is None ==> !self.spec_has_owned_game(id@, user_id@)),
    {
        let n = self.games.len();
        for i in 0..n
            invariant
                n == self.games@.len(),
                forall|k: int|
                    0 <= k < i ==> !(#[trigger] self.games@[k].id@ == id@
                        && self.games@[k].user_id@ == user_id@),
        {
            if self.games[i].id == *id && self.games[i].user_id == *user_id {
                return Some(i);
            }
        }
        None
    }

    pub fn find_game_by_id(&self, id: &String) -> (r: Option<usize>)
        ensures
            (r matches Some(i) ==> i < self.games@.len() && self.games@[i as int].id@ == id@),
            (r is None ==> !self.spec_has_game_id(id@)),
    {
        let n = self.games.len();
        for i in 0..n
            invariant
                n == self.games@.len(),
                forall|k: int| 0 <= k < i ==> #[trigger] self.games@[k].id@ != id@,
        {
            if self.games[i].id == *id {
                return Some(i);
            }
        }
        None
    }

    pub fn find_category_by_name(&self, name: &String) -> (r: Option<usize>)
        ensures
            (r matches Some(i) ==> i < self.categories@.len() && self.categories@[i as int].name@
                == name@),
            (r is None ==> !self.spec_has_category_named(name@)),
    {
        let n = self.categories.len();
        for i in 0..n
            invariant
                n == self.categories@.len(),
                forall|k: int| 0 <= k < i ==> #[trigger] self.categories@[k].name@ != name@,
        {
            if self.categories[i].name == *name {
                return Some(i);
            }
        }
        None
    }

    pub fn find_category_by_id(&self, id: &String) -> (r: Option<usize>)
        ensures
            (r matches Some(i) ==> i < self.categories@.len() && self.categories@[i as int].id@
                == id@),
            (r is None ==> !self.spec_has_category_id(id@)),
    {
        let n = self.categories.len();
        for i in 0..n
            invariant
                n == self.categories@.len(),
                forall|k: int| 0 <= k < i ==> #[trigger] self.categories@[k].id@ != id@,
        {
            if self.categories[i].id == *id {
                return Some(i);
            }
        }
        None
    }

    pub fn has_link(&self, game_id: &String, category_id: &String) -> (r: bool)
        ensures
            r == self.spec_has_link(game_id@, category_id@),
    {
        let n = self.links.len();
        for i in 0..n
            invariant
                n == self.links@.len(),
                forall|k: int|
                    0 <= k < i ==> !(#[trigger] self.links@[k].game_id@ == game_id@
                        && self.links@[k].category_id@ == category_id@),
        {
            if self.links[i].game_id == *game_id && self.links[i].category_id == *category_id {
                return true;
            }
        }
        false
    }
}


impl Store {
    /// Uniqueness makes the name-to-identity reading definite: any row
    /// bearing a name is the row `spec_category_id_named` reads.
    pub proof fn lemma_category_id_named(self, i: int)
        requires
            self.categories_wf(),
            0 <= i < self.categories@.len(),
        ensures
            self.spec_has_category_named(self.categories@[i].name@),
            self.spec_category_id_named(self.categories@[i].name@) == self.categories@[i].id@,
    {
        let name = self.categories@[i].name@;
        assert(self.spec_has_category_named(name));
        let j = choose|j: int|
            0 <= j < self.categories@.len() && #[trigger] self.categories@[j].name@ == name;
        if i < j {
            assert(self.categories@[i].name@ != self.categories@[j].name@);
        } else if j < i {
            assert(self.categories@[j].name@ != self.categories@[i].name@);
        }
    }

    /// The same, for the identity-to-name reading.
    pub proof fn lemma_category_name_of(self, i: int)
        requires
            self.categories_wf(),
            0 <= i < self.categories@.len(),
        ensures
            self.spec_has_category_id(self.categories@[i].id@),
            self.spec_category_name_of(self.categories@[i].id@) == self.categories@[i].name@,
    {
        let id = self.categories@[i].id@;
        assert(self.spec_has_category_id(id));
        let j = choose|j: int|
            0 <= j < self.categories@.len() && #[trigger] self.categories@[j].id@ == id;
        if i < j {
            assert(self.categories@[i].id@ != self.categories@[j].id@);
        } else if j < i {
            assert(self.categories@[j].id@ != self.categories@[i].id@);
        }
    }

    /// Look up the category a name names; when there is none, insert a row
    /// under the minted identity, unless that identity is already taken (a
    /// duplicate insert must not fail the whole operation, but an identity
    /// clash is refused). The resolved row's index comes back.
    pub fn ensure_category(&mut self, name: &String, fresh_id: String) -> (r: Result<
        usize,
        ProcessorError,
    >)
        requires
            old(self).wf(),
        ensures
            final(self).wf(),
            final(self).users == old(self).users,
            final(self).games == old(self).games,
            final(self).links == old(self).links,
            (r matches Ok(i) ==> i < final(self).categories@.len()
                && final(self).categories@[i as int].name@ == name@
                && final(self).spec_has_category_named(name@)
                && final(self).spec_category_id_named(name@) == final(self).categories@[
                i as int].id@),
            (old(self).spec_has_category_named(name@) ==> r is Ok && final(self).categories == old(self).categories),
            (!old(self).spec_has_category_named(name@) && !old(self).spec_has_category_id(fresh_id@)
                ==> r is Ok && final(self).categories@.len() == old(self).categories@.len() + 1
                && final(self).categories@.subrange(0, old(self).categories@.len() as int) == old(self).categories@ && final(self).categories@.last().id@ == fresh_id@ && final(self).categories@.last().name@ == name@),
            (r is Err ==> !old(self).spec_has_category_named(name@) && old(self).spec_has_category_id(fresh_id@)),
            (!old(self).spec_has_category_named(name@) && old(self).spec_has_category_id(fresh_id@)
                ==> r is Err),
            (r matches Err(e) ==> e == ProcessorError::DatabaseError(StorageError::Other) && final(self).categories == old(self).categories),
    {
        match self.find_category_by_name(name) {
            Some(i) => {
                proof {
                    self.lemma_category_id_named(i as int);
                }
                Ok(i)
            },
            None => {
                match self.find_category_by_id(&fresh_id) {
                    Some(_) => Err(ProcessorError::DatabaseError(StorageError::Other)),
                    None => {
                        let ghost pre = *self;
                        let i = self.categories.len();
                        self.categories.push(Category { id: fresh_id, name: name.clone() });
                        proof {
                            assert forall|a: int, b: int|
                                0 <= a < b < self.categories@.len() implies self.categories@[a].id@
                                != self.categories@[b].id@ && self.categories@[a].name@
                                != self.categories@[b].name@ by {
                                if b < pre.categories@.len() {
                                    assert(pre.categories@[a].id@ != pre.categories@[b].id@);
                                } else {
                                    assert(self.categories@[b].id@ == fresh_id@);
                                    assert(!pre.spec_has_category_id(fresh_id@));
                                    assert(self.categories@[a] == pre.categories@[a]);
                                }
                            }
                            assert(self.categories_wf());
                            lemma_links_wf_preserved(pre, *self);
                            self.lemma_category_id_named(i as int);
                        }
                        Ok(i)
                    },
                }
            },
        }
    }

    /// Link a game to a category; a second insert of an identical pair is a
    /// no-op, not an error.
    pub fn insert_link_if_absent(&mut self, game_id: &String, category_id: &String)
        requires
            old(self).wf(),
            old(self).spec_has_game_id(game_id@),
            old(self).spec_has_category_id(category_id@),
        ensures
            final(self).wf(),
            final(self).users == old(self).users,
            final(self).games == old(self).games,
            final(self).categories == old(self).categories,
            final(self).spec_has_link(game_id@, category_id@),
            (old(self).spec_has_link(game_id@, category_id@) ==> final(self).links == old(self).links),
            (!old(self).spec_has_link(game_id@, category_id@) ==> final(self).links@.len() == old(self).links@.len() + 1 && final(self).links@.subrange(0, old(self).links@.len() as int)
                == old(self).links@ && final(self).links@.last().game_id@ == game_id@ && final(self).links@.last().category_id@ == category_id@),
    {
        if self.has_link(game_id, category_id) {
            return ;
        }
        let ghost pre = *self;
        self.links.push(
            GameCategoryLink { game_id: game_id.clone(), category_id: category_id.clone() },
        );
        proof {
            assert forall|a: int, b: int|
                0 <= a < b < self.links@.len() implies !(self.links@[a].game_id@ == self.links@[
                b].game_id@ && self.links@[a].category_id@ == self.links@[b].category_id@) by {
                if b < pre.links@.len() {
                    assert(pre.links@[a] == self.links@[a]);
                    assert(pre.links@[b] == self.links@[b]);
                } else {
                    assert(self.links@[a] == pre.links@[a]);
                    assert(!pre.spec_has_link(game_id@, category_id@));
                }
            }
            assert forall|k: int| 0 <= k < self.links@.len() implies self.spec_has_game_id(
                self.links@[k].game_id@,
            ) && self.spec_has_category_id(self.links@[k].category_id@) by {
                let gid = if k < pre.links@.len() {
                    pre.links@[k].game_id@
                } else {
                    game_id@
                };
                let cid = if k < pre.links@.len() {
                    pre.links@[k].category_id@
                } else {
                    category_id@
                };
                assert(self.links@[k].game_id@ == gid && self.links@[k].category_id@ == cid);
                assert(pre.spec_has_game_id(gid));
                assert(pre.spec_has_category_id(cid));
                let gw = choose|w: int|
                    0 <= w < pre.games@.len() && #[trigger] pre.games@[w].id@ == gid;
                assert(self.games@[gw].id@ == gid);
                let cw = choose|w: int|
                    0 <= w < pre.categories@.len() && #[trigger] pre.categories@[w].id@ == cid;
                assert(self.categories@[cw].id@ == cid);
            }
            assert(self.links_wf());
            assert(self.links@[pre.links@.len() as int].game_id@ == game_id@
                && self.links@[pre.links@.len() as int].category_id@ == category_id@);
            assert(self.spec_has_link(game_id@, category_id@));
        }
    }
}


/// The link table with every link of one game taken out, order kept.
pub open spec fn links_without(links: Seq<GameCategoryLink>, gid: Seq<char>) -> Seq<
    GameCategoryLink,
>
    decreases links.len(),
{
    if links.len() == 0 {
        Seq::empty()
    } else {
        let rest = links_without(links.skip(1), gid);
        if links[0].game_id@ == gid {
            rest
        } else {
            seq![links[0]] + rest
        }
    }
}

/// What the filtered table holds: no link of the removed game, nothing that
/// was not there, and every link of any other game.
pub proof fn lemma_links_without_props(links: Seq<GameCategoryLink>, gid: Seq<char>)
    ensures
        forall|i: int|
            0 <= i < links_without(links, gid).len() ==> (#[trigger] links_without(links, gid)[
            i]).game_id@ != gid,
        forall|i: int|
            0 <= i < links_without(links, gid).len() ==> links.contains(
                #[trigger] links_without(links, gid)[i],
            ),
        forall|i: int|
            0 <= i < links.len() && (#[trigger] links[i]).game_id@ != gid ==> links_without(
                links,
                gid,
            ).contains(links[i]),
    decreases links.len(),
{
    if links.len() > 0 {
        let tail = links.skip(1);
        lemma_links_without_props(tail, gid);
        let w = links_without(links, gid);
        let wt = links_without(tail, gid);
        assert forall|i: int| 0 <= i < w.len() implies w[i].game_id@ != gid && links.contains(
            w[i],
        ) by {
            if links[0].game_id@ == gid {
                assert(w[i] == wt[i]);
                let k = choose|k: int| 0 <= k < tail.len() && tail[k] == wt[i];
                assert(links[k + 1] == wt[i]);
            } else {
                if i == 0 {
                    assert(w[0] == links[0]);
                } else {
                    assert(w[i] == wt[i - 1]);
                    let k = choose|k: int| 0 <= k < tail.len() && tail[k] == wt[i - 1];
                    assert(links[k + 1] == wt[i - 1]);
                }
            }
        }
        assert forall|i: int| 0 <= i < links.len() && (#[trigger] links[i]).game_id@ != gid
            implies w.contains(links[i]) by {
            if i == 0 {
                assert(w[0] == links[0]);
            } else {
                assert(tail[i - 1] == links[i]);
                assert(wt.contains(tail[i - 1]));
                let k = choose|k: int| 0 <= k < wt.len() && wt[k] == tail[i - 1];
                if links[0].game_id@ == gid {
                    assert(w[k] == links[i]);
                } else {
                    assert(w[k + 1] == links[i]);
                }
            }
        }
    }
}

/// Filtering keeps the pairs distinct.
pub proof fn lemma_links_without_distinct(links: Seq<GameCategoryLink>, gid: Seq<char>)
    requires
        links_distinct(links),
    ensures
        links_distinct(links_without(links, gid)),
    decreases links.len(),
{
    if links.len() > 0 {
        let tail = links.skip(1);
        assert forall|i: int, j: int|
            #![trigger tail[i], tail[j]]
            0 <= i < j < tail.len() implies !(tail[i].game_id@ == tail[j].game_id@
            && tail[i].category_id@ == tail[j].category_id@) by {
            assert(links[i + 1] == tail[i]);
            assert(links[j + 1] == tail[j]);
        }
        lemma_links_without_distinct(tail, gid);
        lemma_links_without_props(tail, gid);
        let w = links_without(links, gid);
        let wt = links_without(tail, gid);
        if links[0].game_id@ != gid {
            assert forall|i: int, j: int|
                #![trigger w[i], w[j]]
                0 <= i < j < w.len() implies !(w[i].game_id@ == w[j].game_id@ && w[i].category_id@
                == w[j].category_id@) by {
                if i == 0 {
                    assert(w[0] == links[0]);
                    assert(w[j] == wt[j - 1]);
                    assert(tail.contains(wt[j - 1]));
                    let k = choose|k: int| 0 <= k < tail.len() && tail[k] == wt[j - 1];
                    assert(links[k + 1] == tail[k]);
                } else {
                    assert(w[i] == wt[i - 1]);
                    assert(w[j] == wt[j - 1]);
                }
            }
        }
    }
}

/// The category names a game's links reach, in link order.
pub open spec fn names_along(s: Store, links: Seq<GameCategoryLink>, gid: Seq<char>) -> Seq<
    Seq<char>,
>
    decreases links.len(),
{
    if links.len() == 0 {
        Seq::empty()
    } else {
        let rest = names_along(s, links.drop_last(), gid);
        if links.last().game_id@ == gid {
            rest.push(s.spec_category_name_of(links.last().category_id@))
        } else {
            rest
        }
    }
}

impl Store {
    /// The visible category names of a game, reconstructed by joining the
    /// link table with the category table; a game with no links gets the
    /// empty list, not an absent one.
    pub open spec fn spec_game_category_names(self, gid: Seq<char>) -> Seq<Seq<char>> {
        names_along(self, self.links@, gid)
    }

    pub fn categories_of_game(&self, game_id: &String) -> (r: Vec<String>)
        requires
            self.wf(),
        ensures
            r.deep_view() == self.spec_game_category_names(game_id@),
    {
        let mut names: Vec<String> = Vec::new();
        let n = self.links.len();
        for i in 0..n
            invariant
                self.wf(),
                n == self.links@.len(),
                names.deep_view() == names_along(*self, self.links@.take(i as int), game_id@),
        {
            let ghost prev = names.deep_view();
            if self.links[i].game_id == *game_id {
                let j: usize = match self.find_category_by_id(&self.links[i].category_id) {
                    Some(j) => j,
                    None => {
                        proof {
                            assert(self.spec_has_category_id(self.links@[i as int].category_id@));
                        }
                        assert(false);
                        0
                    },
                };
                names.push(self.categories[j].name.clone());
                proof {
                    self.lemma_category_name_of(j as int);
                    assert(self.links@.take(i + 1).drop_last() =~= self.links@.take(i as int));
                    assert(self.links@.take(i + 1).last() == self.links@[i as int]);
                    assert(names.deep_view() =~= prev.push(self.categories@[j as int].name@));
                }
            } else {
                proof {
                    assert(self.links@.take(i + 1).drop_last() =~= self.links@.take(i as int));
                    assert(self.links@.take(i + 1).last() == self.links@[i as int]);
                }
            }
        }
        proof {
            assert(self.links@.take(n as int) =~= self.links@);
        }
        names
    }

    /// Delete every link of one game; nothing else moves.
    pub fn remove_links_of_game(&mut self, game_id: &String)
        requires
            old(self).wf(),
        ensures
            final(self).wf(),
            final(self).users == old(self).users,
            final(self).games == old(self).games,
            final(self).categories == old(self).categories,
            final(self).links@ == links_without(old(self).links@, game_id@),
            forall|i: int|
                0 <= i < final(self).links@.len() ==> (#[trigger] final(self).links@[i]).game_id@
                    != game_id@,
            forall|i: int|
                0 <= i < old(self).links@.len() && (#[trigger] old(self).links@[i]).game_id@
                    != game_id@ ==> final(self).links@.contains(old(self).links@[i]),
    {
        let ghost orig = self.links@;
        let mut i = self.links.len();
        while i > 0
            invariant
                i <= orig.len(),
                self.users == old(self).users,
                self.games == old(self).games,
                self.categories == old(self).categories,
                self.links@ == orig.take(i as int) + links_without(orig.skip(i as int), game_id@),
            decreases i,
        {
            i = i - 1;
            proof {
                assert(orig.skip(i as int)[0] == orig[i as int]);
                assert(orig.skip(i as int).skip(1) =~= orig.skip(i + 1));
                assert(self.links@[i as int] == orig[i as int]);
            }
            if self.links[i].game_id == *game_id {
                self.links.remove(i);
                proof {
                    assert(self.links@ =~= orig.take(i as int) + links_without(
                        orig.skip(i as int),
                        game_id@,
                    ));
                }
            } else {
                proof {
                    assert(self.links@ =~= orig.take(i as int) + links_without(
                        orig.skip(i as int),
                        game_id@,
                    ));
                }
            }
        }
        proof {
            assert(orig.skip(0) =~= orig);
            assert(self.links@ =~= links_without(orig, game_id@));
            lemma_links_without_props(orig, game_id@);
            lemma_links_without_distinct(orig, game_id@);
            let fin = *self;
            assert forall|k: int| 0 <= k < fin.links@.len() implies fin.spec_has_game_id(
                fin.links@[k].game_id@,
            ) && fin.spec_has_category_id(fin.links@[k].category_id@) by {
                assert(orig.contains(fin.links@[k]));
                let m = choose|m: int| 0 <= m < orig.len() && orig[m] == fin.links@[k];
                assert(old(self).spec_has_game_id(orig[m].game_id@));
                assert(old(self).spec_has_category_id(orig[m].category_id@));
                let gw = choose|w: int|
                    0 <= w < old(self).games@.len() && #[trigger] old(self).games@[w].id@ == orig[
                    m].game_id@;
                assert(fin.games@[gw].id@ == orig[m].game_id@);
                let cw = choose|w: int|
                    0 <= w < old(self).categories@.len() && #[trigger] old(self).categories@[w].id@
                        == orig[m].category_id@;
                assert(fin.categories@[cw].id@ == orig[m].category_id@);
            }
        }
    }
}


/// Requested names reconciled onto the tables: every requested name has its
/// category row and a link from the game; rows only grew, and only by
/// requested names; links only grew, and only with links of this game to
/// requested names.
pub open spec fn normalized_into(
    pre: Store,
    post: Store,
    gid: Seq<char>,
    names: Seq<Seq<char>>,
) -> bool {
    &&& forall|k: int|
        #![trigger names[k]]
        0 <= k < names.len() ==> post.spec_has_category_named(names[k])
    &&& forall|k: int|
        #![trigger names[k]]
        0 <= k < names.len() ==> post.spec_has_link(gid, post.spec_category_id_named(names[k]))
    &&& pre.categories@.is_prefix_of(post.categories@)
    &&& forall|i: int|
        pre.categories@.len() <= i < post.categories@.len() ==> names.contains(
            (#[trigger] post.categories@[i]).name@,
        ) && !pre.spec_has_category_named(post.categories@[i].name@)
    &&& pre.links@.is_prefix_of(post.links@)
    &&& forall|i: int|
        pre.links@.len() <= i < post.links@.len() ==> (#[trigger] post.links@[i]).game_id@ == gid
            && names.contains(post.spec_category_name_of(post.links@[i].category_id@))
}

/// While the category table only grows, what a name names does not move.
pub proof fn lemma_named_stable(pre: Store, post: Store, name: Seq<char>)
    requires
        pre.categories_wf(),
        post.categories_wf(),
        pre.spec_has_category_named(name),
        pre.categories@.is_prefix_of(post.categories@),
    ensures
        post.spec_has_category_named(name),
        post.spec_category_id_named(name) == pre.spec_category_id_named(name),
{
    let i = choose|i: int|
        0 <= i < pre.categories@.len() && #[trigger] pre.categories@[i].name@ == name;
    assert(pre.categories@[i] == post.categories@.subrange(0, pre.categories@.len() as int)[i]);
    assert(pre.categories@[i] == post.categories@[i]);
    pre.lemma_category_id_named(i);
    post.lemma_category_id_named(i);
}

/// While the category table only grows, what an identity names does not
/// move either.
pub proof fn lemma_name_of_stable(pre: Store, post: Store, id: Seq<char>)
    requires
        pre.categories_wf(),
        post.categories_wf(),
        pre.spec_has_category_id(id),
        pre.categories@.is_prefix_of(post.categories@),
    ensures
        post.spec_has_category_id(id),
        post.spec_category_name_of(id) == pre.spec_category_name_of(id),
{
    let i = choose|i: int|
        0 <= i < pre.categories@.len() && #[trigger] pre.categories@[i].id@ == id;
    assert(pre.categories@[i] == post.categories@.subrange(0, pre.categories@.len() as int)[i]);
    assert(pre.categories@[i] == post.categories@[i]);
    pre.lemma_category_name_of(i);
    post.lemma_category_name_of(i);
}

impl Store {
    /// Reconcile a game's requested category names against the category and
    /// link tables: reuse each existing name, mint a row for each new one,
    /// and link the game to every resolved row, skipping duplicate pairs.
    pub fn normalize_categories(&mut self, game_id: &String, names: &Vec<String>) -> (r: Result<
        (),
        ProcessorError,
    >)
        requires
            old(self).wf(),
            old(self).spec_has_game_id(game_id@),
        ensures
            final(self).wf(),
            final(self).users == old(self).users,
            final(self).games == old(self).games,
            old(self).categories@.is_prefix_of(final(self).categories@),
            forall|i: int|
                old(self).categories@.len() <= i < final(self).categories@.len()
                    ==> names.deep_view().contains((#[trigger] final(self).categories@[i]).name@)
                    && !old(self).spec_has_category_named(final(self).categories@[i].name@),
            old(self).links@.is_prefix_of(final(self).links@),
            forall|i: int|
                old(self).links@.len() <= i < final(self).links@.len()
                    ==> (#[trigger] final(self).links@[i]).game_id@ == game_id@
                    && names.deep_view().contains(
                    final(self).spec_category_name_of(final(self).links@[i].category_id@),
                ),
            (r is Ok ==> normalized_into(*old(self), *final(self), game_id@, names.deep_view())),
            ((forall|m: int|
                #![trigger names.deep_view()[m]]
                0 <= m < names.deep_view().len() ==> old(self).spec_has_category_named(
                    names.deep_view()[m],
                )) ==> r is Ok),
            (r matches Err(e) ==> e == ProcessorError::DatabaseError(StorageError::Other)),
    {
        let ghost pre = *self;
        let ghost nv = names.deep_view();
        let n = names.len();
        for k in 0..n
            invariant
                pre == *old(self),
                pre.wf(),
                pre.spec_has_game_id(game_id@),
                self.wf(),
                n == names@.len(),
                nv == names.deep_view(),
                nv.len() == n,
                self.users == pre.users,
                self.games == pre.games,
                pre.categories@.is_prefix_of(self.categories@),
                forall|i: int|
                    pre.categories@.len() <= i < self.categories@.len() ==> nv.contains(
                        (#[trigger] self.categories@[i]).name@,
                    ) && !pre.spec_has_category_named(self.categories@[i].name@),
                pre.links@.is_prefix_of(self.links@),
                forall|i: int|
                    pre.links@.len() <= i < self.links@.len() ==> (#[trigger] self.links@[
                    i]).game_id@ == game_id@ && nv.contains(
                        self.spec_category_name_of(self.links@[i].category_id@),
                    ),
                forall|m: int|
                    #![trigger nv[m]]
                    0 <= m < k ==> self.spec_has_category_named(nv[m]) && self.spec_has_link(
                        game_id@,
                        self.spec_category_id_named(nv[m]),
                    ),
        {
            let ghost snap = *self;
            proof {
                assert(nv[k as int] == names@[k as int]@);
            }
            let fid = crate::ids::fresh_id();
            let ghost fid_view = fid@;
            let ci: usize = match self.ensure_category(&names[k], fid) {
                Ok(ci) => ci,
                Err(e) => {
                    proof {
                        lemma_prefix_trans(pre.categories@, snap.categories@, self.categories@);
                        lemma_prefix_trans(pre.links@, snap.links@, self.links@);
                        // the refused name was never in the table, so the
                        // all-names-present hypothesis fails at this exit
                        if pre.spec_has_category_named(nv[k as int]) {
                            lemma_named_stable(pre, snap, nv[k as int]);
                        }
                        assert(!pre.spec_has_category_named(nv[k as int]));
                    }
                    return Err(e);
                },
            };
            let ghost mid = *self;
            let cid = self.categories[ci].id.clone();
            proof {
                mid.lemma_category_name_of(ci as int);
                mid.lemma_category_id_named(ci as int);
                // the game still exists: the game table never moved
                assert(pre.spec_has_game_id(game_id@));
                let gw = choose|w: int|
                    0 <= w < pre.games@.len() && #[trigger] pre.games@[w].id@ == game_id@;
                assert(mid.games@ == pre.games@);
                assert(mid.games@[gw].id@ == game_id@);
                assert(mid.spec_has_game_id(game_id@));
            }
            self.insert_link_if_absent(game_id, &cid);
            proof {
                let cur = *self;
                // the category table: unchanged by the link insert, and grown
                // by at most one row over the iteration's start
                assert(cur.categories == mid.categories);
                if snap.spec_has_category_named(nv[k as int]) {
                    assert(mid.categories == snap.categories);
                    assert(snap.categories@.is_prefix_of(cur.categories@));
                } else {
                    assert(!snap.spec_has_category_id(fid_view));
                    assert(snap.categories@ =~= mid.categories@.subrange(
                        0,
                        snap.categories@.len() as int,
                    ));
                    assert(snap.categories@.is_prefix_of(cur.categories@));
                }
                lemma_prefix_trans(pre.categories@, snap.categories@, cur.categories@);
                // the link table: unchanged by the category step, grown by at
                // most the new pair
                assert(mid.links == snap.links);
                if mid.spec_has_link(game_id@, cid@) {
                    assert(cur.links == mid.links);
                    assert(snap.links@.is_prefix_of(cur.links@));
                } else {
                    assert(mid.links@ =~= cur.links@.subrange(0, mid.links@.len() as int));
                    assert(snap.links@.is_prefix_of(cur.links@));
                }
                lemma_prefix_trans(pre.links@, snap.links@, cur.links@);
                // new category rows carry requested names
                assert forall|i: int|
                    pre.categories@.len() <= i < cur.categories@.len() implies nv.contains(
                    (#[trigger] cur.categories@[i]).name@,
                ) && !pre.spec_has_category_named(cur.categories@[i].name@) by {
                    if i < snap.categories@.len() {
                        assert(snap.categories@[i] == cur.categories@.subrange(
                            0,
                            snap.categories@.len() as int,
                        )[i]);
                        assert(cur.categories@[i] == snap.categories@[i]);
                    } else {
                        assert(cur.categories@[i].name@ == names@[k as int]@);
                        assert(nv[k as int] == names@[k as int]@);
                    }
                }
                // new links belong to this game and reach requested names
                assert forall|i: int|
                    pre.links@.len() <= i < cur.links@.len() implies (#[trigger] cur.links@[
                i]).game_id@ == game_id@ && nv.contains(
                    cur.spec_category_name_of(cur.links@[i].category_id@),
                ) by {
                    if i < snap.links@.len() {
                        assert(snap.links@[i] == cur.links@.subrange(
                            0,
                            snap.links@.len() as int,
                        )[i]);
                        assert(cur.links@[i] == snap.links@[i]);
                        assert(snap.links_wf());
                        lemma_name_of_stable(snap, cur, snap.links@[i].category_id@);
                    } else if i < mid.links@.len() {
                        assert(cur.links@[i] == mid.links@[i]);
                        assert(mid.links_wf());
                        lemma_name_of_stable(mid, cur, mid.links@[i].category_id@);
                    } else {
                        assert(cur.links@[i].category_id@ == cid@);
                        lemma_name_of_stable(mid, cur, cid@);
                        assert(cur.spec_category_name_of(cid@) == names@[k as int]@);
                    }
                }
                // every name done so far stays resolved and linked
                assert forall|m: int|
                    #![trigger nv[m]]
                    0 <= m < k + 1 implies self.spec_has_category_named(nv[m])
                    && self.spec_has_link(game_id@, self.spec_category_id_named(nv[m])) by {
                    if m < k {
                        lemma_named_stable(snap, cur, nv[m]);
                        assert(snap.spec_has_link(game_id@, snap.spec_category_id_named(nv[m])));
                        let lw = choose|w: int|
                            0 <= w < snap.links@.len() && #[trigger] snap.links@[w].game_id@
                                == game_id@ && snap.links@[w].category_id@
                                == snap.spec_category_id_named(nv[m]);
                        assert(snap.links@[lw] == cur.links@.subrange(
                            0,
                            snap.links@.len() as int,
                        )[lw]);
                        assert(cur.links@[lw] == snap.links@[lw]);
                        assert(cur.spec_has_link(game_id@, cur.spec_category_id_named(nv[m])));
                    } else {
                        lemma_named_stable(mid, cur, nv[m]);
                        assert(mid.spec_category_id_named(nv[m]) == cid@);
                        assert(cur.spec_has_link(game_id@, cid@));
                        assert(cur.spec_has_link(game_id@, cur.spec_category_id_named(nv[m])));
                    }
                }
            }
        }
        Ok(())
    }
}

/// Prefixes compose.
pub proof fn lemma_prefix_trans<A>(a: Seq<A>, b: Seq<A>, c: Seq<A>)
    requires
        a.is_prefix_of(b),
        b.is_prefix_of(c),
    ensures
        a.is_prefix_of(c),
{
    assert(a =~= c.subrange(0, a.len() as int));
}


impl Store {
    /// Remove one game row; every link of that game must already be gone.
    pub fn delete_game_row(&mut self, j: usize)
        requires
            old(self).wf(),
            j < old(self).games@.len(),
            forall|i: int|
                0 <= i < old(self).links@.len() ==> (#[trigger] old(self).links@[i]).game_id@
                    != old(self).games@[j as int].id@,
        ensures
            final(self).wf(),
            final(self).users == old(self).users,
            final(self).categories == old(self).categories,
            final(self).links == old(self).links,
            final(self).games@ == old(self).games@.remove(j as int),
    {
        self.games.remove(j);
        proof {
            let pre = *old(self);
            let cur = *self;
            pre.games@.remove_ensures(j as int);
            assert forall|a: int, b: int|
                #![trigger cur.games@[a], cur.games@[b]]
                0 <= a < b < cur.games@.len() implies cur.games@[a].id@ != cur.games@[b].id@ by {
                if b < j {
                    assert(cur.games@[a] == pre.games@[a]);
                    assert(cur.games@[b] == pre.games@[b]);
                } else if a < j {
                    assert(cur.games@[a] == pre.games@[a]);
                    assert(cur.games@[b] == pre.games@[b + 1]);
                } else {
                    assert(cur.games@[a] == pre.games@[a + 1]);
                    assert(cur.games@[b] == pre.games@[b + 1]);
                }
            }
            assert forall|k: int| 0 <= k < cur.links@.len() implies cur.spec_has_game_id(
                cur.links@[k].game_id@,
            ) && cur.spec_has_category_id(cur.links@[k].category_id@) by {
                assert(pre.spec_has_game_id(pre.links@[k].game_id@));
                assert(pre.spec_has_category_id(pre.links@[k].category_id@));
                let w = choose|w: int|
                    0 <= w < pre.games@.len() && #[trigger] pre.games@[w].id@ == pre.links@[
                    k].game_id@;
                assert(pre.links@[k].game_id@ != pre.games@[j as int].id@);
                if w < j {
                    assert(cur.games@[w].id@ == pre.games@[w].id@);
                } else {
                    assert(cur.games@[w - 1].id@ == pre.games@[w].id@);
                }
                let cw = choose|w: int|
                    0 <= w < pre.categories@.len() && #[trigger] pre.categories@[w].id@
                        == pre.links@[k].category_id@;
                assert(cur.categories@[cw].id@ == pre.links@[k].category_id@);
            }
        }
    }

    /// Remove one user row. Games are not cascaded: a deleted user's games
    /// stay in place.
    pub fn delete_user_row(&mut self, j: usize)
        requires
            old(self).wf(),
            j < old(self).users@.len(),
        ensures
            final(self).wf(),
            final(self).games == old(self).games,
            final(self).categories == old(self).categories,
            final(self).links == old(self).links,
            final(self).users@ == old(self).users@.remove(j as int),
    {
        self.users.remove(j);
        proof {
            let pre = *old(self);
            let cur = *self;
            pre.users@.remove_ensures(j as int);
            assert forall|a: int, b: int|
                #![trigger cur.users@[a], cur.users@[b]]
                0 <= a < b < cur.users@.len() implies cur.users@[a].id@ != cur.users@[b].id@
                && cur.users@[a].username@ != cur.users@[b].username@ by {
                if b < j {
                    assert(cur.users@[a] == pre.users@[a]);
                    assert(cur.users@[b] == pre.users@[b]);
                } else if a < j {
                    assert(cur.users@[a] == pre.users@[a]);
                    assert(cur.users@[b] == pre.users@[b + 1]);
                } else {
                    assert(cur.users@[a] == pre.users@[a + 1]);
                    assert(cur.users@[b] == pre.users@[b + 1]);
                }
            }
            lemma_links_wf_preserved(pre, cur);
        }
    }
}


/// Two games linked to categories of one name are linked to the very same
/// row. The category table holds no duplicate names, so two writers that
/// both requested a fresh name — however their steps interleaved — end up
/// linked to one shared category identity, never to two rows of that name.
pub proof fn lemma_shared_category(
    s: Store,
    g1: Seq<char>,
    g2: Seq<char>,
    c1: Seq<char>,
    c2: Seq<char>,
    name: Seq<char>,
)
    requires
        s.wf(),
        s.spec_has_link(g1, c1),
        s.spec_has_link(g2, c2),
        s.spec_has_category_id(c1),
        s.spec_has_category_id(c2),
        s.spec_category_name_of(c1) == name,
        s.spec_category_name_of(c2) == name,
    ensures
        c1 == c2,
{
    let w1 = choose|i: int| 0 <= i < s.categories@.len() && #[trigger] s.categories@[i].id@ == c1;
    let w2 = choose|i: int| 0 <= i < s.categories@.len() && #[trigger] s.categories@[i].id@ == c2;
    assert(s.categories@[w1].name@ == name);
    assert(s.categories@[w2].name@ == name);
    if w1 < w2 {
        assert(s.categories@[w1].name@ != s.categories@[w2].name@);
    } else if w2 < w1 {
        assert(s.categories@[w2].name@ != s.categories@[w1].name@);
    }
}


/// A game carries at most one link per category name: two links of one game
/// to categories of one name are the very same link, so a request that
/// names a category twice cannot leave two links behind.
pub proof fn lemma_one_link_per_name(s: Store, g: Seq<char>, name: Seq<char>, i: int, j: int)
    requires
        s.wf(),
        0 <= i < s.links@.len(),
        0 <= j < s.links@.len(),
        s.links@[i].game_id@ == g,
        s.links@[j].game_id@ == g,
        s.spec_category_name_of(s.links@[i].category_id@) == name,
        s.spec_category_name_of(s.links@[j].category_id@) == name,
    ensures
        i == j,
{
    let c1 = s.links@[i].category_id@;
    let c2 = s.links@[j].category_id@;
    assert(s.spec_has_link(g, c1));
    assert(s.spec_has_link(g, c2));
    assert(s.spec_has_category_id(c1) && s.spec_has_category_id(c2));
    lemma_shared_category(s, g, g, c1, c2, name);
    if i < j {
        assert(!(s.links@[i].game_id@ == s.links@[j].game_id@ && s.links@[i].category_id@
            == s.links@[j].category_id@));
    } else if j < i {
        assert(!(s.links@[j].game_id@ == s.links@[i].game_id@ && s.links@[j].category_id@
            == s.links@[i].category_id@));
    }
}

} // verus!
