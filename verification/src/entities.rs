//! The records and payloads of the tracker.
//!
//! `User`, `GameRecord`, `Category` and `GameCategoryLink` mirror the four
//! persisted tables; `Game` is the visible shape of a game, its category
//! names reconstructed through the link table. The payload types carry what
//! the endpoints accept.

use vstd::prelude::*;

verus! {

/// The lifecycle of a game in the owner's library.
#[derive(Clone, Copy, Debug, PartialEq, Eq, Structural)]
pub enum Status {
    Untried,
    Progressing,
    Ended,
    Completed,
}

/// A game's visible category names.
#[derive(Clone, Debug)]
pub struct Categories {
    pub content: Vec<String>,
}

impl Categories {
    pub fn new(content: Vec<String>) -> (r: Self)
        ensures
            r.content@ == content@,
    {
        Self { content }
    }

    /// An absent category list stands for the empty one.
    pub fn from_option(categories: Option<Vec<String>>) -> (r: Self)
        ensures
            (categories matches Some(v) ==> r.content@ == v@),
            (categories is None ==> r.content@.len() == 0),
    {
        match categories {
            Some(v) => Self::new(v),
            None => Self::new(Vec::new()),
        }
    }
}

/// A user account row.
#[derive(Clone, Debug)]
pub struct User {
    pub id: String,
    pub username: String,
    pub password: String,
    pub created_at: String,
    pub updated_at: Option<String>,
}

impl User {
    pub fn new(
        id: String,
        username: String,
        password: String,
        created_at: String,
        updated_at: Option<String>,
    ) -> (r: Self)
        ensures
            r.id@ == id@,
            r.username@ == username@,
            r.password@ == password@,
            r.created_at@ == created_at@,
            r.updated_at == updated_at,
    {
        Self { id, username, password, created_at, updated_at }
    }
}

/// A game row as the store keeps it; category names live in the link table.
#[derive(Clone, Debug)]
pub struct GameRecord {
    pub id: String,
    pub user_id: String,
    pub title: String,
    pub image_url: Option<String>,
    pub status: Option<Status>,
    pub rating: Option<u8>,
    pub note: Option<String>,
    pub created_at: String,
    pub updated_at: Option<String>,
}

/// A game as the endpoints expose it, category names included.
#[derive(Clone, Debug)]
pub struct Game {
    pub id: String,
    pub user_id: String,
    pub title: String,
    pub image_url: Option<String>,
    pub status: Option<Status>,
    pub rating: Option<u8>,
    pub categories: Option<Categories>,
    pub note: Option<String>,
    pub created_at: String,
    pub updated_at: Option<String>,
}

impl Game {
    pub fn new(
        id: String,
        user_id: String,
        title: String,
        image_url: Option<String>,
        status: Option<Status>,
        rating: Option<u8>,
        categories: Option<Categories>,
        note: Option<String>,
        created_at: String,
        updated_at: Option<String>,
    ) -> (r: Self)
        ensures
            r.id@ == id@,
            r.user_id@ == user_id@,
            r.title@ == title@,
            r.image_url == image_url,
            r.status == status,
            r.rating == rating,
            r.categories == categories,
            r.note == note,
            r.created_at@ == created_at@,
            r.updated_at == updated_at,
    {
        Self {
            id,
            user_id,
            title,
            image_url,
            status,
            rating,
            categories,
            note,
            created_at,
            updated_at,
        }
    }
}

/// A row of the global tag vocabulary, shared across all games and users.
#[derive(Clone, Debug)]
pub struct Category {
    pub id: String,
    pub name: String,
}

/// A pure many-to-many association between a game and a category.
#[derive(Clone, Debug)]
pub struct GameCategoryLink {
    pub game_id: String,
    pub category_id: String,
}

/// What game creation accepts.
pub struct GameCreatePayload {
    pub title: String,
    pub image_url: Option<String>,
    pub status: Option<Status>,
    pub rating: Option<u8>,
    pub categories: Option<Vec<String>>,
    pub note: Option<String>,
}

/// What a game update accepts; the presence of `categories` decides between
/// replacing the category set and leaving it unchanged.
pub struct GameUpdatePayload {
    pub title: String,
    pub image_url: Option<String>,
    pub status: Option<Status>,
    pub rating: Option<u8>,
    pub categories: Option<Vec<String>>,
    pub note: Option<String>,
}

/// Credentials as sign-in and sign-up accept them.
pub struct UserAuthenticationPayload {
    pub username: String,
    pub password: String,
}

/// What a user update accepts.
pub struct UserUpdatePayload {
    pub username: String,
    pub password: String,
}


/// Merge an update into a game in place: the title is always replaced, and
/// each optional field only when the payload supplies it.
impl Game {
    pub fn update(&mut self, payload: GameUpdatePayload)
        ensures
            final(self).id == old(self).id,
            final(self).user_id == old(self).user_id,
            final(self).title@ == payload.title@,
            (payload.image_url matches Some(u) ==> opt_str(final(self).image_url) == Some(u@)),
            (payload.image_url is None ==> final(self).image_url == old(self).image_url),
            (payload.status matches Some(st) ==> final(self).status == Some(st)),
            (payload.status is None ==> final(self).status == old(self).status),
            (payload.rating matches Some(x) ==> final(self).rating == Some(x)),
            (payload.rating is None ==> final(self).rating == old(self).rating),
            (payload.categories matches Some(v) ==> (final(self).categories matches Some(c)
                && c.content@ == v@)),
            (payload.categories is None ==> final(self).categories == old(self).categories),
            (payload.note matches Some(x) ==> opt_str(final(self).note) == Some(x@)),
            (payload.note is None ==> final(self).note == old(self).note),
            final(self).created_at == old(self).created_at,
            final(self).updated_at == old(self).updated_at,
    {
        self.title = payload.title;

        if let Some(image_url) = payload.image_url {
            self.image_url = Some(image_url);
        }
        if let Some(status) = payload.status {
            self.status = Some(status);
        }
        if let Some(rating) = payload.rating {
            self.rating = Some(rating);
        }
        if let Some(categories) = payload.categories {
            self.categories = Some(Categories::new(categories));
        }
        if let Some(note) = payload.note {
            self.note = Some(note);
        }
    }
}

/// The view of an optional string.
pub open spec fn opt_str(o: Option<String>) -> Option<Seq<char>> {
    match o {
        Some(s) => Some(s@),
        None => None,
    }
}

/// Clone an optional string, keeping its view.
pub fn clone_opt_string(o: &Option<String>) -> (r: Option<String>)
    ensures
        opt_str(r) == opt_str(*o),
{
    match o {
        Some(s) => Some(s.clone()),
        None => None,
    }
}

} // verus!
