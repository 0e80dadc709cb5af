use vault_of_games::entities::{Game, GameCreatePayload, GameUpdatePayload, Status};
use vault_of_games::errors::{ProcessorError, StorageError};
use vault_of_games::games::GamesProcessor;
use vault_of_games::store::Store;
use vault_of_games::token::SessionClaims;

fn claims_for(subject: &str) -> SessionClaims {
    SessionClaims {
        subject: String::from(subject),
        issued_at: 0,
        expires_at: 60,
    }
}

fn create_payload(title: &str, categories: Option<Vec<&str>>) -> GameCreatePayload {
    GameCreatePayload {
        title: String::from(title),
        image_url: None,
        status: Some(Status::Untried),
        rating: Some(7),
        categories: categories.map(|v| v.into_iter().map(String::from).collect()),
        note: None,
    }
}

fn update_payload(title: &str, categories: Option<Vec<&str>>) -> GameUpdatePayload {
    GameUpdatePayload {
        title: String::from(title),
        image_url: Some(String::from("http://img")),
        status: Some(Status::Completed),
        rating: Some(9),
        categories: categories.map(|v| v.into_iter().map(String::from).collect()),
        note: Some(String::from("done")),
    }
}

#[test]
fn create_duplicate_category_names_make_one_link() {
    let mut store = Store::new();
    let claims = claims_for("owner-1");
    let (status, game) = GamesProcessor::create(
        &mut store,
        &claims,
        create_payload("Elden Ring", Some(vec!["rpg", "rpg"])),
    )
    .unwrap();
    assert_eq!(status, 201);
    // exactly one category row named rpg, and exactly one link to it
    let rpg_rows: Vec<_> = store
        .categories
        .iter()
        .filter(|c| c.name == "rpg")
        .collect();
    assert_eq!(rpg_rows.len(), 1);
    let links: Vec<_> = store
        .links
        .iter()
        .filter(|l| l.game_id == game.id)
        .collect();
    assert_eq!(links.len(), 1);
    assert_eq!(links[0].category_id, rpg_rows[0].id);
    // the read path shows the single name
    let shown = GamesProcessor::read(&store, &claims, &game.id).unwrap();
    assert_eq!(shown.categories.unwrap().content, vec![String::from("rpg")]);
}

#[test]
fn overlapping_new_category_shares_one_row() {
    let mut store = Store::new();
    let a = claims_for("owner-1");
    let b = claims_for("owner-2");
    let (_, g1) = GamesProcessor::create(
        &mut store,
        &a,
        create_payload("Chess", Some(vec!["strategy"])),
    )
    .unwrap();
    let (_, g2) = GamesProcessor::create(
        &mut store,
        &b,
        create_payload("Go", Some(vec!["strategy"])),
    )
    .unwrap();
    let rows: Vec<_> = store
        .categories
        .iter()
        .filter(|c| c.name == "strategy")
        .collect();
    assert_eq!(rows.len(), 1);
    let cid = &rows[0].id;
    assert!(store
        .links
        .iter()
        .any(|l| l.game_id == g1.id && &l.category_id == cid));
    assert!(store
        .links
        .iter()
        .any(|l| l.game_id == g2.id && &l.category_id == cid));
}

#[test]
fn update_with_empty_categories_clears_links() {
    let mut store = Store::new();
    let claims = claims_for("owner-1");
    let (_, game) = GamesProcessor::create(
        &mut store,
        &claims,
        create_payload("Hades", Some(vec!["roguelike", "action"])),
    )
    .unwrap();
    let status = GamesProcessor::update(
        &mut store,
        &claims,
        &game.id,
        update_payload("Hades", Some(vec![])),
    )
    .unwrap();
    assert_eq!(status, 200);
    assert!(store.links.iter().all(|l| l.game_id != game.id));
    let shown = GamesProcessor::read(&store, &claims, &game.id).unwrap();
    assert_eq!(shown.categories.unwrap().content, Vec::<String>::new());
}

#[test]
fn update_without_categories_keeps_links() {
    let mut store = Store::new();
    let claims = claims_for("owner-1");
    let (_, game) = GamesProcessor::create(
        &mut store,
        &claims,
        create_payload("Hades", Some(vec!["roguelike"])),
    )
    .unwrap();
    let links_before = store.links.len();
    GamesProcessor::update(&mut store, &claims, &game.id, update_payload("Hades II", None))
        .unwrap();
    assert_eq!(store.links.len(), links_before);
    let shown = GamesProcessor::read(&store, &claims, &game.id).unwrap();
    assert_eq!(shown.title, "Hades II");
    assert_eq!(
        shown.categories.unwrap().content,
        vec![String::from("roguelike")]
    );
}

#[test]
fn update_replaces_columns() {
    let mut store = Store::new();
    let claims = claims_for("owner-1");
    let (_, game) =
        GamesProcessor::create(&mut store, &claims, create_payload("Celeste", None)).unwrap();
    GamesProcessor::update(
        &mut store,
        &claims,
        &game.id,
        update_payload("Celeste", Some(vec!["platformer"])),
    )
    .unwrap();
    let shown = GamesProcessor::read(&store, &claims, &game.id).unwrap();
    assert_eq!(shown.image_url, Some(String::from("http://img")));
    assert_eq!(shown.status, Some(Status::Completed));
    assert_eq!(shown.rating, Some(9));
    assert_eq!(shown.note, Some(String::from("done")));
    assert!(shown.updated_at.is_some());
    assert_eq!(
        shown.categories.unwrap().content,
        vec![String::from("platformer")]
    );
}

#[test]
fn foreign_game_answers_like_a_missing_one() {
    let mut store = Store::new();
    let owner = claims_for("owner-1");
    let intruder = claims_for("owner-2");
    let (_, game) =
        GamesProcessor::create(&mut store, &owner, create_payload("Secret", None)).unwrap();

    let missing = String::from("no-such-id");
    let e_missing = GamesProcessor::read(&store, &owner, &missing).unwrap_err();
    let e_foreign = GamesProcessor::read(&store, &intruder, &game.id).unwrap_err();
    assert_eq!(e_missing, e_foreign);
    assert_eq!(e_foreign.response_parts().0, 404);

    let e_update = GamesProcessor::update(
        &mut store,
        &intruder,
        &game.id,
        update_payload("Mine now", None),
    )
    .unwrap_err();
    assert_eq!(e_update, ProcessorError::DatabaseError(StorageError::NotFound));
    let e_delete = GamesProcessor::delete(&mut store, &intruder, &game.id).unwrap_err();
    assert_eq!(e_delete, ProcessorError::DatabaseError(StorageError::NotFound));
    // the owner still sees the game untouched
    let shown = GamesProcessor::read(&store, &owner, &game.id).unwrap();
    assert_eq!(shown.title, "Secret");
}

#[test]
fn create_echoes_requested_names_and_mints_ids() {
    let mut store = Store::new();
    let claims = claims_for("owner-1");
    let (_, game) = GamesProcessor::create(
        &mut store,
        &claims,
        create_payload("Portal", Some(vec!["puzzle", "puzzle"])),
    )
    .unwrap();
    assert_eq!(game.id.len(), 36);
    assert_eq!(game.user_id, "owner-1");
    assert_eq!(
        game.categories.unwrap().content,
        vec![String::from("puzzle"), String::from("puzzle")]
    );
    let (_, bare) =
        GamesProcessor::create(&mut store, &claims, create_payload("Tetris", None)).unwrap();
    assert_eq!(bare.categories.unwrap().content, Vec::<String>::new());
}

#[test]
fn read_all_lists_own_games_newest_first() {
    let mut store = Store::new();
    let claims = claims_for("owner-1");
    let other = claims_for("owner-2");
    GamesProcessor::create(&mut store, &claims, create_payload("First", None)).unwrap();
    GamesProcessor::create(&mut store, &other, create_payload("Elsewhere", None)).unwrap();
    GamesProcessor::create(&mut store, &claims, create_payload("Second", None)).unwrap();
    let all = GamesProcessor::read_all(&store, &claims);
    assert_eq!(all.len(), 2);
    assert_eq!(all[0].title, "Second");
    assert_eq!(all[1].title, "First");
    assert!(all.iter().all(|g| g.user_id == "owner-1"));
}

#[test]
fn delete_removes_game_and_its_links() {
    let mut store = Store::new();
    let claims = claims_for("owner-1");
    let (_, keep) = GamesProcessor::create(
        &mut store,
        &claims,
        create_payload("Keep", Some(vec!["shared"])),
    )
    .unwrap();
    let (_, gone) = GamesProcessor::create(
        &mut store,
        &claims,
        create_payload("Gone", Some(vec!["shared", "solo"])),
    )
    .unwrap();
    let status = GamesProcessor::delete(&mut store, &claims, &gone.id).unwrap();
    assert_eq!(status, 204);
    assert!(store.links.iter().all(|l| l.game_id != gone.id));
    assert!(GamesProcessor::read(&store, &claims, &gone.id).is_err());
    // the shared category row and the other game's link survive
    assert!(store.categories.iter().any(|c| c.name == "shared"));
    let shown = GamesProcessor::read(&store, &claims, &keep.id).unwrap();
    assert_eq!(shown.categories.unwrap().content, vec![String::from("shared")]);
}

#[test]
fn game_merge_update_replaces_only_supplied_fields() {
    let mut game = Game::new(
        String::from("id-1"),
        String::from("owner-1"),
        String::from("Old title"),
        Some(String::from("http://old")),
        Some(Status::Untried),
        Some(3),
        None,
        Some(String::from("old note")),
        String::from("2024-01-01"),
        None,
    );
    game.update(GameUpdatePayload {
        title: String::from("New title"),
        image_url: None,
        status: Some(Status::Ended),
        rating: None,
        categories: Some(vec![String::from("indie")]),
        note: None,
    });
    assert_eq!(game.title, "New title");
    assert_eq!(game.image_url, Some(String::from("http://old")));
    assert_eq!(game.status, Some(Status::Ended));
    assert_eq!(game.rating, Some(3));
    assert_eq!(game.note, Some(String::from("old note")));
    assert_eq!(game.categories.unwrap().content, vec![String::from("indie")]);
}
