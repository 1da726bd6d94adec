use movie_rental::domain::card::Card;
use movie_rental::domain::date::Date;
use movie_rental::domain::movie::Movie;
use movie_rental::repo::repo_file::RepoFile;
use movie_rental::service::card_service::CardService;
use movie_rental::service::movie_service::MovieService;

fn card(id: u32, cnp: &str) -> Card {
    Card::new(
        id,
        "Adrian",
        "Placinta",
        cnp,
        Date::new(26, 4, 2000).unwrap(),
        Date::new(30, 5, 2003).unwrap(),
        0,
    )
    .unwrap()
}

fn movie(id: u32, title: &str) -> Movie {
    Movie::new(id, title, 1999, 25, true).unwrap()
}

#[test]
fn card_add_rejects_duplicate_cnp() {
    let mut service = CardService::new(RepoFile::new("cards.csv"));
    service.add(card(1, "1234567890123")).unwrap();
    let err = service.add(card(2, "1234567890123")).unwrap_err();
    assert_eq!(err, "A card with this CNP already exists.");
    assert_eq!(service.get_all().len(), 1);
}

#[test]
fn card_add_accepts_distinct_cnp_and_id() {
    let mut service = CardService::new(RepoFile::new("cards.csv"));
    service.add(card(1, "1234567890123")).unwrap();
    service.add(card(2, "9999999999999")).unwrap();
    assert_eq!(service.get_all().len(), 2);
    assert_eq!(service.get(0).unwrap().id(), 1);
    assert_eq!(service.get(1).unwrap().id(), 2);
}

#[test]
fn card_add_rejects_duplicate_id() {
    let mut service = CardService::new(RepoFile::new("cards.csv"));
    service.add(card(1, "1234567890123")).unwrap();
    let err = service.add(card(1, "9999999999999")).unwrap_err();
    assert_eq!(err, "A card with this ID already exists");
}

#[test]
fn card_update_needs_another_record() {
    let mut service = CardService::new(RepoFile::new("cards.csv"));
    service.add(card(1, "1234567890123")).unwrap();
    // With a single card at index zero nothing can be updated: the kept quirk.
    let err = service.update(0, card(1, "1234567890123")).unwrap_err();
    assert_eq!(err, "There is no card with that ID.");
    service.add(card(2, "9999999999999")).unwrap();
    service.update(0, card(7, "7777777777777")).unwrap();
    assert_eq!(service.get(0).unwrap().id(), 7);
}

#[test]
fn card_update_rejects_collisions_with_others() {
    let mut service = CardService::new(RepoFile::new("cards.csv"));
    service.add(card(1, "1234567890123")).unwrap();
    service.add(card(2, "9999999999999")).unwrap();
    let err = service.update(0, card(7, "9999999999999")).unwrap_err();
    assert_eq!(err, "A different card with that CNP already exists.");
    let err = service.update(0, card(2, "7777777777777")).unwrap_err();
    assert_eq!(err, "A different card with that ID already exists");
    // The card at the updated index itself does not count as a collision.
    service.update(0, card(1, "1234567890123")).unwrap();
}

#[test]
fn card_update_out_of_range() {
    let mut service = CardService::new(RepoFile::new("cards.csv"));
    service.add(card(1, "1234567890123")).unwrap();
    service.add(card(2, "9999999999999")).unwrap();
    let err = service.update(5, card(7, "7777777777777")).unwrap_err();
    assert_eq!(err, "Index out of bounds");
}

#[test]
fn card_remove_delegates_to_store() {
    let mut service = CardService::new(RepoFile::new("cards.csv"));
    service.add(card(1, "1234567890123")).unwrap();
    service.add(card(2, "9999999999999")).unwrap();
    assert_eq!(service.remove(0).unwrap_err(), "Index out of bounds");
    service.remove(1).unwrap();
    assert_eq!(service.get_all().len(), 1);
    assert_eq!(service.get(0).unwrap().id(), 1);
}

#[test]
fn card_service_hands_store_back() {
    let mut service = CardService::new(RepoFile::new("cards.csv"));
    service.add(card(1, "1234567890123")).unwrap();
    let repo = service.into_repo();
    assert_eq!(repo.filename(), "cards.csv");
    assert_eq!(repo.get_all().len(), 1);
}

#[test]
fn movie_add_rejects_duplicate_title() {
    let mut service = MovieService::new(RepoFile::new("movies.csv"));
    service.add(movie(1, "The General")).unwrap();
    let err = service.add(movie(2, "The General")).unwrap_err();
    assert_eq!(err, "A movie with this title already exists");
}

#[test]
fn movie_add_rejects_duplicate_id() {
    let mut service = MovieService::new(RepoFile::new("movies.csv"));
    service.add(movie(1, "The General")).unwrap();
    let err = service.add(movie(1, "Sherlock Jr.")).unwrap_err();
    assert_eq!(err, "A movie with this ID already exists.");
    service.add(movie(2, "Sherlock Jr.")).unwrap();
    assert_eq!(service.get_all().len(), 2);
}

#[test]
fn movie_update_mirrors_card_rules() {
    let mut service = MovieService::new(RepoFile::new("movies.csv"));
    service.add(movie(1, "The General")).unwrap();
    let err = service.update(0, movie(1, "The General")).unwrap_err();
    assert_eq!(err, "There is no movie with that ID");
    service.add(movie(2, "Sherlock Jr.")).unwrap();
    let err = service.update(0, movie(7, "Sherlock Jr.")).unwrap_err();
    assert_eq!(err, "A different movie with that title already exists");
    let err = service.update(0, movie(2, "Seven Chances")).unwrap_err();
    assert_eq!(err, "A different movie with that ID already exists");
    service.update(0, movie(7, "Seven Chances")).unwrap();
    assert_eq!(service.get(0).unwrap().title(), "Seven Chances");
}

#[test]
fn movie_remove_delegates_to_store() {
    let mut service = MovieService::new(RepoFile::new("movies.csv"));
    service.add(movie(1, "The General")).unwrap();
    assert_eq!(service.remove(0).unwrap_err(), "Index out of bounds");
    let repo = service.into_repo();
    assert_eq!(repo.get_all().len(), 1);
}
