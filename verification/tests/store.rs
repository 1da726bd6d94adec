use movie_rental::domain::card::Card;
use movie_rental::domain::date::Date;
use movie_rental::repo::repo_file::RepoFile;
use movie_rental::repo::traits::Serializable;

fn card(id: u32, cnp: &str) -> Card {
    Card::new(
        id,
        "Adrian",
        "Placinta",
        cnp,
        Date::new(26, 4, 2000).unwrap(),
        Date::new(30, 5, 2003).unwrap(),
        0,
    )
    .unwrap()
}

#[test]
fn store_starts_empty_and_appends_in_order() {
    let mut repo: RepoFile<Card> = RepoFile::new("cards.csv");
    assert_eq!(repo.filename(), "cards.csv");
    assert!(repo.get_all().is_empty());
    repo.add_elem(card(1, "1111111111111")).unwrap();
    repo.add_elem(card(2, "2222222222222")).unwrap();
    assert_eq!(repo.get_all().len(), 2);
    assert_eq!(repo.get_elem(0).unwrap().id(), 1);
    assert_eq!(repo.get_elem(1).unwrap().id(), 2);
    assert_eq!(
        repo.get_elem(2).unwrap_err(),
        "Index out of bounds"
    );
}

#[test]
fn remove_rejects_index_zero_on_non_empty_store() {
    let mut repo: RepoFile<Card> = RepoFile::new("cards.csv");
    repo.add_elem(card(1, "1111111111111")).unwrap();
    repo.add_elem(card(2, "2222222222222")).unwrap();
    // Index zero is always rejected, even though an element stands there:
    // the kept off-by-one.
    assert_eq!(repo.remove_elem(0).unwrap_err(), "Index out of bounds");
    assert_eq!(repo.get_all().len(), 2);
    // Removing index one succeeds and leaves the other element at zero.
    repo.remove_elem(1).unwrap();
    assert_eq!(repo.get_all().len(), 1);
    assert_eq!(repo.get_elem(0).unwrap().id(), 1);
    assert_eq!(repo.remove_elem(1).unwrap_err(), "Index out of bounds");
}

#[test]
fn update_replaces_in_range_only() {
    let mut repo: RepoFile<Card> = RepoFile::new("cards.csv");
    repo.add_elem(card(1, "1111111111111")).unwrap();
    repo.update_elem(0, card(5, "5555555555555")).unwrap();
    assert_eq!(repo.get_elem(0).unwrap().id(), 5);
    assert_eq!(
        repo.update_elem(1, card(6, "6666666666666")).unwrap_err(),
        "Index out of bounds"
    );
}

#[test]
fn save_then_load_restores_records_in_order() {
    let mut repo: RepoFile<Card> = RepoFile::new("cards.csv");
    let c = card(1, "1234567890123");
    repo.add_elem(c.clone()).unwrap();
    let lines = repo.to_lines();
    let mut repo2: RepoFile<Card> = RepoFile::new("cards.csv");
    repo2.load_from_lines(&lines).unwrap();
    assert_eq!(repo2.get_all().as_slice(), &[c]);
}

#[test]
fn save_then_load_keeps_order_of_many() {
    let mut repo: RepoFile<Card> = RepoFile::new("cards.csv");
    let a = card(1, "1111111111111");
    let b = card(2, "2222222222222");
    let c = card(3, "3333333333333");
    repo.add_elem(a.clone()).unwrap();
    repo.add_elem(b.clone()).unwrap();
    repo.add_elem(c.clone()).unwrap();
    let lines = repo.to_lines();
    let mut repo2: RepoFile<Card> = RepoFile::new("other.csv");
    repo2.load_from_lines(&lines).unwrap();
    assert_eq!(repo2.get_all().as_slice(), &[a, b, c]);
}

#[test]
fn load_appends_to_existing_records() {
    let mut repo: RepoFile<Card> = RepoFile::new("cards.csv");
    let a = card(1, "1111111111111");
    let b = card(2, "2222222222222");
    repo.add_elem(a.clone()).unwrap();
    let mut donor: RepoFile<Card> = RepoFile::new("cards.csv");
    donor.add_elem(b.clone()).unwrap();
    repo.load_from_lines(&donor.to_lines()).unwrap();
    assert_eq!(repo.get_all().as_slice(), &[a, b]);
}

#[test]
fn load_aborts_whole_read_on_invalid_line() {
    let mut repo: RepoFile<Card> = RepoFile::new("cards.csv");
    repo.add_elem(card(1, "1111111111111")).unwrap();
    let lines = vec![
        card(2, "2222222222222").to_csv(),
        "\"3\",\"M\",\"Pop\",\"1234567890123\"".to_string(),
    ];
    let err = repo.load_from_lines(&lines).unwrap_err();
    assert!(err.contains("The first name needs to be between 1 and 17 characters."));
    // The store is untouched by the failed load.
    assert_eq!(repo.get_all().len(), 1);
    assert_eq!(repo.get_elem(0).unwrap().id(), 1);
}
