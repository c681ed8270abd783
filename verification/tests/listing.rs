use ficant_application::cursor::CatalogCursorKey;
use ficant_application::error::ApplicationErrorCategory;
use ficant_application::listing::{PortfolioCatalogEntry, catalog_page, sort_entries};

fn key(book: &str, group: &str, code: &str, version: u64) -> CatalogCursorKey {
    CatalogCursorKey { book_code: book.to_owned(), group_path: group.to_owned(), portfolio_code: code.to_owned(), version }
}

fn entry(record: u32, book: &str, group: &str, code: &str, version: u64) -> PortfolioCatalogEntry<u32> {
    PortfolioCatalogEntry { record, key: key(book, group, code, version) }
}

fn entries() -> Vec<PortfolioCatalogEntry<u32>> {
    vec![
        entry(4, "B", "G", "P", 1),
        entry(2, "A", "G/H", "P", 1),
        entry(5, "B", "G", "P", 2),
        entry(1, "A", "G", "Z", 7),
        entry(3, "A", "G/H", "Q", 1),
    ]
}

fn records(entries: &[PortfolioCatalogEntry<u32>]) -> Vec<u32> {
    entries.iter().map(|entry| entry.record).collect()
}

#[test]
fn entries_sort_by_book_group_code_then_version() {
    assert_eq!(records(&sort_entries(entries())), vec![1, 2, 3, 4, 5]);
}

#[test]
fn pages_resume_after_their_last_key() {
    let first = catalog_page(entries(), None, 2).unwrap();
    assert_eq!(records(&first.entries), vec![1, 2]);
    let next = first.next_key.unwrap();
    assert_eq!(next.portfolio_code, "P");
    assert_eq!(next.group_path, "G/H");
    let second = catalog_page(entries(), Some(next), 2).unwrap();
    assert_eq!(records(&second.entries), vec![3, 4]);
    let third = catalog_page(entries(), second.next_key, 2).unwrap();
    assert_eq!(records(&third.entries), vec![5]);
    assert!(third.next_key.is_none());
    let whole = catalog_page(entries(), None, 5).unwrap();
    assert_eq!(records(&whole.entries), vec![1, 2, 3, 4, 5]);
    assert!(whole.next_key.is_none());
    let beyond = catalog_page(entries(), Some(key("C", "", "", 0)), 3).unwrap();
    assert!(beyond.entries.is_empty());
    assert!(beyond.next_key.is_none());
}

#[test]
fn duplicate_sort_keys_conflict() {
    let mut duplicated = entries();
    duplicated.push(entry(9, "A", "G", "Z", 7));
    let error = catalog_page(duplicated, None, 10).unwrap_err();
    assert_eq!(error.category(), ApplicationErrorCategory::StateConflict);
}
