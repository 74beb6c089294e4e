use est::locales::en_us::Book;
use est::{BibleError, BibleRef};

#[test]
fn test_genesis_enum() {
    let expect = 1;
    let got = Book::get_index("genesis").unwrap();
    assert_eq!(got, expect);
}

#[test]
fn test_genesis_abbr_enum() {
    let expect = 1;
    let got = Book::get_index("gn").unwrap();
    assert_eq!(got, expect);
}

#[test]
fn test_matthew_index() {
    let expect: u8 = 40;
    let result: u8 = Book::get_index("Matthew").unwrap();
    assert_eq!(result as u8, expect);
}

#[test]
fn test_john_abbr() {
    let expect: u8 = 43;
    let result: u8 = Book::get_index("joh").unwrap();
    assert_eq!(result as u8, expect);
}

#[test]
#[should_panic = "error"]
fn test_error() {
    let expect: u8 = 0;
    let result: Book = Book::resolve("Mary").expect("error");
    assert_eq!(result.number(), expect);
}

#[test]
fn alias_resolution_ignores_case() {
    let a = Book::resolve("JOHN").unwrap();
    let b = Book::resolve("John").unwrap();
    let c = Book::resolve("joh").unwrap();
    assert_eq!(a, Book::John);
    assert_eq!(b, Book::John);
    assert_eq!(c, Book::John);
    assert_eq!(a.name(), "john");
}

#[test]
fn unknown_book_keeps_token() {
    assert_eq!(Book::get_index("MaRy"), Err(BibleError::BookNotFound("MaRy".to_string())));
    assert!(!Book::is_valid("Mary"));
    assert!(Book::is_valid("1 SA"));
}

#[test]
fn numbered_books_and_ends_of_canon() {
    assert_eq!(Book::get_index("1 Samuel"), Ok(9));
    assert_eq!(Book::get_index("2ki"), Ok(12));
    assert_eq!(Book::get_index("Song of Solomon"), Ok(22));
    assert_eq!(Book::get_index("3 Jo"), Ok(64));
    assert_eq!(Book::get_index("Jude"), Ok(65));
    assert_eq!(Book::get_index("Revelation"), Ok(66));
    assert_eq!(Book::Genesis.number(), 1);
    assert_eq!(Book::Revelation.name(), "revelation");
    assert_eq!(Book::get_index("gen"), Ok(1));
    assert_eq!(Book::get_index("Psalm"), Ok(19));
}

#[test]
fn every_canonical_name_resolves_to_its_number() {
    let books = [
        "genesis", "exodus", "leviticus", "numbers", "deuteronomy", "joshua", "judges", "ruth",
        "1 samuel", "2 samuel", "1 kings", "2 kings", "1 chronicles", "2 chronicles", "ezra",
        "nehemiah", "esther", "job", "psalms", "proverbs", "ecclesiastes", "song of solomon",
        "isaiah", "jeremiah", "lamentations", "ezekiel", "daniel", "hosea", "joel", "amos",
        "obadiah", "jonah", "micah", "nahum", "habakkuk", "zephaniah", "haggai", "zechariah",
        "malachi", "matthew", "mark", "luke", "john", "acts", "romans", "1 corinthians",
        "2 corinthians", "galatians", "ephesians", "philippians", "colossians",
        "1 thessalonians", "2 thessalonians", "1 timothy", "2 timothy", "titus", "philemon",
        "hebrews", "james", "1 peter", "2 peter", "1 john", "2 john", "3 john", "jude",
        "revelation",
    ];
    for (i, name) in books.iter().enumerate() {
        let b = Book::resolve(name).unwrap();
        assert_eq!(b.number() as usize, i + 1);
        assert_eq!(b.name(), *name);
    }
}

#[test]
fn resolution_lowers_every_character() {
    assert_eq!(Book::get_index("1 \u{212A}ings"), Ok(11));
    assert_eq!(Book::get_index("MAR\u{212A}"), Ok(41));
    assert!(!Book::is_valid("J\u{f6}hn"));
}
