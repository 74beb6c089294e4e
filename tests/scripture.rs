use est::{Bible, BibleError};

#[test]
fn t_non_existing_book() {
    let input: &str = "Mary 3:16";
    let got = Bible::parse(input);
    assert!(got.is_err());
    assert_eq!(got.unwrap_err(), BibleError::BookNotFound("Mary".to_string()));
}

#[test]
fn t_find_book() {
    let input: &str = "John 3:16";
    let expect: Bible = Bible {
        book: "John".into(),
        chapter: "3".into(),
        verse: "16".into(),
        booknum: "43".into(),
    };
    let result: Bible = Bible::parse(input).unwrap();
    assert_eq!(result, expect);
}

#[test]
fn t_find_book_space() {
    let input: &str = "1 Timothy 3:16";
    let expect: Bible = Bible {
        book: "1 Timothy".into(),
        chapter: "3".into(),
        verse: "16".into(),
        booknum: "54".into(),
    };
    let result: Bible = Bible::parse(input).unwrap();
    assert_eq!(result, expect);
}

#[test]
fn t_find_book_ranged() {
    let input: &str = "1 Timothy 3:16-20";
    let expect: Bible = Bible {
        book: "1 Timothy".into(),
        chapter: "3".into(),
        verse: "16-20".into(),
        booknum: "54".into(),
    };
    let result: Bible = Bible::parse(input).unwrap();
    assert_eq!(result, expect);
}

#[test]
fn parse_without_citation_is_a_parsing_error() {
    let got = Bible::parse("no citation here");
    assert_eq!(got, Err(BibleError::ParsingError("no citation here".to_string())));
}

#[test]
fn parse_takes_first_citation_and_its_groups() {
    let got = Bible::parse("see Psalms 3:1,2; 4:5-7 and John 1:1").unwrap();
    assert_eq!(got.get_book(), "Psalms");
    assert_eq!(got.get_chapter(), "3");
    assert_eq!(got.get_verse(), "1,2; 4:5-7");
    assert_eq!(got.get_booknum(), "19");
    assert_eq!(got.get_idx(), Ok(19));
    assert!(!got.is_range());
}

#[test]
fn parse_chapter_only() {
    let got = Bible::parse("Jude 1").unwrap();
    assert_eq!(got.get_verse(), "");
    assert_eq!(got.get_chapter(), "1");
}

#[test]
fn range_is_read_from_first_item() {
    assert!(Bible::single_scripture("john", "3", "16-18").is_range());
    assert!(Bible::single_scripture("john", "3", "16\u{2014}18").is_range());
    assert!(!Bible::single_scripture("john", "3", "16, 17-18").is_range());
    assert!(!Bible::single_scripture("john", "3", "16").is_range());
}
