use est::{get_scriptures, surround, Script};
use regex::Regex;

const PATTERN: &str = r"(?<book>(?:[1234]\s?)?[a-zA-Z]+)\s*(?<chapter>\d+)(?::(?<verse>\d+(?:[—–-]\d+)?(?:,\s*\d+(?:[—–-]\d+)?)*(?:;\s*\d+(?::\d+(?:[—–-]\d+)?(?:,\s*\d+(?:[—–-]\d+)?)*))*))?";

const SAMPLES: &[&str] = &[
    "A popular scripture is John 3:16, it is quoted often.",
    "1 John 4:8 and 2Ki 5:1-3 and 3 jo 4",
    "Psalms 3:1,2,3; 4:5-7; 6 and more",
    "Job 36:26\u{2013}28 or Job 36:26\u{2014}28, 30",
    "John 3: no verse, John 3:, John 3:x",
    "12John 3:16 5 John 1:1 1  John 2:2",
    "xJohn 3:16abc 4 and Mark\u{a0}4:5",
    "Genesis1:1 Exodus 2 :3 Ruth 1:1-",
    "Read 1 John 4, see: 1 John 4; 2:3,4-5",
    "",
    "no digits here at all",
    "Ps 23:1,  2,3-4 ; 5:6",
    "Song of Solomon 2:1 and 1 Co 13:4-7",
];

fn regex_spans(text: &str) -> Vec<(usize, usize)> {
    let re = Regex::new(PATTERN).unwrap();
    re.find_iter(text)
        .map(|m| (m.start(), m.end()))
        .collect()
}

#[test]
fn locator_agrees_with_a_regex_engine() {
    for text in SAMPLES {
        let got = Script::new(text).get_locations().slices;
        assert_eq!(got, regex_spans(text), "text: {:?}", text);
    }
}

#[test]
fn parser_agrees_with_regex_captures() {
    let re = Regex::new(PATTERN).unwrap();
    for text in SAMPLES {
        for m in re.find_iter(text) {
            let caps = re.captures(m.as_str()).unwrap();
            let book = caps.name("book").unwrap().as_str();
            match est::Bible::parse(m.as_str()) {
                Ok(b) => {
                    assert_eq!(b.get_book(), book);
                    assert_eq!(b.get_chapter(), caps.name("chapter").unwrap().as_str());
                    assert_eq!(b.get_verse(), caps.name("verse").map_or("", |v| v.as_str()));
                }
                Err(e) => assert_eq!(e, est::BibleError::BookNotFound(book.to_string())),
            }
        }
    }
}

#[test]
fn no_books_means_nothing_listed_and_nothing_changed() {
    let text = "Mary 2:23 and Timothy 3:16 and Bob 4 are not books here.";
    assert!(get_scriptures(text).is_empty());
    assert_eq!(surround(text, "<b>", "</b>"), text);
    assert_eq!(surround("", "<b>", "</b>"), "");
}

#[test]
fn get_scriptures_single() {
    assert_eq!(
        get_scriptures("A popular scripture is John 3:16, it is quoted often."),
        vec!["John 3:16".to_string()]
    );
}

#[test]
fn get_scriptures_keeps_order() {
    assert_eq!(
        get_scriptures("Two popular scriptures are Genesis 1:1 and John 3:16, ..."),
        vec!["Genesis 1:1".to_string(), "John 3:16".to_string()]
    );
}

#[test]
fn get_scriptures_drops_unknown_books() {
    assert!(get_scriptures("... such as Mary 2:23 is captured.").is_empty());
}

#[test]
fn surround_wraps_exactly_the_citation() {
    let text = "... John 3:16 ...";
    assert_eq!(surround(text, "**", "**"), "... **John 3:16** ...");
    assert_eq!(surround(text, "", ""), text);
    let long = "Genesis 1:1, Ps 23:1-3; 24:1 and Mary 2:23 then Re 12:12.";
    assert_eq!(surround(long, "", ""), long);
}

#[test]
fn surround_marks_land_where_listing_finds_citations() {
    let text = "Start Genesis 1:1 mid Mary 2:3 and John 3:16, 17 end Re 12:12";
    let pre = "<<";
    let post = ">>>";
    let out = surround(text, pre, post);
    let found = get_scriptures(text);
    assert_eq!(found.len(), 3);
    let mut rest = out.as_str();
    for c in &found {
        let marked = format!("{}{}{}", pre, c, post);
        let at = rest.find(&marked).unwrap();
        rest = &rest[at + marked.len()..];
    }
    assert_eq!(out.len(), text.len() + found.len() * (pre.len() + post.len()));
    assert_eq!(out.replace(pre, "").replace(post, ""), text);
    assert_eq!(get_scriptures(text), found);
}

#[test]
fn offsets_are_utf8_bytes() {
    let text = "\u{dc}ber John 3:16 \u{2014} Job 36:26\u{2013}28";
    let script = Script::new(text);
    let slices = script.get_locations().slices;
    assert_eq!(slices, vec![(6, 15), (20, 34)]);
    assert_eq!(script.get_from_slice(&(6, 15)), "John 3:16");
    assert_eq!(script.get_from_slice(&(20, 34)), "Job 36:26\u{2013}28");
    assert_eq!(&text[20..34], "Job 36:26\u{2013}28");
}
