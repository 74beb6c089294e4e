//! The English book registry: the sixty-six books of the Protestant canon,
//! their canonical names, their numbers, and the aliases each is known by,
//! and the study sites that English links can point at.
use vstd::prelude::*;

use super::{BibleError, ErrorView};
use super::BibleRef;
use crate::text::{lower_chars, lower_seq, spells};
use crate::url::{Url, UrlTemplate};

verus! {

/// One book of the Bible, in canonical order.
#[derive(Clone, Copy, Debug, PartialEq, Eq, Structural, PartialOrd, Ord, Hash)]
pub enum Book {
    Genesis,
    Exodus,
    Leviticus,
    Numbers,
    Deuteronomy,
    Joshua,
    Judges,
    Ruth,
    FirstSamuel,
    SecondSamuel,
    FirstKings,
    SecondKings,
    FirstChronicles,
    SecondChronicles,
    Ezra,
    Nehemiah,
    Esther,
    Job,
    Psalms,
    Proverbs,
    Ecclesiastes,
    SongOfSolomon,
    Isaiah,
    Jeremiah,
    Lamentations,
    Ezekiel,
    Daniel,
    Hosea,
    Joel,
    Amos,
    Obadiah,
    Jonah,
    Micah,
    Nahum,
    Habakkuk,
    Zephaniah,
    Haggai,
    Zechariah,
    Malachi,
    Matthew,
    Mark,
    Luke,
    John,
    Acts,
    Romans,
    FirstCorinthians,
    SecondCorinthians,
    Galatians,
    Ephesians,
    Philippians,
    Colossians,
    FirstThessalonians,
    SecondThessalonians,
    FirstTimothy,
    SecondTimothy,
    Titus,
    Philemon,
    Hebrews,
    James,
    FirstPeter,
    SecondPeter,
    FirstJohn,
    SecondJohn,
    ThirdJohn,
    Jude,
    Revelation,
}

/// The book's ordinal, 1 for Genesis up to 66 for Revelation.
pub open spec fn book_number(b: Book) -> nat {
    match b {
        Book::Genesis => 1,
        Book::Exodus => 2,
        Book::Leviticus => 3,
        Book::Numbers => 4,
        Book::Deuteronomy => 5,
        Book::Joshua => 6,
        Book::Judges => 7,
        Book::Ruth => 8,
        Book::FirstSamuel => 9,
        Book::SecondSamuel => 10,
        Book::FirstKings => 11,
        Book::SecondKings => 12,
        Book::FirstChronicles => 13,
        Book::SecondChronicles => 14,
        Book::Ezra => 15,
        Book::Nehemiah => 16,
        Book::Esther => 17,
        Book::Job => 18,
        Book::Psalms => 19,
        Book::Proverbs => 20,
        Book::Ecclesiastes => 21,
        Book::SongOfSolomon => 22,
        Book::Isaiah => 23,
        Book::Jeremiah => 24,
        Book::Lamentations => 25,
        Book::Ezekiel => 26,
        Book::Daniel => 27,
        Book::Hosea => 28,
        Book::Joel => 29,
        Book::Amos => 30,
        Book::Obadiah => 31,
        Book::Jonah => 32,
        Book::Micah => 33,
        Book::Nahum => 34,
        Book::Habakkuk => 35,
        Book::Zephaniah => 36,
        Book::Haggai => 37,
        Book::Zechariah => 38,
        Book::Malachi => 39,
        Book::Matthew => 40,
        Book::Mark => 41,
        Book::Luke => 42,
        Book::John => 43,
        Book::Acts => 44,
        Book::Romans => 45,
        Book::FirstCorinthians => 46,
        Book::SecondCorinthians => 47,
        Book::Galatians => 48,
        Book::Ephesians => 49,
        Book::Philippians => 50,
        Book::Colossians => 51,
        Book::FirstThessalonians => 52,
        Book::SecondThessalonians => 53,
        Book::FirstTimothy => 54,
        Book::SecondTimothy => 55,
        Book::Titus => 56,
        Book::Philemon => 57,
        Book::Hebrews => 58,
        Book::James => 59,
        Book::FirstPeter => 60,
        Book::SecondPeter => 61,
        Book::FirstJohn => 62,
        Book::SecondJohn => 63,
        Book::ThirdJohn => 64,
        Book::Jude => 65,
        Book::Revelation => 66,
    }
}

/// The book's canonical lower-case name.
pub open spec fn canonical_name(b: Book) -> Seq<char> {
    match b {
        Book::Genesis => "genesis"@,
        Book::Exodus => "exodus"@,
        Book::Leviticus => "leviticus"@,
        Book::Numbers => "numbers"@,
        Book::Deuteronomy => "deuteronomy"@,
        Book::Joshua => "joshua"@,
        Book::Judges => "judges"@,
        Book::Ruth => "ruth"@,
        Book::FirstSamuel => "1 samuel"@,
        Book::SecondSamuel => "2 samuel"@,
        Book::FirstKings => "1 kings"@,
        Book::SecondKings => "2 kings"@,
        Book::FirstChronicles => "1 chronicles"@,
        Book::SecondChronicles => "2 chronicles"@,
        Book::Ezra => "ezra"@,
        Book::Nehemiah => "nehemiah"@,
        Book::Esther => "esther"@,
        Book::Job => "job"@,
        Book::Psalms => "psalms"@,
        Book::Proverbs => "proverbs"@,
        Book::Ecclesiastes => "ecclesiastes"@,
        Book::SongOfSolomon => "song of solomon"@,
        Book::Isaiah => "isaiah"@,
        Book::Jeremiah => "jeremiah"@,
        Book::Lamentations => "lamentations"@,
        Book::Ezekiel => "ezekiel"@,
        Book::Daniel => "daniel"@,
        Book::Hosea => "hosea"@,
        Book::Joel => "joel"@,
        Book::Amos => "amos"@,
        Book::Obadiah => "obadiah"@,
        Book::Jonah => "jonah"@,
        Book::Micah => "micah"@,
        Book::Nahum => "nahum"@,
        Book::Habakkuk => "habakkuk"@,
        Book::Zephaniah => "zephaniah"@,
        Book::Haggai => "haggai"@,
        Book::Zechariah => "zechariah"@,
        Book::Malachi => "malachi"@,
        Book::Matthew => "matthew"@,
        Book::Mark => "mark"@,
        Book::Luke => "luke"@,
        Book::John => "john"@,
        Book::Acts => "acts"@,
        Book::Romans => "romans"@,
        Book::FirstCorinthians => "1 corinthians"@,
        Book::SecondCorinthians => "2 corinthians"@,
        Book::Galatians => "galatians"@,
        Book::Ephesians => "ephesians"@,
        Book::Philippians => "philippians"@,
        Book::Colossians => "colossians"@,
        Book::FirstThessalonians => "1 thessalonians"@,
        Book::SecondThessalonians => "2 thessalonians"@,
        Book::FirstTimothy => "1 timothy"@,
        Book::SecondTimothy => "2 timothy"@,
        Book::Titus => "titus"@,
        Book::Philemon => "philemon"@,
        Book::Hebrews => "hebrews"@,
        Book::James => "james"@,
        Book::FirstPeter => "1 peter"@,
        Book::SecondPeter => "2 peter"@,
        Book::FirstJohn => "1 john"@,
        Book::SecondJohn => "2 john"@,
        Book::ThirdJohn => "3 john"@,
        Book::Jude => "jude"@,
        Book::Revelation => "revelation"@,
    }
}

/// The book that a lower-case token names, by its canonical name or one of
/// its abbreviations.
pub open spec fn book_of_alias(s: Seq<char>) -> Option<Book> {
    if s == "genesis"@ || s == "gen"@ || s == "gn"@ {
        Some(Book::Genesis)
    } else if s == "exodus"@ || s == "ex"@ {
        Some(Book::Exodus)
    } else if s == "leviticus"@ || s == "le"@ {
        Some(Book::Leviticus)
    } else if s == "numbers"@ || s == "nu"@ {
        Some(Book::Numbers)
    } else if s == "deuteronomy"@ || s == "de"@ {
        Some(Book::Deuteronomy)
    } else if s == "joshua"@ || s == "jos"@ {
        Some(Book::Joshua)
    } else if s == "judges"@ || s == "jg"@ {
        Some(Book::Judges)
    } else if s == "ruth"@ || s == "ru"@ {
        Some(Book::Ruth)
    } else if s == "1 samuel"@ || s == "1sa"@ || s == "1 sa"@ {
        Some(Book::FirstSamuel)
    } else if s == "2 samuel"@ || s == "2sa"@ || s == "2 sa"@ {
        Some(Book::SecondSamuel)
    } else if s == "1 kings"@ || s == "1ki"@ || s == "1 ki"@ {
        Some(Book::FirstKings)
    } else if s == "2 kings"@ || s == "2ki"@ || s == "2 ki"@ {
        Some(Book::SecondKings)
    } else if s == "1 chronicles"@ || s == "1ch"@ || s == "1 ch"@ {
        Some(Book::FirstChronicles)
    } else if s == "2 chronicles"@ || s == "2ch"@ || s == "2 ch"@ {
        Some(Book::SecondChronicles)
    } else if s == "ezra"@ || s == "ezr"@ {
        Some(Book::Ezra)
    } else if s == "nehemiah"@ || s == "ne"@ {
        Some(Book::Nehemiah)
    } else if s == "esther"@ || s == "es"@ {
        Some(Book::Esther)
    } else if s == "job"@ {
        Some(Book::Job)
    } else if s == "psalms"@ || s == "psalm"@ || s == "ps"@ {
        Some(Book::Psalms)
    } else if s == "proverbs"@ || s == "pr"@ {
        Some(Book::Proverbs)
    } else if s == "ecclesiastes"@ || s == "ec"@ {
        Some(Book::Ecclesiastes)
    } else if s == "song of solomon"@ || s == "ca"@ {
        Some(Book::SongOfSolomon)
    } else if s == "isaiah"@ || s == "isa"@ {
        Some(Book::Isaiah)
    } else if s == "jeremiah"@ || s == "jer"@ {
        Some(Book::Jeremiah)
    } else if s == "lamentations"@ || s == "la"@ {
        Some(Book::Lamentations)
    } else if s == "ezekiel"@ || s == "eze"@ {
        Some(Book::Ezekiel)
    } else if s == "daniel"@ || s == "da"@ {
        Some(Book::Daniel)
    } else if s == "hosea"@ || s == "ho"@ {
        Some(Book::Hosea)
    } else if s == "joel"@ || s == "joe"@ {
        Some(Book::Joel)
    } else if s == "amos"@ || s == "am"@ {
        Some(Book::Amos)
    } else if s == "obadiah"@ || s == "ob"@ {
        Some(Book::Obadiah)
    } else if s == "jonah"@ || s == "jon"@ {
        Some(Book::Jonah)
    } else if s == "micah"@ || s == "mic"@ {
        Some(Book::Micah)
    } else if s == "nahum"@ || s == "na"@ {
        Some(Book::Nahum)
    } else if s == "habakkuk"@ || s == "hab"@ {
        Some(Book::Habakkuk)
    } else if s == "zephaniah"@ || s == "zep"@ {
        Some(Book::Zephaniah)
    } else if s == "haggai"@ || s == "hag"@ {
        Some(Book::Haggai)
    } else if s == "zechariah"@ || s == "zec"@ {
        Some(Book::Zechariah)
    } else if s == "malachi"@ || s == "mal"@ {
        Some(Book::Malachi)
    } else if s == "matthew"@ || s == "mt"@ {
        Some(Book::Matthew)
    } else if s == "mark"@ || s == "mr"@ {
        Some(Book::Mark)
    } else if s == "luke"@ || s == "lu"@ {
        Some(Book::Luke)
    } else if s == "john"@ || s == "joh"@ {
        Some(Book::John)
    } else if s == "acts"@ || s == "ac"@ {
        Some(Book::Acts)
    } else if s == "romans"@ || s == "ro"@ {
        Some(Book::Romans)
    } else if s == "1 corinthians"@ || s == "1co"@ || s == "1 co"@ {
        Some(Book::FirstCorinthians)
    } else if s == "2 corinthians"@ || s == "2co"@ || s == "2 co"@ {
        Some(Book::SecondCorinthians)
    } else if s == "galatians"@ || s == "ga"@ {
        Some(Book::Galatians)
    } else if s == "ephesians"@ || s == "eph"@ {
        Some(Book::Ephesians)
    } else if s == "philippians"@ || s == "php"@ {
        Some(Book::Philippians)
    } else if s == "colossians"@ || s == "col"@ {
        Some(Book::Colossians)
    } else if s == "1 thessalonians"@ || s == "1th"@ || s == "1 th"@ {
        Some(Book::FirstThessalonians)
    } else if s == "2 thessalonians"@ || s == "2th"@ || s == "2 th"@ {
        Some(Book::SecondThessalonians)
    } else if s == "1 timothy"@ || s == "1ti"@ || s == "1 ti"@ {
        Some(Book::FirstTimothy)
    } else if s == "2 timothy"@ || s == "2ti"@ || s == "2 ti"@ {
        Some(Book::SecondTimothy)
    } else if s == "titus"@ || s == "tit"@ {
        Some(Book::Titus)
    } else if s == "philemon"@ || s == "phm"@ {
        Some(Book::Philemon)
    } else if s == "hebrews"@ || s == "heb"@ {
        Some(Book::Hebrews)
    } else if s == "james"@ || s == "jas"@ {
        Some(Book::James)
    } else if s == "1 peter"@ || s == "1pe"@ || s == "1 pe"@ {
        Some(Book::FirstPeter)
    } else if s == "2 peter"@ || s == "2pe"@ || s == "2 pe"@ {
        Some(Book::SecondPeter)
    } else if s == "1 john"@ || s == "1jo"@ || s == "1 jo"@ {
        Some(Book::FirstJohn)
    } else if s == "2 john"@ || s == "2jo"@ || s == "2 jo"@ {
        Some(Book::SecondJohn)
    } else if s == "3 john"@ || s == "3jo"@ || s == "3 jo"@ {
        Some(Book::ThirdJohn)
    } else if s == "jude"@ {
        Some(Book::Jude)
    } else if s == "revelation"@ || s == "re"@ {
        Some(Book::Revelation)
    } else {
        None
    }
}

/// The book that a token names, after lowering the case of each of its
/// characters.
pub open spec fn resolve_token(s: Seq<char>) -> Option<Book> {
    book_of_alias(lower_seq(s))
}

impl Book {
    /// The book's ordinal, 1 to 66.
    pub fn number(&self) -> (r: u8)
        ensures
            r as nat == book_number(*self),
            1 <= r <= 66,
    {
        match self {
            Book::Genesis => 1,
            Book::Exodus => 2,
            Book::Leviticus => 3,
            Book::Numbers => 4,
            Book::Deuteronomy => 5,
            Book::Joshua => 6,
            Book::Judges => 7,
            Book::Ruth => 8,
            Book::FirstSamuel => 9,
            Book::SecondSamuel => 10,
            Book::FirstKings => 11,
            Book::SecondKings => 12,
            Book::FirstChronicles => 13,
            Book::SecondChronicles => 14,
            Book::Ezra => 15,
            Book::Nehemiah => 16,
            Book::Esther => 17,
            Book::Job => 18,
            Book::Psalms => 19,
            Book::Proverbs => 20,
            Book::Ecclesiastes => 21,
            Book::SongOfSolomon => 22,
            Book::Isaiah => 23,
            Book::Jeremiah => 24,
            Book::Lamentations => 25,
            Book::Ezekiel => 26,
            Book::Daniel => 27,
            Book::Hosea => 28,
            Book::Joel => 29,
            Book::Amos => 30,
            Book::Obadiah => 31,
            Book::Jonah => 32,
            Book::Micah => 33,
            Book::Nahum => 34,
            Book::Habakkuk => 35,
            Book::Zephaniah => 36,
            Book::Haggai => 37,
            Book::Zechariah => 38,
            Book::Malachi => 39,
            Book::Matthew => 40,
            Book::Mark => 41,
            Book::Luke => 42,
            Book::John => 43,
            Book::Acts => 44,
            Book::Romans => 45,
            Book::FirstCorinthians => 46,
            Book::SecondCorinthians => 47,
            Book::Galatians => 48,
            Book::Ephesians => 49,
            Book::Philippians => 50,
            Book::Colossians => 51,
            Book::FirstThessalonians => 52,
            Book::SecondThessalonians => 53,
            Book::FirstTimothy => 54,
            Book::SecondTimothy => 55,
            Book::Titus => 56,
            Book::Philemon => 57,
            Book::Hebrews => 58,
            Book::James => 59,
            Book::FirstPeter => 60,
            Book::SecondPeter => 61,
            Book::FirstJohn => 62,
            Book::SecondJohn => 63,
            Book::ThirdJohn => 64,
            Book::Jude => 65,
            Book::Revelation => 66,
        }
    }

    /// The book's canonical lower-case name.
    pub fn name(&self) -> (r: &'static str)
        ensures
            r@ == canonical_name(*self),
    {
        match self {
            Book::Genesis => "genesis",
            Book::Exodus => "exodus",
            Book::Leviticus => "leviticus",
            Book::Numbers => "numbers",
            Book::Deuteronomy => "deuteronomy",
            Book::Joshua => "joshua",
            Book::Judges => "judges",
            Book::Ruth => "ruth",
            Book::FirstSamuel => "1 samuel",
            Book::SecondSamuel => "2 samuel",
            Book::FirstKings => "1 kings",
            Book::SecondKings => "2 kings",
            Book::FirstChronicles => "1 chronicles",
            Book::SecondChronicles => "2 chronicles",
            Book::Ezra => "ezra",
            Book::Nehemiah => "nehemiah",
            Book::Esther => "esther",
            Book::Job => "job",
            Book::Psalms => "psalms",
            Book::Proverbs => "proverbs",
            Book::Ecclesiastes => "ecclesiastes",
            Book::SongOfSolomon => "song of solomon",
            Book::Isaiah => "isaiah",
            Book::Jeremiah => "jeremiah",
            Book::Lamentations => "lamentations",
            Book::Ezekiel => "ezekiel",
            Book::Daniel => "daniel",
            Book::Hosea => "hosea",
            Book::Joel => "joel",
            Book::Amos => "amos",
            Book::Obadiah => "obadiah",
            Book::Jonah => "jonah",
            Book::Micah => "micah",
            Book::Nahum => "nahum",
            Book::Habakkuk => "habakkuk",
            Book::Zephaniah => "zephaniah",
            Book::Haggai => "haggai",
            Book::Zechariah => "zechariah",
            Book::Malachi => "malachi",
            Book::Matthew => "matthew",
            Book::Mark => "mark",
            Book::Luke => "luke",
            Book::John => "john",
            Book::Acts => "acts",
            Book::Romans => "romans",
            Book::FirstCorinthians => "1 corinthians",
            Book::SecondCorinthians => "2 corinthians",
            Book::Galatians => "galatians",
            Book::Ephesians => "ephesians",
            Book::Philippians => "philippians",
            Book::Colossians => "colossians",
            Book::FirstThessalonians => "1 thessalonians",
            Book::SecondThessalonians => "2 thessalonians",
            Book::FirstTimothy => "1 timothy",
            Book::SecondTimothy => "2 timothy",
            Book::Titus => "titus",
            Book::Philemon => "philemon",
            Book::Hebrews => "hebrews",
            Book::James => "james",
            Book::FirstPeter => "1 peter",
            Book::SecondPeter => "2 peter",
            Book::FirstJohn => "1 john",
            Book::SecondJohn => "2 john",
            Book::ThirdJohn => "3 john",
            Book::Jude => "jude",
            Book::Revelation => "revelation",
        }
    }

    /// The book that a lower-case token names, if any.
    pub fn from_lower(low: &Vec<char>) -> (r: Option<Book>)
        ensures
            r == book_of_alias(low@),
    {
        if spells(low, "genesis") || spells(low, "gen") || spells(low, "gn") {
            Some(Book::Genesis)
        } else if spells(low, "exodus") || spells(low, "ex") {
            Some(Book::Exodus)
        } else if spells(low, "leviticus") || spells(low, "le") {
            Some(Book::Leviticus)
        } else if spells(low, "numbers") || spells(low, "nu") {
            Some(Book::Numbers)
        } else if spells(low, "deuteronomy") || spells(low, "de") {
            Some(Book::Deuteronomy)
        } else if spells(low, "joshua") || spells(low, "jos") {
            Some(Book::Joshua)
        } else if spells(low, "judges") || spells(low, "jg") {
            Some(Book::Judges)
        } else if spells(low, "ruth") || spells(low, "ru") {
            Some(Book::Ruth)
        } else if spells(low, "1 samuel") || spells(low, "1sa") || spells(low, "1 sa") {
            Some(Book::FirstSamuel)
        } else if spells(low, "2 samuel") || spells(low, "2sa") || spells(low, "2 sa") {
            Some(Book::SecondSamuel)
        } else if spells(low, "1 kings") || spells(low, "1ki") || spells(low, "1 ki") {
            Some(Book::FirstKings)
        } else if spells(low, "2 kings") || spells(low, "2ki") || spells(low, "2 ki") {
            Some(Book::SecondKings)
        } else if spells(low, "1 chronicles") || spells(low, "1ch") || spells(low, "1 ch") {
            Some(Book::FirstChronicles)
        } else if spells(low, "2 chronicles") || spells(low, "2ch") || spells(low, "2 ch") {
            Some(Book::SecondChronicles)
        } else if spells(low, "ezra") || spells(low, "ezr") {
            Some(Book::Ezra)
        } else if spells(low, "nehemiah") || spells(low, "ne") {
            Some(Book::Nehemiah)
        } else if spells(low, "esther") || spells(low, "es") {
            Some(Book::Esther)
        } else if spells(low, "job") {
            Some(Book::Job)
        } else if spells(low, "psalms") || spells(low, "psalm") || spells(low, "ps") {
            Some(Book::Psalms)
        } else if spells(low, "proverbs") || spells(low, "pr") {
            Some(Book::Proverbs)
        } else if spells(low, "ecclesiastes") || spells(low, "ec") {
            Some(Book::Ecclesiastes)
        } else if spells(low, "song of solomon") || spells(low, "ca") {
            Some(Book::SongOfSolomon)
        } else if spells(low, "isaiah") || spells(low, "isa") {
            Some(Book::Isaiah)
        } else if spells(low, "jeremiah") || spells(low, "jer") {
            Some(Book::Jeremiah)
        } else if spells(low, "lamentations") || spells(low, "la") {
            Some(Book::Lamentations)
        } else if spells(low, "ezekiel") || spells(low, "eze") {
            Some(Book::Ezekiel)
        } else if spells(low, "daniel") || spells(low, "da") {
            Some(Book::Daniel)
        } else if spells(low, "hosea") || spells(low, "ho") {
            Some(Book::Hosea)
        } else if spells(low, "joel") || spells(low, "joe") {
            Some(Book::Joel)
        } else if spells(low, "amos") || spells(low, "am") {
            Some(Book::Amos)
        } else if spells(low, "obadiah") || spells(low, "ob") {
            Some(Book::Obadiah)
        } else if spells(low, "jonah") || spells(low, "jon") {
            Some(Book::Jonah)
        } else if spells(low, "micah") || spells(low, "mic") {
            Some(Book::Micah)
        } else if spells(low, "nahum") || spells(low, "na") {
            Some(Book::Nahum)
        } else if spells(low, "habakkuk") || spells(low, "hab") {
            Some(Book::Habakkuk)
        } else if spells(low, "zephaniah") || spells(low, "zep") {
            Some(Book::Zephaniah)
        } else if spells(low, "haggai") || spells(low, "hag") {
            Some(Book::Haggai)
        } else if spells(low, "zechariah") || spells(low, "zec") {
            Some(Book::Zechariah)
        } else if spells(low, "malachi") || spells(low, "mal") {
            Some(Book::Malachi)
        } else if spells(low, "matthew") || spells(low, "mt") {
            Some(Book::Matthew)
        } else if spells(low, "mark") || spells(low, "mr") {
            Some(Book::Mark)
        } else if spells(low, "luke") || spells(low, "lu") {
            Some(Book::Luke)
        } else if spells(low, "john") || spells(low, "joh") {
            Some(Book::John)
        } else if spells(low, "acts") || spells(low, "ac") {
            Some(Book::Acts)
        } else if spells(low, "romans") || spells(low, "ro") {
            Some(Book::Romans)
        } else if spells(low, "1 corinthians") || spells(low, "1co") || spells(low, "1 co") {
            Some(Book::FirstCorinthians)
        } else if spells(low, "2 corinthians") || spells(low, "2co") || spells(low, "2 co") {
            Some(Book::SecondCorinthians)
        } else if spells(low, "galatians") || spells(low, "ga") {
            Some(Book::Galatians)
        } else if spells(low, "ephesians") || spells(low, "eph") {
            Some(Book::Ephesians)
        } else if spells(low, "philippians") || spells(low, "php") {
            Some(Book::Philippians)
        } else if spells(low, "colossians") || spells(low, "col") {
            Some(Book::Colossians)
        } else if spells(low, "1 thessalonians") || spells(low, "1th") || spells(low, "1 th") {
            Some(Book::FirstThessalonians)
        } else if spells(low, "2 thessalonians") || spells(low, "2th") || spells(low, "2 th") {
            Some(Book::SecondThessalonians)
        } else if spells(low, "1 timothy") || spells(low, "1ti") || spells(low, "1 ti") {
            Some(Book::FirstTimothy)
        } else if spells(low, "2 timothy") || spells(low, "2ti") || spells(low, "2 ti") {
            Some(Book::SecondTimothy)
        } else if spells(low, "titus") || spells(low, "tit") {
            Some(Book::Titus)
        } else if spells(low, "philemon") || spells(low, "phm") {
            Some(Book::Philemon)
        } else if spells(low, "hebrews") || spells(low, "heb") {
            Some(Book::Hebrews)
        } else if spells(low, "james") || spells(low, "jas") {
            Some(Book::James)
        } else if spells(low, "1 peter") || spells(low, "1pe") || spells(low, "1 pe") {
            Some(Book::FirstPeter)
        } else if spells(low, "2 peter") || spells(low, "2pe") || spells(low, "2 pe") {
            Some(Book::SecondPeter)
        } else if spells(low, "1 john") || spells(low, "1jo") || spells(low, "1 jo") {
            Some(Book::FirstJohn)
        } else if spells(low, "2 john") || spells(low, "2jo") || spells(low, "2 jo") {
            Some(Book::SecondJohn)
        } else if spells(low, "3 john") || spells(low, "3jo") || spells(low, "3 jo") {
            Some(Book::ThirdJohn)
        } else if spells(low, "jude") {
            Some(Book::Jude)
        } else if spells(low, "revelation") || spells(low, "re") {
            Some(Book::Revelation)
        } else {
            None
        }
    }

    /// The book that `token` names, compared after lowering the case of each
    /// character; the error keeps the token as it was written.
    pub fn resolve(token: &str) -> (r: Result<Book, BibleError>)
        ensures
            match resolve_token(token@) {
                Some(b) => r == Ok::<Book, BibleError>(b),
                None => r matches Err(e) && e@ == ErrorView::BookNotFound(token@),
            },
    {
        let low = lower_chars(token);
        match Book::from_lower(&low) {
            Some(b) => Ok(b),
            None => Err(BibleError::BookNotFound(token.to_owned())),
        }
    }
}

impl BibleRef for Book {
    /// The ordinal of the book that `book` names.
    fn get_index(book: &str) -> (r: Result<u8, BibleError>)
        ensures
            match resolve_token(book@) {
                Some(b) => r == Ok::<u8, BibleError>(book_number(b) as u8),
                None => r matches Err(e) && e@ == ErrorView::BookNotFound(book@),
            },
    {
        match Book::resolve(book) {
            Ok(b) => Ok(b.number()),
            Err(e) => Err(e),
        }
    }

    /// Whether `book` names a book of the registry.
    fn is_valid(book: &str) -> (r: bool)
        ensures
            r == resolve_token(book@) is Some,
    {
        let low = lower_chars(book);
        Book::from_lower(&low).is_some()
    }
}

/// The study sites that English citations can be linked to.
#[derive(Clone, Copy, Debug, PartialEq, Eq, Structural)]
pub enum Site {
    JwOrg,
}

/// The single-verse link template of a site.
pub open spec fn single_template_of(site: Site) -> Seq<char> {
    match site {
        Site::JwOrg => "https://www.jw.org/en/library/bible/study-bible/books/{BOOKNAME}/{CHAPTER}/#v{BOOKNUM}{CHAPTER}{VERSE}"@,
    }
}

/// The verse-range link template of a site.
pub open spec fn range_template_of(site: Site) -> Seq<char> {
    match site {
        Site::JwOrg => "https://www.jw.org/en/library/bible/study-bible/books/{BOOKNAME}/{CHAPTER}/#v{BOOKNUM}{CHAPTER}{VERSE}-v{BOOKNUM}{CHAPTER}{VERSE}"@,
    }
}

impl Url for Site {
    open spec fn single_template(&self) -> Seq<char> {
        single_template_of(*self)
    }

    open spec fn range_template(&self) -> Seq<char> {
        range_template_of(*self)
    }

    fn get_template(&self) -> (r: UrlTemplate) {
        match self {
            Site::JwOrg => UrlTemplate {
                single: "https://www.jw.org/en/library/bible/study-bible/books/{BOOKNAME}/{CHAPTER}/#v{BOOKNUM}{CHAPTER}{VERSE}".to_owned(),
                range: "https://www.jw.org/en/library/bible/study-bible/books/{BOOKNAME}/{CHAPTER}/#v{BOOKNUM}{CHAPTER}{VERSE}-v{BOOKNUM}{CHAPTER}{VERSE}".to_owned(),
            },
        }
    }

    fn get_single(&self) -> (r: String) {
        let t = self.get_template();
        t.single
    }

    fn get_range(&self) -> (r: String) {
        let t = self.get_template();
        t.range
    }
}

/// Resolving a token depends on its lower case alone: two tokens whose
/// characters lower to the same text name the same book, or both none.
pub proof fn law_resolve_ignores_case(a: Seq<char>, b: Seq<char>)
    requires
        lower_seq(a) == lower_seq(b),
    ensures
        resolve_token(a) == resolve_token(b),
{
}

} // verus!
