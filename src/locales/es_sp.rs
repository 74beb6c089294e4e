//! The Spanish book names, as a reader of the Spanish text writes them, with
//! and without accent marks, and a reader for a book name at the start of a
//! text.
use vstd::prelude::*;

use super::{BibleError, ErrorView};
use crate::text::{char_lower, chars_of, lower_of};

verus! {

/// How many names the list holds.
pub const BOOK_COUNT: usize = 70;

/// The `k`-th name of the list, in the order in which names are tried.
pub open spec fn book_name(k: int) -> Seq<char> {
    if k == 0 {
        "Génesis"@
    } else if k == 1 {
        "Genesis"@
    } else if k == 2 {
        "Éxodo"@
    } else if k == 3 {
        "Exodo"@
    } else if k == 4 {
        "Levítico"@
    } else if k == 5 {
        "Levitico"@
    } else if k == 6 {
        "Números"@
    } else if k == 7 {
        "Numberos"@
    } else if k == 8 {
        "Deuteronomio"@
    } else if k == 9 {
        "Josué"@
    } else if k == 10 {
        "Jueces"@
    } else if k == 11 {
        "Rut"@
    } else if k == 12 {
        "1 Samuel"@
    } else if k == 13 {
        "2 Samuel"@
    } else if k == 14 {
        "1 Reyes"@
    } else if k == 15 {
        "2 Reyes"@
    } else if k == 16 {
        "1 Crónicas"@
    } else if k == 17 {
        "2 Crónicas"@
    } else if k == 18 {
        "Esdras"@
    } else if k == 19 {
        "Nehemías"@
    } else if k == 20 {
        "Ester"@
    } else if k == 21 {
        "Job"@
    } else if k == 22 {
        "Salmos"@
    } else if k == 23 {
        "Proverbios"@
    } else if k == 24 {
        "Eclesiastés"@
    } else if k == 25 {
        "El Cantar de los Cantares"@
    } else if k == 26 {
        "Isaías"@
    } else if k == 27 {
        "Jeremías"@
    } else if k == 28 {
        "Lamentaciones"@
    } else if k == 29 {
        "Ezequiel"@
    } else if k == 30 {
        "Daniel"@
    } else if k == 31 {
        "Oseas"@
    } else if k == 32 {
        "Joel"@
    } else if k == 33 {
        "Amós"@
    } else if k == 34 {
        "Abdías"@
    } else if k == 35 {
        "Jonás"@
    } else if k == 36 {
        "Miqueas"@
    } else if k == 37 {
        "Nahúm"@
    } else if k == 38 {
        "Habacuc"@
    } else if k == 39 {
        "Sofonías"@
    } else if k == 40 {
        "Ageo"@
    } else if k == 41 {
        "Zacarías"@
    } else if k == 42 {
        "Malaquías"@
    } else if k == 43 {
        "Mateo"@
    } else if k == 44 {
        "Marcos"@
    } else if k == 45 {
        "Lucas"@
    } else if k == 46 {
        "Juan"@
    } else if k == 47 {
        "Hechos"@
    } else if k == 48 {
        "Romanos"@
    } else if k == 49 {
        "1 Corintios"@
    } else if k == 50 {
        "2 Corintios"@
    } else if k == 51 {
        "Gálatas"@
    } else if k == 52 {
        "Efesios"@
    } else if k == 53 {
        "Filipenses"@
    } else if k == 54 {
        "Colosenses"@
    } else if k == 55 {
        "1 Tesalonicenses"@
    } else if k == 56 {
        "2 Tesalonicenses"@
    } else if k == 57 {
        "1 Timoteo"@
    } else if k == 58 {
        "2 Timoteo"@
    } else if k == 59 {
        "Tito"@
    } else if k == 60 {
        "Filemón"@
    } else if k == 61 {
        "Hebreos"@
    } else if k == 62 {
        "Santiago"@
    } else if k == 63 {
        "1 Pedro"@
    } else if k == 64 {
        "2 Pedro"@
    } else if k == 65 {
        "1 Juan"@
    } else if k == 66 {
        "2 Juan"@
    } else if k == 67 {
        "3 Juan"@
    } else if k == 68 {
        "Judas"@
    } else if k == 69 {
        "Apocalipsis"@
    } else {
        Seq::empty()
    }
}

/// The `k`-th name of the list.
pub fn book_name_text(k: usize) -> (r: &'static str)
    requires
        k < BOOK_COUNT,
    ensures
        r@ == book_name(k as int),
{
    if k == 0 {
        "Génesis"
    } else if k == 1 {
        "Genesis"
    } else if k == 2 {
        "Éxodo"
    } else if k == 3 {
        "Exodo"
    } else if k == 4 {
        "Levítico"
    } else if k == 5 {
        "Levitico"
    } else if k == 6 {
        "Números"
    } else if k == 7 {
        "Numberos"
    } else if k == 8 {
        "Deuteronomio"
    } else if k == 9 {
        "Josué"
    } else if k == 10 {
        "Jueces"
    } else if k == 11 {
        "Rut"
    } else if k == 12 {
        "1 Samuel"
    } else if k == 13 {
        "2 Samuel"
    } else if k == 14 {
        "1 Reyes"
    } else if k == 15 {
        "2 Reyes"
    } else if k == 16 {
        "1 Crónicas"
    } else if k == 17 {
        "2 Crónicas"
    } else if k == 18 {
        "Esdras"
    } else if k == 19 {
        "Nehemías"
    } else if k == 20 {
        "Ester"
    } else if k == 21 {
        "Job"
    } else if k == 22 {
        "Salmos"
    } else if k == 23 {
        "Proverbios"
    } else if k == 24 {
        "Eclesiastés"
    } else if k == 25 {
        "El Cantar de los Cantares"
    } else if k == 26 {
        "Isaías"
    } else if k == 27 {
        "Jeremías"
    } else if k == 28 {
        "Lamentaciones"
    } else if k == 29 {
        "Ezequiel"
    } else if k == 30 {
        "Daniel"
    } else if k == 31 {
        "Oseas"
    } else if k == 32 {
        "Joel"
    } else if k == 33 {
        "Amós"
    } else if k == 34 {
        "Abdías"
    } else if k == 35 {
        "Jonás"
    } else if k == 36 {
        "Miqueas"
    } else if k == 37 {
        "Nahúm"
    } else if k == 38 {
        "Habacuc"
    } else if k == 39 {
        "Sofonías"
    } else if k == 40 {
        "Ageo"
    } else if k == 41 {
        "Zacarías"
    } else if k == 42 {
        "Malaquías"
    } else if k == 43 {
        "Mateo"
    } else if k == 44 {
        "Marcos"
    } else if k == 45 {
        "Lucas"
    } else if k == 46 {
        "Juan"
    } else if k == 47 {
        "Hechos"
    } else if k == 48 {
        "Romanos"
    } else if k == 49 {
        "1 Corintios"
    } else if k == 50 {
        "2 Corintios"
    } else if k == 51 {
        "Gálatas"
    } else if k == 52 {
        "Efesios"
    } else if k == 53 {
        "Filipenses"
    } else if k == 54 {
        "Colosenses"
    } else if k == 55 {
        "1 Tesalonicenses"
    } else if k == 56 {
        "2 Tesalonicenses"
    } else if k == 57 {
        "1 Timoteo"
    } else if k == 58 {
        "2 Timoteo"
    } else if k == 59 {
        "Tito"
    } else if k == 60 {
        "Filemón"
    } else if k == 61 {
        "Hebreos"
    } else if k == 62 {
        "Santiago"
    } else if k == 63 {
        "1 Pedro"
    } else if k == 64 {
        "2 Pedro"
    } else if k == 65 {
        "1 Juan"
    } else if k == 66 {
        "2 Juan"
    } else if k == 67 {
        "3 Juan"
    } else if k == 68 {
        "Judas"
    } else if k == 69 {
        "Apocalipsis"
    } else {
        ""
    }
}

/// Whether `s` starts with `t`, comparing the lower-case mapping of each
/// character.
pub open spec fn starts_with_no_case(s: Seq<char>, t: Seq<char>) -> bool {
    &&& t.len() <= s.len()
    &&& forall|k: int| 0 <= k < t.len() ==> char_lower(#[trigger] s[k]) == char_lower(t[k])
}

/// The first name of the list, from the `i`-th on, that `s` starts with.
pub open spec fn first_name_from(s: Seq<char>, i: int) -> Option<int>
    decreases BOOK_COUNT - i,
{
    if 0 <= i < BOOK_COUNT {
        if starts_with_no_case(s, book_name(i)) {
            Some(i)
        } else {
            first_name_from(s, i + 1)
        }
    } else {
        None
    }
}

/// The rest of `s` and the book name that it starts with, by the first name
/// of the list that fits.
pub open spec fn parse_book_spec(s: Seq<char>) -> Result<(Seq<char>, Seq<char>), ErrorView> {
    match first_name_from(s, 0) {
        Some(k) => Ok((s.skip(book_name(k).len() as int), s.take(book_name(k).len() as int))),
        None => Err(ErrorView::ParsingError(s)),
    }
}

/// Whether two character sequences are equal.
fn same_chars(a: &Vec<char>, b: &Vec<char>) -> (r: bool)
    ensures
        r == (a@ == b@),
{
    if a.len() != b.len() {
        return false;
    }
    let mut i: usize = 0;
    while i < a.len()
        invariant
            a@.len() == b@.len(),
            i <= a.len(),
            forall|k: int| 0 <= k < i ==> a@[k] == b@[k],
        decreases a.len() - i,
    {
        if a[i] != b[i] {
            return false;
        }
        i = i + 1;
    }
    proof {
        assert(a@ =~= b@);
    }
    true
}

/// Whether the characters `s` start with `t`, ignoring case.
fn starts_with_no_case_exec(s: &Vec<char>, t: &str) -> (r: bool)
    ensures
        r == starts_with_no_case(s@, t@),
{
    let tc = chars_of(t);
    if tc.len() > s.len() {
        return false;
    }
    let mut k: usize = 0;
    while k < tc.len()
        invariant
            tc@ == t@,
            tc.len() <= s.len(),
            k <= tc.len(),
            forall|j: int| 0 <= j < k ==> char_lower(#[trigger] s@[j]) == char_lower(t@[j]),
        decreases tc.len() - k,
    {
        let a = lower_of(s[k]);
        let b = lower_of(tc[k]);
        if !same_chars(&a, &b) {
            return false;
        }
        k = k + 1;
    }
    true
}

/// Reads the book name that `input` starts with: the first name of the list
/// that the text starts with, ignoring case, and the rest of the text after
/// it.
pub fn parse_book<'a>(input: &'a str) -> (r: Result<(&'a str, &'a str), BibleError>)
    ensures
        match r {
            Ok((rest, name)) => parse_book_spec(input@) == Ok::<(Seq<char>, Seq<char>), ErrorView>(
                (rest@, name@),
            ),
            Err(e) => parse_book_spec(input@) == Err::<(Seq<char>, Seq<char>), ErrorView>(e@),
        },
{
    let cs = chars_of(input);
    let mut k: usize = 0;
    while k < BOOK_COUNT
        invariant
            cs@ == input@,
            k <= BOOK_COUNT,
            first_name_from(input@, k as int) == first_name_from(input@, 0),
        decreases BOOK_COUNT - k,
    {
        let name = book_name_text(k);
        if starts_with_no_case_exec(&cs, name) {
            let n = name.unicode_len();
            let len = cs.len();
            let head = input.substring_char(0, n);
            let rest = input.substring_char(n, len);
            proof {
                assert(head@ =~= input@.take(n as int));
                assert(rest@ =~= input@.skip(n as int));
            }
            return Ok((rest, head));
        }
        k = k + 1;
    }
    Err(BibleError::ParsingError(input.to_owned()))
}

} // verus!
