use est::locales::es_sp::{book_name_text, parse_book, BOOK_COUNT};
use est::BibleError;

#[test]
fn t_parse_book_single() {
    let input = "Lucas es un libro de la biblia.";
    let result = parse_book(input);
    assert_eq!(result, Ok((" es un libro de la biblia.", "Lucas")));
}

#[test]
fn t_parse_book_double() {
    let input = "1 Tesalonicenses es una carta y no un libro de la biblia.";
    let result = parse_book(input);
    assert_eq!(
        result,
        Ok((" es una carta y no un libro de la biblia.", "1 Tesalonicenses"))
    );
}

#[test]
fn t_parse_book_double_lowercase() {
    let input = "1 timoteo es tambien un libro de la biblia.";
    let result = parse_book(input);
    assert_eq!(result, Ok((" es tambien un libro de la biblia.", "1 timoteo")));
}

#[test]
fn t_parse_book_no_tilde() {
    let input = "Levitico deve tener un acento: Levítico";
    let result = parse_book(input);
    assert_eq!(result, Ok((" deve tener un acento: Levítico", "Levitico")));
}

#[test]
fn parse_book_folds_accented_capitals() {
    assert_eq!(parse_book("ÉXODO 3"), Ok((" 3", "ÉXODO")));
    assert_eq!(parse_book("génesis"), Ok(("", "génesis")));
    assert_eq!(parse_book("Ju"), Err(BibleError::ParsingError("Ju".to_string())));
    assert_eq!(parse_book("Maria"), Err(BibleError::ParsingError("Maria".to_string())));
}

#[test]
fn parse_book_agrees_with_nom() {
    let inputs = [
        "Lucas 1:1", "ÉXODO 3", "éxodo", "JUAN 3:16", "1 juan 2", "3 Juan", "Judas 4",
        "El cantar de los cantares 1", "Santiago", "Apocalipsis 22", "nada", "", "Jo",
        "Filemón 1", "FILEMÓN", "Nahúm", "Numberos 2",
    ];
    for input in inputs {
        let mut expect: Result<(&str, &str), BibleError> =
            Err(BibleError::ParsingError(input.to_string()));
        for k in 0..BOOK_COUNT {
            let r: nom::IResult<&str, &str> =
                nom::bytes::complete::tag_no_case(book_name_text(k))(input);
            if let Ok(found) = r {
                expect = Ok(found);
                break;
            }
        }
        assert_eq!(parse_book(input), expect, "input: {:?}", input);
    }
}
