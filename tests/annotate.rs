use est::locales::en_us::Site;
use est::locales::en_us::Site::JwOrg;
use est::{get_scriptures, surround, url, BibleError, Locations, Script};

#[test]
fn t_single_url() {
    let input: &str = "A popular scriptures is Re 12:12. It is quoted often.";
    let expect: String = "A popular scriptures is [Re 12:12](https://www.jw.org/en/library/bible/study-bible/books/revelation/12/#v66012012). It is quoted often.".to_string();
    let got: String = Script::new(input).url(&Site::JwOrg).unwrap().get_text();
    assert_eq!(got, expect)
}

#[test]
fn t_single_ranged_url() {
    let input: &str = "A popular scriptures is Job 36:26-28. It is quoted often.";
    let expect: String = "A popular scriptures is [Job 36:26-28](https://www.jw.org/en/library/bible/study-bible/books/job/36/#v18036026-v18036028). It is quoted often.".to_string();
    let got: String = Script::new(input).url(&Site::JwOrg).unwrap().get_text();
    assert_eq!(got, expect)
}

#[test]
fn t_multipal_url() {
    let input: &str = "Three well-known Bible scriptures are Proverbs 3:5, John 3:16, and Romans 8:28";
    let expect: String = "Three well-known Bible scriptures are [Proverbs 3:5](https://www.jw.org/en/library/bible/study-bible/books/proverbs/3/#v20003005), [John 3:16](https://www.jw.org/en/library/bible/study-bible/books/john/3/#v43003016), and [Romans 8:28](https://www.jw.org/en/library/bible/study-bible/books/romans/8/#v45008028)".to_string();
    let got: String = Script::new(input).url(&Site::JwOrg).unwrap().get_text();
    assert_eq!(got, expect)
}

#[test]
fn lib_t_add_element_prefix_single() {
    let input: &str = "Another popular scripture is John 3:16, it's quoted often.";
    let expect: &str = "Another popular scripture is **John 3:16]], it's quoted often.";
    let got = surround(input, "**", "]]");
    assert_eq!(got, expect);
}

#[test]
fn t_add_element_prefix_single_to_string() {
    let input: String = "Another popular scripture is John 3:16, it's quoted often.".into();
    let expect: &str = "Another popular scripture is **John 3:16]], it's quoted often.";
    let got = surround(&input, "**", "]]");
    assert_eq!(got, expect);
}

#[test]
fn t_add_element_prefix_multi() {
    let input: &str = "Other popular scriptures include John 3:16, Matthew 24:14, and Psalm 83:18, they are quoted often.";
    let expect: &str = "Other popular scriptures include **John 3:16]], **Matthew 24:14]], and **Psalm 83:18]], they are quoted often.";
    let got = surround(input, "**", "]]");
    assert_eq!(got, expect);
}

#[test]
fn t_add_element_prefix_ranged_multi() {
    let input: &str = "Other popular scriptures include John 3:16, 17, Matthew 24:14-16, and Psalm 83:18, 17-20, they are quoted often.";
    let expect: &str = "Other popular scriptures include **John 3:16, 17]], **Matthew 24:14-16]], and **Psalm 83:18, 17-20]], they are quoted often.";
    let got = surround(input, "**", "]]");
    assert_eq!(got, expect);
}

#[test]
fn t_add_element_prefix_multi_no_scriptures() {
    let input: &str = "There are no scriptures in this line.";
    let expect: &str = "There are no scriptures in this line.";
    let got = surround(input, "**", "]]");
    assert_eq!(got, expect);
}

#[test]
fn is_prefix() {
    let text: &str = "Testing";
    let result_true: Script = Script::new(text).prefix("true");
    let result_false: Script = Script::new(text);
    assert!(result_true.is_prefix());
    assert!(!result_false.is_prefix());
}

#[test]
fn is_postfix() {
    let text: &str = "Testing";
    let result_true: Script = Script::new(text).postfix("true");
    let result_false: Script = Script::new(text);
    assert!(result_true.is_postfix());
    assert!(!result_false.is_postfix());
}

#[test]
fn find_slice_1() {
    let text: &str = "A popular scripture is John 3:16.";
    let expect: Vec<(usize, usize)> = vec![(23, 32)];
    let result: Script = Script::new(text);
    assert_eq!(result.get_locations().slices, expect);
}

#[test]
fn find_slice_2() {
    let text: &str = "John 3:16 and Matthew 24:14";
    let expect: Vec<(usize, usize)> = vec![(0, 9), (14, 27)];
    let result: Script = Script::new(text);
    assert_eq!(result.get_locations().slices, expect);
}

#[test]
fn find_slice_3() {
    let text: &str = "John 3:16, Mathew 24:14, and Psalms 83:18 are commonly used.";
    let result: Script = Script::new(text);
    assert_eq!(result.get_locations().slices, vec![(0, 9), (11, 23), (29, 41)]);
}

#[test]
fn single_scripture() {
    let text: &str = "John 3:16";
    let expect: &str = "[John 3:16]";
    let got: String = Script::new(text).prefix("[").postfix("]").surround().get_text();
    assert_eq!(got, expect);
}

#[test]
fn add_element_prefix_single_none() {
    let text: &str = "Another popular scripture is John 3:16, it's quoted often.";
    let expect: &str = "Another popular scripture is John 3:16, it's quoted often.";
    let result: String = Script::new(text).surround().get_text();
    assert_eq!(result, expect)
}

#[test]
fn add_element_prefix_single() {
    let text: &str = "Another popular scripture is John 3:16, it's quoted often.";
    let expect: &str = "Another popular scripture is [John 3:16, it's quoted often.";
    let result: String = Script::new(text).prefix("[").surround().get_text();
    assert_eq!(result, expect);
}

#[test]
fn add_element_prefix_single_to_string() {
    let text: String = "Another popular scripture is John 3:16, it's quoted often.".to_string();
    let expect: &str = "Another popular scripture is [John 3:16, it's quoted often.";
    let result: String = Script::new(&text).prefix("[").surround().get_text();
    assert_eq!(result, expect);
}

#[test]
fn add_element_prefix_multi() {
    let text: &str =
        "Two popular scripture are John 3:16 and Matthew 24:14. They are quoted often.";
    let expect: &str = "Two popular scripture are [prefix]John 3:16 and [prefix]Matthew 24:14. They are quoted often.";
    let got: String = Script::new(text).prefix("[prefix]").surround().get_text();
    assert_eq!(got, expect)
}

#[test]
fn add_element_postfix_single() {
    let text: &str = "Another popular scripture is John 3:16, it's quoted often.";
    let expect: &str = "Another popular scripture is John 3:16[postfix], it's quoted often.";
    let got: String = Script::new(text).postfix("[postfix]").surround().get_text();
    assert_eq!(got, expect)
}

#[test]
fn add_element_postfix_multi() {
    let text: &str =
        "Two popular scriptures are John 3:16 and Mathew 24:14. They are quoted often.";
    let expect: &str =
        "Two popular scriptures are John 3:16[postfix] and Mathew 24:14. They are quoted often.";
    let got: String = Script::new(text).postfix("[postfix]").surround().get_text();
    assert_eq!(got, expect)
}

#[test]
fn single_url() {
    let text: &str = "A popular scriptures is John 3:16. It is quoted often.";
    let expect: String = "A popular scriptures is [John 3:16](https://www.jw.org/en/library/bible/study-bible/books/john/3/#v43003016). It is quoted often.".to_string();
    let got: String = Script::new(text).url(&Site::JwOrg).unwrap().get_text();
    assert_eq!(got, expect)
}

#[test]
fn single_url_abbr() {
    let text: &str = "A popular scriptures is Joh 3:16. It is quoted often.";
    let expect: String = "A popular scriptures is [Joh 3:16](https://www.jw.org/en/library/bible/study-bible/books/john/3/#v43003016). It is quoted often.".to_string();
    let got: String = Script::new(text).url(&Site::JwOrg).unwrap().get_text();
    assert_eq!(got, expect)
}

#[test]
fn get_scripture() {
    let text: &str =
        "Two popular scriptures are John 3:16 and Matthew 24:14. They are quoted often.";
    let expect: Vec<&str> = vec!["John 3:16", "Matthew 24:14"];
    let got: Vec<String> = Script::new(text).get_scriptures();
    assert_eq!(got, expect)
}

#[test]
fn get_from_slice() {
    let text: &str =
        "Two popular scriptures are John 3:16 and Matthew 24:14. They are quoted often.";
    let expect = "popular".to_string();
    let got: String = Script::new(text).get_from_slice(&(4, 11));
    assert_eq!(got, expect)
}

#[test]
fn get_locations1() {
    let text: &str = "John 3:16 is well known.";
    let expect: Locations = Locations { slices: vec![(0, 9)], string: text.into() };
    let got: Locations = Script::new(text).get_locations();
    assert_eq!(got, expect);
}

#[test]
fn get_locations2() {
    let text: &str = "John 3:16 is well known and if you know it, then it's easy to remember Timothy 3:16, another important scripture.";
    let expect: Locations = Locations { slices: vec![(0, 9), (71, 83)], string: text.into() };
    let got: Locations = Script::new(text).get_locations();
    assert_eq!(got, expect);
}

#[test]
fn get_scripts_test1() {
    let text: &str = "A popular scripture is John 3:16, it is quoted often.";
    let expected: Vec<String> = vec!["John 3:16".to_string()];
    assert_eq!(expected, get_scriptures(text));
}

#[test]
fn get_scripts_test2() {
    let text: &str = "Two popular scriptures are Genesis 1:1 and John 3:16, they are quoted often.";
    let expected: Vec<String> = vec!["Genesis 1:1".to_string(), "John 3:16".to_string()];
    assert_eq!(expected, get_scriptures(text));
}

#[test]
fn get_scripts_test3() {
    let text: &str = "A popular scripture is re 12:12, it is quoted often.";
    let expected: Vec<String> = vec!["re 12:12".to_string()];
    assert_eq!(expected, get_scriptures(text));
}

#[test]
fn get_scripts_test4() {
    let text: &str = "The following is testing if a fake scripture such as Mary 2:23 is captured.";
    let expected: Vec<String> = vec![];
    assert_eq!(expected, get_scriptures(text));
}

#[test]
fn get_scripts_test5() {
    let text: &str = r#"
    The following is testing if a fake scripture such as Mary 2:23 is captured.
    But really, what I am really interested in is having multiple lines fed into
    `get_scruptures()` to see if it works okay. (Genesis 1:1). This should work,
    but it is always safer to test it. Re 12:12 is used in my tests quite a bit, it seems.

    Let me enter another scripture, Matthew 3:14, here.
    "#;
    let expected: Vec<String> = vec!["Genesis 1:1".into(), "Re 12:12".into(), "Matthew 3:14".into()];
    assert_eq!(expected, get_scriptures(text));
}

#[test]
fn get_scripts_test6() {
    let text: &str = "Testing more than one verse: Psalms 3:1,2,3";
    let expected: Vec<String> = vec!["Psalms 3:1,2,3".into()];
    assert_eq!(expected, get_scriptures(text));
}

#[test]
fn get_scripts_test7() {
    let text: &str = "Testing a range of verses -- Psalms 3:1-3";
    let expected: Vec<String> = vec!["Psalms 3:1-3".into()];
    assert_eq!(expected, get_scriptures(text));
}

#[test]
fn surround_scripts_test1() {
    let text: &str = "A scripture we should keep in mind is Timothy 3:16.";
    let expected: String = "A scripture we should keep in mind is Timothy 3:16.".into();
    assert_eq!(expected, surround(text, "__", "__"));
}

#[test]
fn surround_scripts_test2() {
    let text: &str = "All friends should practice Proverbs 17:17!";
    let expected: String = "All friends should practice <bold>Proverbs 17:17</bold>!".into();
    assert_eq!(expected, surround(text, "<bold>", "</bold>"));
}

#[test]
fn surround_scripts_test3() {
    let text: &str = "Two popular scriptures are Genesis 1:1 and John 3:16, they are quoted often.";
    let expected: String = "Two popular scriptures are **Genesis 1:1** and **John 3:16**, they are quoted often.".into();
    assert_eq!(expected, surround(text, "**", "**"));
}

#[test]
fn surround_scripts_test4() {
    let text: &str = "All friends should practice Proverbs 17:17,18,19!";
    let expected: String = "All friends should practice <bold>Proverbs 17:17,18,19</bold>!".into();
    assert_eq!(expected, surround(text, "<bold>", "</bold>"));
}

#[test]
fn surround_scripts_test5() {
    let text: &str = "All friends should practice Proverbs 17:17-19!";
    let expected: String = "All friends should practice <bold>Proverbs 17:17-19</bold>!".into();
    assert_eq!(expected, surround(text, "<bold>", "</bold>"));
}

#[test]
fn url_scripts_test1() {
    let text: &str = "All friends should practice Proverbs 17:17!";
    let expected: String = "All friends should practice [Proverbs 17:17](https://www.jw.org/en/library/bible/study-bible/books/proverbs/17/#v20017017)!".into();
    assert_eq!(expected, url(&JwOrg, text).unwrap());
}

#[test]
fn url_reports_chapter_groups() {
    let got = url(&JwOrg, "Compare John 3:16; 4:5 with Re 12:12.");
    assert_eq!(got, Err(BibleError::UrlBuildError("16; 4:5".to_string())));
}

#[test]
fn url_fails_on_unknown_book() {
    let got = url(&JwOrg, "Mary 2:23 and Joh 3:16");
    assert_eq!(got, Err(BibleError::BookNotFound("Mary".to_string())));
    let scripted = Script::new("Joh 3:16 and Mary 2:23").url(&Site::JwOrg);
    assert_eq!(scripted.err(), Some(BibleError::BookNotFound("Mary".to_string())));
}

#[test]
fn url_reports_last_failure() {
    let got = url(&JwOrg, "Mary 2:23 and John 3:16; 4:5");
    assert_eq!(got, Err(BibleError::UrlBuildError("16; 4:5".to_string())));
    let got = url(&JwOrg, "John 3:16; 4:5 and Mary 2:23");
    assert_eq!(got, Err(BibleError::BookNotFound("Mary".to_string())));
}

#[test]
fn url_uses_first_verse_of_list() {
    let got = url(&JwOrg, "Psalm 83:18, 17-20").unwrap();
    assert_eq!(got, "[Psalm 83:18, 17-20](https://www.jw.org/en/library/bible/study-bible/books/psalms/83/#v19083018)");
}

#[test]
fn url_chapter_only_pads_verse() {
    let got = url(&JwOrg, "See: 1 John 4").unwrap();
    assert_eq!(got, "See: [1 John 4](https://www.jw.org/en/library/bible/study-bible/books/1 john/4/#v62004000)");
}

#[test]
fn url_en_dash_range() {
    let got = url(&JwOrg, "Job 36:26\u{2013}28").unwrap();
    assert_eq!(got, "[Job 36:26\u{2013}28](https://www.jw.org/en/library/bible/study-bible/books/job/36/#v18036026-v18036028)");
}
