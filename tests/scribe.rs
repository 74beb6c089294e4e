use est::Scribe;

#[test]
fn t_is_prefix() {
    let text: String = "Testing".to_string();
    let prefix: Option<String> = Some("true".to_string());
    let result_true = Scribe::new(text.clone(), prefix, None);
    let result_false = Scribe::new(text, None, None);
    assert!(result_true.is_prefix());
    assert!(!result_false.is_prefix());
}

#[test]
fn t_is_postfix() {
    let text: String = "Testing".to_string();
    let postfix: Option<String> = Some("true".to_string());
    let result_true = Scribe::new(text.clone(), None, postfix);
    let result_false = Scribe::new(text, None, None);
    assert!(result_true.is_postfix());
    assert!(!result_false.is_postfix());
}

#[test]
fn souround_t_find_1() {
    let text = "A popular scripture is John 3:16.".to_string();
    let result = Scribe::new(text, None, None);
    assert_eq!(result.slices(), vec![(23, 32)]);
}

#[test]
fn souround_t_find_2() {
    let text = "John 3:16 and Matthew 24:14".to_string();
    let result = Scribe::new(text, None, None);
    assert_eq!(result.slices(), vec![(0, 9), (14, 27)]);
}

#[test]
fn souround_t_find_3() {
    let text = "John 3:16, Mathew 24:14, and Psalms 83:18 are commonly used.".to_string();
    let result = Scribe::new(text, None, None);
    assert_eq!(result.slices(), vec![(0, 9), (11, 23), (29, 41)]);
}

#[test]
fn souround_t_add_element_prefix_single() {
    let text = "Another popular scripture is John 3:16, it's quoted often.".to_string();
    let result = Scribe::new(text, Some("[".to_string()), None);
    let result = result.surround();
    assert_eq!(
        result.get_text(),
        String::from("Another popular scripture is [John 3:16, it's quoted often.")
    );
}

#[test]
fn t_add_element_prefix_single_none() {
    let text = "Another popular scripture is John 3:16, it's quoted often.".to_string();
    let result = Scribe::new(text, None, None);
    let result = result.surround();
    assert_eq!(
        result.get_text(),
        String::from("Another popular scripture is John 3:16, it's quoted often.")
    )
}

#[test]
fn souround_t_add_element_prefix_multi_1() {
    let text = "Two popular scripture are John 3:16 and Matthew 24:14. They are quoted often."
        .to_string();
    let result = Scribe::new(text, Some("[".to_string()), None);
    let result = result.surround();
    assert_eq!(
        result.get_text(),
        String::from("Two popular scripture are [John 3:16 and [Matthew 24:14. They are quoted often.")
    )
}

#[test]
fn souround_t_add_element_prefix_multi_2() {
    let text = "Two popular scripture are John 3:16 and Matthew 24:14. They are quoted often."
        .to_string();
    let result = Scribe::new(text, Some("[prefix]".to_string()), None);
    let result = result.surround();
    assert_eq!(
        result.get_text(),
        String::from(
            "Two popular scripture are [prefix]John 3:16 and [prefix]Matthew 24:14. They are quoted often."
        )
    )
}

#[test]
fn t_add_element_prefix_multi_3() {
    let text = "Three popular scripture are John 3:16, Matthew 24:14 and also Psalms 83:18 . They are quoted often."
        .to_string();
    let result = Scribe::new(text, Some("=>".to_string()), None);
    let result = result.surround();
    assert_eq!(
        result.get_text(),
        String::from(
            "Three popular scripture are =>John 3:16, =>Matthew 24:14 and also =>Psalms 83:18 . They are quoted often."
        )
    )
}

#[test]
fn souround_t_add_element_postfix() {
    let text = "Another popular scripture is John 3:16, it's quoted often.".to_string();
    let result = Scribe::new(text, None, Some("[postfix]".to_string()));
    let result = result.surround();
    assert_eq!(
        result.get_text(),
        String::from("Another popular scripture is John 3:16[postfix], it's quoted often.")
    )
}

#[test]
fn t_add_element_postfix_single_none() {
    let text = "Another popular scripture is John 3:16, it's quoted often.".to_string();
    let result = Scribe::new(text, None, None);
    let result = result.surround();
    assert_eq!(
        result.get_text(),
        String::from("Another popular scripture is John 3:16, it's quoted often.")
    )
}

#[test]
fn souround_t_add_element_postfix_multi() {
    let text = "Two popular scriptures are John 3:16 and Mathew 24:14. They are quoted often."
        .to_string();
    let result = Scribe::new(text, None, Some("[postfix]".to_string()));
    let result = result.surround();
    assert_eq!(
        result.get_text(),
        String::from(
            "Two popular scriptures are John 3:16[postfix] and Mathew 24:14[postfix]. They are quoted often."
        )
    )
}

#[test]
fn parsers_t_find_1() {
    let text = "A popular scripture is John 3:16.".to_string();
    let result = Scribe::new(text, None, None);
    assert_eq!(result.slices(), vec![(23, 32)])
}

#[test]
fn parsers_t_find_2() {
    let text = "John 3:16 and Matthew 24:14".to_string();
    let result = Scribe::new(text, None, None);
    assert_eq!(result.slices(), vec![(0, 9), (14, 27)])
}

#[test]
fn parsers_t_find_3() {
    let text = "John 3:16, Mathew 24:14, and Psalms 83:18 are commonly used.".to_string();
    let result = Scribe::new(text, None, None);
    assert_eq!(result.slices(), vec![(0, 9), (11, 23), (29, 41)])
}

#[test]
fn parsers_t_add_element_prefix_single() {
    let text = "Another popular scripture is John 3:16, it's quoted often.".to_string();
    let result = Scribe::new(text, Some("this is a prefix ".to_string()), None);
    let result = result.surround();
    assert_eq!(
        result.get_text(),
        String::from("Another popular scripture is this is a prefix John 3:16, it's quoted often.")
    )
}

#[test]
fn parsers_t_add_element_prefix_multi_1() {
    let text = "Two popular scripture are John 3:16 and Matthew 24:14. They are quoted often."
        .to_string();
    let result = Scribe::new(text, Some("[".to_string()), None);
    let result = result.surround();
    assert_eq!(
        result.get_text(),
        String::from("Two popular scripture are [John 3:16 and [Matthew 24:14. They are quoted often.")
    )
}

#[test]
fn parsers_t_add_element_prefix_multi_2() {
    let text = "Two popular scripture are John 3:16 and Matthew 24:14. They are quoted often."
        .to_string();
    let result = Scribe::new(text, Some("[prefix]".to_string()), None);
    let result = result.surround();
    assert_eq!(
        result.get_text(),
        String::from(
            "Two popular scripture are [prefix]John 3:16 and [prefix]Matthew 24:14. They are quoted often."
        )
    )
}

#[test]
fn parsers_t_add_element_postfix() {
    let text = "Another popular scripture is John 3:16, it's quoted often.".to_string();
    let result = Scribe::new(text, None, Some("[postfix]".to_string()));
    let result = result.surround();
    assert_eq!(
        result.get_text(),
        String::from("Another popular scripture is John 3:16[postfix], it's quoted often.")
    )
}

#[test]
fn parsers_t_add_element_postfix_multi() {
    let text = "Two popular scriptures are John 3:16 and Mathew 24:14. They are quoted often."
        .to_string();
    let result = Scribe::new(text, None, Some("[postfix]".to_string()));
    let result = result.surround();
    assert_eq!(
        result.get_text(),
        String::from(
            "Two popular scriptures are John 3:16[postfix] and Mathew 24:14[postfix]. They are quoted often."
        )
    )
}
