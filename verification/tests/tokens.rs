use conapp::css::tokens::css_captures;
use conapp::css::{Matcher, Selector};

const PATTERN: &str = r"(?:(\w+|\*|\$)|#(\w+)|\.([^\.: ]+))|(?::(?:(?:not\(\.([^\)]+)\))|(?:not\(:([^\)]+)\))|([^\.: ]+)))";

type Groups = (Option<String>, Option<String>, Option<String>, Option<String>);

fn with_regex(text: &str) -> Vec<Groups> {
    let re = regex::Regex::new(PATTERN).unwrap();
    re.captures_iter(text)
        .map(|c| {
            let g = |i: usize| c.get(i).map(|m| m.as_str().to_string());
            (g(1), g(2), g(3), g(6))
        })
        .collect()
}

fn tokens(text: &str) -> Vec<Groups> {
    let v: Vec<char> = text.chars().collect();
    css_captures(&v)
}

#[test]
fn tokens_agree_with_the_pattern() {
    let cases = [
        "tag#id.class:prop",
        "*.class",
        "$",
        ".not(class)",
        ":not(prop)",
        ":not(.x)",
        ":not(:x)",
        ":not(.x",
        ":not(.)",
        ".my-class",
        "#my-id",
        "a.b:c.d#e",
        "##x..y::z",
        "héllo#wörld.çlass",
        "x_1:first-child",
        "-+=?",
        "",
        "#.:",
        "div:hover",
        "日本.語:文",
        "a\u{301}b",
    ];
    for c in cases.iter() {
        assert_eq!(tokens(c), with_regex(c), "text {:?}", c);
    }
}

#[test]
fn dashed_class_is_one_class() {
    let sel = Selector::new(".my-class");
    assert_eq!(sel.matchers, vec![Matcher::Class("my-class".to_owned())]);
    assert_eq!(
        tokens(".my-class"),
        vec![(None, None, Some("my-class".to_string()), None)]
    );
}

#[test]
fn dropped_not_forms_give_no_matcher() {
    assert_eq!(tokens(":not(.x)"), vec![(None, None, None, None)]);
    assert_eq!(tokens("a:not(:x)"), vec![
        (Some("a".to_string()), None, None, None),
        (None, None, None, None)
    ]);
}

#[test]
fn selector_scores() {
    assert_eq!(Selector::new("tag#id.class:prop").score(), 1112);
    assert_eq!(Selector::new("div > p").score(), 200);
    assert_eq!(Selector::new("*").score(), 0);
    assert_eq!(Selector::new("$").score(), 10000);
}
