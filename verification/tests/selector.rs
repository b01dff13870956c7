use conapp::css::{Matcher, Selector};

#[test]
fn basic_parse() {
    let id = Selector::new("#id");
    assert_eq!(id.matchers, vec![Matcher::Id("id".to_owned())]);

    let tag = Selector::new("tag");
    assert_eq!(tag.matchers, vec![Matcher::Tag("tag".to_owned())]);

    let star_class = Selector::new("*.class");
    assert_eq!(
        star_class.matchers,
        vec![Matcher::Class("class".to_owned())]
    );

    let class = Selector::new(".class");
    assert_eq!(class.matchers, vec![Matcher::Class("class".to_owned())]);

    let not_class = Selector::new(".not(class)");
    assert_eq!(
        not_class.matchers,
        vec![Matcher::NotClass("class".to_owned())]
    );

    let double_class = Selector::new(".classA.classB");
    assert_eq!(
        double_class.matchers,
        vec![
            Matcher::Class("classA".to_owned()),
            Matcher::Class("classB".to_owned())
        ]
    );

    let prop = Selector::new(":prop");
    assert_eq!(prop.matchers, vec![Matcher::Prop("prop".to_owned())]);

    let star_prop = Selector::new("*:prop");
    assert_eq!(star_prop.matchers, vec![Matcher::Prop("prop".to_owned())]);

    let not_prop = Selector::new(":not(prop)");
    assert_eq!(not_prop.matchers, vec![Matcher::NotProp("prop".to_owned())]);

    let double_prop = Selector::new(":propA:propB");
    assert_eq!(
        double_prop.matchers,
        vec![
            Matcher::Prop("propA".to_owned()),
            Matcher::Prop("propB".to_owned())
        ]
    );

    let tag_prop = Selector::new("tag:prop");
    assert_eq!(
        tag_prop.matchers,
        vec![
            Matcher::Tag("tag".to_owned()),
            Matcher::Prop("prop".to_owned())
        ]
    );

    let all = Selector::new("tag#id.class:prop");
    assert_eq!(
        all.matchers,
        vec![
            Matcher::Tag("tag".to_owned()),
            Matcher::Id("id".to_owned()),
            Matcher::Class("class".to_owned()),
            Matcher::Prop("prop".to_owned())
        ]
    );
}

#[test]
fn parent_parse() {
    let div_p = Selector::new("div > p");
    assert_eq!(
        div_p.matchers,
        vec![
            Matcher::Parent(Selector::new("div")),
            Matcher::Current(Selector::new("p")),
        ]
    );

    match "div + p".parse::<Selector>() {
        Err(_) => {}
        Ok(_) => panic!("invalid selector parse - should error"),
    }
}

#[test]
fn ancestor_parse() {
    let div_p = Selector::new("div p");
    assert_eq!(
        div_p.matchers,
        vec![
            Matcher::Ancestor(Selector::new("div")),
            Matcher::Current(Selector::new("p")),
        ]
    );
}
