use kakashi::json::Json;
use kakashi::reshape::{extract_texts, group_completions, reshape_completions};

fn text(s: &str) -> Json {
    Json::Text(s.to_string())
}

fn choice(s: &str, index: u32) -> Json {
    Json::Object(vec![
        ("text".to_string(), text(s)),
        ("index".to_string(), Json::Number(index.to_string())),
        ("finish_reason".to_string(), text("stop")),
    ])
}

#[test]
fn single_prompt_with_one_completion_gives_the_first_choice() {
    let choices = vec![choice("12", 0)];
    let out = reshape_completions(choices, 1, false, true);
    assert_eq!(out, vec![choice("12", 0)]);
}

#[test]
fn single_prompt_keeps_only_the_first_of_several() {
    let choices = vec![choice("a", 0), choice("b", 1)];
    let out = reshape_completions(choices, 1, true, true);
    assert_eq!(out, vec![text("a")]);
}

#[test]
fn three_completions_for_two_prompts_give_two_groups() {
    let choices = vec![
        choice("p0c0", 0),
        choice("p0c1", 1),
        choice("p0c2", 2),
        choice("p1c0", 3),
        choice("p1c1", 4),
        choice("p1c2", 5),
    ];
    let out = reshape_completions(choices, 3, false, false);
    assert_eq!(
        out,
        vec![
            Json::Array(vec![choice("p0c0", 0), choice("p0c1", 1), choice("p0c2", 2)]),
            Json::Array(vec![choice("p1c0", 3), choice("p1c1", 4), choice("p1c2", 5)]),
        ]
    );
}

#[test]
fn texts_are_grouped_per_prompt() {
    let choices = vec![choice("a", 0), choice("b", 1), choice("c", 2), choice("d", 3)];
    let out = reshape_completions(choices, 2, true, false);
    assert_eq!(
        out,
        vec![
            Json::Array(vec![text("a"), text("b")]),
            Json::Array(vec![text("c"), text("d")]),
        ]
    );
}

#[test]
fn single_prompt_with_several_completions_gives_one_group() {
    let choices = vec![choice("a", 0), choice("b", 1), choice("c", 2)];
    let out = reshape_completions(choices, 3, true, true);
    assert_eq!(out, vec![Json::Array(vec![text("a"), text("b"), text("c")])]);
}

#[test]
fn a_short_last_group_holds_the_remainder() {
    let choices = vec![text("a"), text("b"), text("c"), text("d"), text("e")];
    let out = group_completions(choices, 2);
    assert_eq!(
        out,
        vec![
            Json::Array(vec![text("a"), text("b")]),
            Json::Array(vec![text("c"), text("d")]),
            Json::Array(vec![text("e")]),
        ]
    );
}

#[test]
fn one_completion_per_prompt_is_not_grouped() {
    let choices = vec![choice("a", 0), choice("b", 1)];
    let out = reshape_completions(choices, 1, false, false);
    assert_eq!(out, vec![choice("a", 0), choice("b", 1)]);
    let none = reshape_completions(vec![choice("a", 0)], 0, false, false);
    assert_eq!(none, vec![choice("a", 0)]);
}

#[test]
fn no_choices_of_a_list_give_nothing() {
    assert!(reshape_completions(Vec::new(), 1, true, false).is_empty());
    assert!(reshape_completions(Vec::new(), 4, false, false).is_empty());
}

#[test]
fn a_choice_without_text_gives_null() {
    let choices = vec![
        Json::Object(vec![("index".to_string(), Json::Number("0".to_string()))]),
        text("bare"),
        choice("kept", 2),
    ];
    assert_eq!(extract_texts(choices), vec![Json::Null, Json::Null, text("kept")]);
}
