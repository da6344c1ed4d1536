use chumby::ui_policy::{
    apply, parse, parse_selector, pick_target, rule_applies, rules_from, target_writes, Action,
    PropValue, Resolution, Segment, TomlValue,
};

#[test]
fn test_parse_rules_and_selectors() {
    let text = r#"
[[rule]]
id        = "a"
action    = "disable"
selectors = ["controlPanel/depth:15/name:timePanel/ntpButton"]

[[rule]]
id        = "bad-action"
action    = "explode"
selectors = ["x"]

[[rule]]
id        = "no-selectors"
action    = "hide"
selectors = []
"#;
    let rules = parse(text);
    // The malformed rules are skipped with a warning, not fatal.
    assert_eq!(rules.len(), 1);
    assert_eq!(rules[0].id, "a");
    assert_eq!(rules[0].action, Action::Disable);
    let sel = &rules[0].selectors[0];
    assert_eq!(sel.len(), 4);
    assert!(matches!(&sel[0], Segment::Name(n) if n == "controlPanel"));
    assert!(matches!(sel[1], Segment::Depth(15)));
    assert!(matches!(&sel[2], Segment::Name(n) if n == "timePanel"));
    assert!(matches!(&sel[3], Segment::Name(n) if n == "ntpButton"));
}

#[test]
fn selectors_trim_and_fall_back_to_names() {
    let s = parse_selector(" a / depth: -3 //name:b/depth:x/ ");
    assert_eq!(
        s,
        vec![
            Segment::Name("a".into()),
            Segment::Depth(-3),
            Segment::Name("b".into()),
            Segment::Name("depth:x".into()),
        ]
    );
    assert!(parse_selector("///").is_empty());
}

#[test]
fn rule_fields_and_gates() {
    let rules = parse(
        r#"
[[rule]]
action = "readonly"
selectors = ["x", 3, "y"]
only_without_chumby_access = true
only_without_intro = 1
"#,
    );
    assert_eq!(rules.len(), 1);
    let r = &rules[0];
    assert_eq!(r.id, "<unnamed>");
    assert_eq!(r.action, Action::Readonly);
    assert_eq!(r.selectors.len(), 2);
    assert!(r.only_without_chumby_access);
    assert!(!r.only_without_brightness);
    assert!(!r.only_without_intro);
    assert!(rule_applies(r, false, true, true));
    assert!(!rule_applies(r, true, false, false));
    assert!(parse("not toml at [").is_empty());
    assert!(parse("x = 1").is_empty());
}

#[test]
fn rules_from_a_hand_built_document() {
    let entry = TomlValue::Table(vec![
        ("action".to_string(), TomlValue::String("hide".to_string())),
        ("id".to_string(), TomlValue::String("h".to_string())),
        (
            "selectors".to_string(),
            TomlValue::Array(vec![TomlValue::String("root/depth:2".to_string())]),
        ),
    ]);
    let doc = TomlValue::Table(vec![("rule".to_string(), TomlValue::Array(vec![entry, TomlValue::Integer(1)]))]);
    let rules = rules_from(&doc);
    assert_eq!(rules.len(), 1);
    assert_eq!(rules[0].id, "h");
    assert_eq!(rules[0].action, Action::Hide);
    assert_eq!(rules[0].selectors[0], vec![Segment::Name("root".into()), Segment::Depth(2)]);
}

#[test]
fn first_full_selector_wins() {
    assert_eq!(pick_target(&vec![]), (None, 0));
    assert_eq!(pick_target(&vec![Resolution::ParentOnly, Resolution::Unresolved]), (None, 1));
    assert_eq!(pick_target(&vec![Resolution::Unresolved, Resolution::ParentOnly]), (None, 0));
    assert_eq!(
        pick_target(&vec![Resolution::ParentOnly, Resolution::Full, Resolution::Full]),
        (Some(1), 2)
    );
}

#[test]
fn a_pass_acts_on_standing_rules_with_targets() {
    let rules = parse(
        r#"
[[rule]]
id = "one"
action = "hide"
selectors = ["a", "b"]

[[rule]]
id = "two"
action = "disable"
selectors = ["c"]
only_without_brightness = true

[[rule]]
id = "three"
action = "readonly"
selectors = ["d"]
"#,
    );
    let res = vec![
        vec![Resolution::Unresolved, Resolution::Full],
        vec![Resolution::Full],
        vec![Resolution::ParentOnly],
    ];
    let steps = apply(&rules, false, true, false, &res);
    assert_eq!(steps.len(), 1);
    assert_eq!((steps[0].rule, steps[0].selector, steps[0].action), (0, 1, Action::Hide));
    let steps = apply(&rules, false, false, false, &res);
    assert_eq!(steps.len(), 2);
    assert_eq!((steps[1].rule, steps[1].selector, steps[1].action), (1, 0, Action::Disable));
}

#[test]
fn action_writes() {
    let w = target_writes(Action::Disable);
    assert_eq!(w.len(), 2);
    assert_eq!((w[0].name, w[0].value), ("enabled", PropValue::Bool(false)));
    assert_eq!((w[1].name, w[1].value), ("_alpha", PropValue::Number(45)));
    let w = target_writes(Action::Readonly);
    assert_eq!((w[1].name, w[1].value), ("type", PropValue::Text("dynamic")));
    assert_eq!(target_writes(Action::Hide)[0].name, "_visible");
}
