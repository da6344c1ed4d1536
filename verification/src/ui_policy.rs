//! Declarative UI policy: neutralize panel controls the host platform does
//! not support, without touching the SWF.
//!
//! The rules are TOML:
//! ```toml
//! [[rule]]
//! id        = "clock-ntp-toggle"
//! action    = "disable"            # hide | disable | readonly
//! selectors = [
//!   "controlPanel/depth:15/depth:1/name:timePanel/name:ntpButton",
//! ]
//! ```
//! A selector is a `/`-separated path from the SWF root. Each segment is
//! `name:<instanceName>` (bare text means the same) or `depth:<N>` (raw
//! PlaceObject tag depth). Alternatives are tried in order; the first fully
//! resolved one wins. A malformed rule is skipped rather than fatal.

use vstd::prelude::*;
use crate::text::{
    chars_of, eq_str, has_prefix, parse_i32, parse_int, split_char, split_chars, string_of,
    strip_prefix, trim, trim_chars, views,
};

verus! {

#[verifier::external_type_specification]
#[verifier::external_body]
pub struct ExTomlValue(toml::Value);

/// A TOML value as the library reads it: strings, integers, booleans,
/// arrays and tables (keys in the order `toml::Table` iterates them, which
/// is sorted). A float or a datetime is known by its kind only.
#[derive(Debug)]
pub enum TomlValue {
    String(String),
    Integer(i64),
    Float,
    Boolean(bool),
    Datetime,
    Array(Vec<TomlValue>),
    Table(Vec<(String, TomlValue)>),
}

/// What the `toml` crate reads from a document (its root table), or `None`
/// when the text is not TOML. TOML's grammar is the crate's; this names its
/// answer.
pub uninterp spec fn toml_parse(text: Seq<char>) -> Option<TomlValue>;

/// `toml::Value`, one variant for one, into the library's tree.
#[verifier::external_body]
fn toml_tree(v: toml::Value) -> TomlValue {
    match v {
        toml::Value::String(s) => TomlValue::String(s),
        toml::Value::Integer(i) => TomlValue::Integer(i),
        toml::Value::Float(_) => TomlValue::Float,
        toml::Value::Boolean(b) => TomlValue::Boolean(b),
        toml::Value::Datetime(_) => TomlValue::Datetime,
        toml::Value::Array(a) => TomlValue::Array(a.into_iter().map(toml_tree).collect()),
        toml::Value::Table(t) => TomlValue::Table(t.into_iter().map(|(k, x)| (k, toml_tree(x))).collect()),
    }
}

/// `<toml::Table as FromStr>::from_str` (`toml::from_str`), the table then
/// taken as the library's tree. Claimed: the result is a function of the
/// text alone, named `toml_parse`; nothing is claimed of TOML's grammar.
#[verifier::external_body]
pub(crate) fn parse_toml(text: &str) -> (r: Option<TomlValue>)
    ensures
        r == toml_parse(text@),
{
    text.parse::<toml::Table>().ok().map(|t| toml_tree(toml::Value::Table(t)))
}

/// The first entry of a table under `key`.
pub open spec fn table_find(t: Seq<(String, TomlValue)>, key: Seq<char>) -> Option<TomlValue>
    decreases t.len(),
{
    if t.len() == 0 {
        None
    } else if t[0].0@ == key {
        Some(t[0].1)
    } else {
        table_find(t.drop_first(), key)
    }
}

/// `toml::Value::get` with a string key: a table's entry, `None` for
/// anything else.
pub open spec fn toml_get(v: TomlValue, key: Seq<char>) -> Option<TomlValue> {
    match v {
        TomlValue::Table(t) => table_find(t@, key),
        _ => None,
    }
}

/// `as_str` of a looked-up value.
pub open spec fn toml_str(v: Option<TomlValue>) -> Option<Seq<char>> {
    match v {
        Some(TomlValue::String(s)) => Some(s@),
        _ => None,
    }
}

/// `as_bool` of a looked-up value, false when absent or not a boolean.
pub open spec fn toml_flag(v: Option<TomlValue>) -> bool {
    match v {
        Some(TomlValue::Boolean(b)) => b,
        _ => false,
    }
}

fn table_get<'a>(t: &'a Vec<(String, TomlValue)>, key: &str) -> (r: Option<&'a TomlValue>)
    ensures
        match r {
            Some(x) => table_find(t@, key@) == Some(*x),
            None => table_find(t@, key@) is None,
        },
{
    let mut i: usize = 0;
    assert(t@.skip(0) =~= t@);
    while i < t.len()
        invariant
            i <= t@.len(),
            table_find(t@, key@) == table_find(t@.skip(i as int), key@),
        decreases t@.len() - i,
    {
        let k = chars_of(t[i].0.as_str());
        if eq_str(&k, key) {
            return Some(&t[i].1);
        }
        proof {
            assert(t@.skip(i as int).drop_first() =~= t@.skip(i + 1));
        }
        i = i + 1;
    }
    None
}

fn get<'a>(v: &'a TomlValue, key: &str) -> (r: Option<&'a TomlValue>)
    ensures
        match r {
            Some(x) => toml_get(*v, key@) == Some(*x),
            None => toml_get(*v, key@) is None,
        },
{
    match v {
        TomlValue::Table(t) => table_get(t, key),
        _ => None,
    }
}

/// What a rule does to its target.
#[derive(Debug, Clone, Copy, PartialEq, Eq)]
pub enum Action {
    /// `_visible = false`.
    Hide,
    /// `enabled = false` on the target and its direct children, `_alpha = 45`.
    Disable,
    /// An input text field becomes dynamic and unselectable.
    Readonly,
}

/// One step of a selector path.
#[derive(Debug, PartialEq, Eq)]
pub enum Segment {
    /// A child by instance name.
    Name(String),
    /// A child by PlaceObject depth.
    Depth(i32),
}

/// A segment as (is a depth, name, depth).
pub open spec fn segment_view(s: Segment) -> (bool, Seq<char>, int) {
    match s {
        Segment::Name(n) => (false, n@, 0),
        Segment::Depth(d) => (true, Seq::empty(), d as int),
    }
}

pub open spec fn segment_views(v: Seq<Segment>) -> Seq<(bool, Seq<char>, int)> {
    v.map_values(|s: Segment| segment_view(s))
}

/// One trimmed, non-empty segment: `depth:<i32>` is a depth, `name:<x>` or
/// bare text (a `depth:` that does not parse too) a name.
pub open spec fn segment_text(seg: Seq<char>) -> (bool, Seq<char>, int) {
    if has_prefix(seg, "depth:"@) {
        match parse_int(trim(seg.skip(6)), 10, true, i32::MIN as int, i32::MAX as int) {
            Some(d) => (true, Seq::empty(), d),
            None => (false, seg, 0),
        }
    } else if has_prefix(seg, "name:"@) {
        (false, seg.skip(5), 0)
    } else {
        (false, seg, 0)
    }
}

/// The segments of `/`-separated pieces, each trimmed, empty ones dropped.
pub open spec fn segments_of(pieces: Seq<Seq<char>>) -> Seq<(bool, Seq<char>, int)>
    decreases pieces.len(),
{
    if pieces.len() == 0 {
        Seq::empty()
    } else {
        let rest = segments_of(pieces.drop_last());
        let p = trim(pieces.last());
        if p.len() == 0 {
            rest
        } else {
            rest.push(segment_text(p))
        }
    }
}

/// The segments of a selector.
pub open spec fn selector_segments(text: Seq<char>) -> Seq<(bool, Seq<char>, int)> {
    segments_of(split_char(text, '/'))
}

fn segment_of(seg: &[char]) -> (r: Segment)
    ensures
        segment_view(r) == segment_text(seg@),
{
    proof {
        reveal_strlit("depth:");
        reveal_strlit("name:");
    }
    if let Some(depth) = strip_prefix(seg, "depth:") {
        let d = trim_chars(&depth);
        match parse_i32(&d) {
            Some(n) => Segment::Depth(n),
            None => Segment::Name(string_of(seg)),
        }
    } else if let Some(name) = strip_prefix(seg, "name:") {
        Segment::Name(string_of(&name))
    } else {
        Segment::Name(string_of(seg))
    }
}

/// A selector's path: `/`-separated, each segment trimmed, empty ones
/// dropped.
pub fn parse_selector(text: &str) -> (r: Vec<Segment>)
    ensures
        segment_views(r@) == selector_segments(text@),
{
    let s = chars_of(text);
    let pieces = split_chars(&s, '/');
    let mut out: Vec<Segment> = Vec::new();
    let mut i: usize = 0;
    assert(views(pieces@).take(0) =~= Seq::<Seq<char>>::empty());
    assert(segment_views(out@) =~= Seq::<(bool, Seq<char>, int)>::empty());
    while i < pieces.len()
        invariant
            i <= pieces@.len(),
            views(pieces@) == split_char(s@, '/'),
            segment_views(out@) == segments_of(views(pieces@).take(i as int)),
        decreases pieces@.len() - i,
    {
        let p = trim_chars(&pieces[i]);
        proof {
            let v = views(pieces@).take(i + 1);
            assert(v.drop_last() =~= views(pieces@).take(i as int));
            assert(v.last() == pieces@[i as int]@);
        }
        if p.len() > 0 {
            let ghost before = segment_views(out@);
            let seg = segment_of(&p);
            out.push(seg);
            proof {
                assert(segment_views(out@) =~= before.push(segment_view(seg)));
            }
        }
        i = i + 1;
    }
    assert(views(pieces@).take(pieces@.len() as int) =~= views(pieces@));
    out
}


/// One policy rule.
#[derive(Debug)]
pub struct Rule {
    pub id: String,
    pub action: Action,
    /// Alternative paths to the target, tried in order.
    pub selectors: Vec<Vec<Segment>>,
    /// Applies only while chumby.com access is off.
    pub only_without_chumby_access: bool,
    /// Applies only while no brightness backend exists.
    pub only_without_brightness: bool,
    /// Applies only while the intro movie is absent from the rootfs.
    pub only_without_intro: bool,
}

/// A rule as (id, action, selectors, and its three gates).
pub type RuleView = (Seq<char>, Action, Seq<Seq<(bool, Seq<char>, int)>>, bool, bool, bool);

pub open spec fn selector_views(v: Seq<Vec<Segment>>) -> Seq<Seq<(bool, Seq<char>, int)>> {
    v.map_values(|s: Vec<Segment>| segment_views(s@))
}

pub open spec fn rule_view(r: Rule) -> RuleView {
    (
        r.id@,
        r.action,
        selector_views(r.selectors@),
        r.only_without_chumby_access,
        r.only_without_brightness,
        r.only_without_intro,
    )
}

pub open spec fn rule_views(v: Seq<Rule>) -> Seq<RuleView> {
    v.map_values(|r: Rule| rule_view(r))
}

/// The action a rule names.
pub open spec fn action_named(a: Option<Seq<char>>) -> Option<Action> {
    match a {
        Some(s) => if s == "hide"@ {
            Some(Action::Hide)
        } else if s == "disable"@ {
            Some(Action::Disable)
        } else if s == "readonly"@ {
            Some(Action::Readonly)
        } else {
            None
        },
        None => None,
    }
}

/// The strings among an array's elements, in order.
pub open spec fn strings_in(a: Seq<TomlValue>) -> Seq<Seq<char>>
    decreases a.len(),
{
    if a.len() == 0 {
        Seq::empty()
    } else {
        let rest = strings_in(a.drop_last());
        match a.last() {
            TomlValue::String(s) => rest.push(s@),
            _ => rest,
        }
    }
}

/// The selector strings of a rule: the strings of its `selectors` array.
pub open spec fn selector_strings(v: Option<TomlValue>) -> Seq<Seq<char>> {
    match v {
        Some(TomlValue::Array(a)) => strings_in(a@),
        _ => Seq::empty(),
    }
}

/// The rule an entry of `[[rule]]` makes, or `None` when its action is not
/// one of the three or it has no selector.
pub open spec fn rule_of(entry: TomlValue) -> Option<RuleView> {
    let action = action_named(toml_str(toml_get(entry, "action"@)));
    let sels = selector_strings(toml_get(entry, "selectors"@));
    if action is None || sels.len() == 0 {
        None
    } else {
        Some(
            (
                match toml_str(toml_get(entry, "id"@)) {
                    Some(id) => id,
                    None => "<unnamed>"@,
                },
                action.unwrap(),
                sels.map_values(|t: Seq<char>| selector_segments(t)),
                toml_flag(toml_get(entry, "only_without_chumby_access"@)),
                toml_flag(toml_get(entry, "only_without_brightness"@)),
                toml_flag(toml_get(entry, "only_without_intro"@)),
            ),
        )
    }
}

/// The rules of the `[[rule]]` entries, in order, malformed ones skipped.
pub open spec fn rules_in(entries: Seq<TomlValue>) -> Seq<RuleView>
    decreases entries.len(),
{
    if entries.len() == 0 {
        Seq::empty()
    } else {
        let rest = rules_in(entries.drop_last());
        match rule_of(entries.last()) {
            Some(r) => rest.push(r),
            None => rest,
        }
    }
}

/// The rules of a policy document; none when it has no `rule` array.
pub open spec fn policy_rules(doc: Option<TomlValue>) -> Seq<RuleView> {
    match doc {
        Some(d) => match toml_get(d, "rule"@) {
            Some(TomlValue::Array(entries)) => rules_in(entries@),
            _ => Seq::empty(),
        },
        None => Seq::empty(),
    }
}

fn action_of(v: Option<&TomlValue>) -> (r: Option<Action>)
    ensures
        r == action_named(
            toml_str(
                match v {
                    Some(x) => Some(*x),
                    None => None,
                },
            ),
        ),
{
    proof {
        reveal_strlit("hide");
        reveal_strlit("disable");
        reveal_strlit("readonly");
    }
    match v {
        Some(TomlValue::String(s)) => {
            let c = chars_of(s.as_str());
            if eq_str(&c, "hide") {
                Some(Action::Hide)
            } else if eq_str(&c, "disable") {
                Some(Action::Disable)
            } else if eq_str(&c, "readonly") {
                Some(Action::Readonly)
            } else {
                None
            }
        },
        _ => None,
    }
}

fn flag_of(v: Option<&TomlValue>) -> (r: bool)
    ensures
        r == toml_flag(
            match v {
                Some(x) => Some(*x),
                None => None,
            },
        ),
{
    match v {
        Some(TomlValue::Boolean(b)) => *b,
        _ => false,
    }
}

fn selectors_of(v: Option<&TomlValue>) -> (r: Vec<Vec<Segment>>)
    ensures
        selector_views(r@) == selector_strings(
            match v {
                Some(x) => Some(*x),
                None => None,
            },
        ).map_values(|t: Seq<char>| selector_segments(t)),
{
    let mut out: Vec<Vec<Segment>> = Vec::new();
    match v {
        Some(TomlValue::Array(a)) => {
            let mut i: usize = 0;
            assert(a@.take(0) =~= Seq::<TomlValue>::empty());
            while i < a.len()
                invariant
                    i <= a@.len(),
                    selector_views(out@) == strings_in(a@.take(i as int)).map_values(
                        |t: Seq<char>| selector_segments(t),
                    ),
                decreases a@.len() - i,
            {
                proof {
                    assert(a@.take(i + 1).drop_last() =~= a@.take(i as int));
                }
                let ghost before = selector_views(out@);
                match &a[i] {
                    TomlValue::String(s) => {
                        let sel = parse_selector(s.as_str());
                        out.push(sel);
                        proof {
                            assert(selector_views(out@) =~= before.push(segment_views(sel@)));
                            assert(strings_in(a@.take(i + 1)) == strings_in(a@.take(i as int)).push(
                                s@,
                            ));
                            assert(selector_views(out@) =~= strings_in(a@.take(i + 1)).map_values(
                                |t: Seq<char>| selector_segments(t),
                            ));
                        }
                    },
                    _ => {
                        proof {
                            assert(strings_in(a@.take(i + 1)) == strings_in(a@.take(i as int)));
                        }
                    },
                }
                i = i + 1;
            }
            assert(a@.take(a@.len() as int) =~= a@);
        },
        _ => {
            assert(selector_views(out@) =~= Seq::<Seq<(bool, Seq<char>, int)>>::empty());
        },
    }
    out
}

fn rule_from(entry: &TomlValue) -> (r: Option<Rule>)
    ensures
        match r {
            Some(x) => rule_of(*entry) == Some(rule_view(x)),
            None => rule_of(*entry) is None,
        },
{
    proof {
        reveal_strlit("<unnamed>");
    }
    let action = match action_of(get(entry, "action")) {
        Some(a) => a,
        None => {
            return None;
        },
    };
    let selectors = selectors_of(get(entry, "selectors"));
    let ghost sels = selector_strings(toml_get(*entry, "selectors"@));
    assert(selector_views(selectors@).len() == selectors@.len());
    assert(sels.map_values(|t: Seq<char>| selector_segments(t)).len() == sels.len());
    if selectors.len() == 0 {
        return None;
    }
    let id = match get(entry, "id") {
        Some(TomlValue::String(s)) => string_of(&chars_of(s.as_str())),
        _ => "<unnamed>".to_string(),
    };
    let only_without_chumby_access = flag_of(get(entry, "only_without_chumby_access"));
    let only_without_brightness = flag_of(get(entry, "only_without_brightness"));
    let only_without_intro = flag_of(get(entry, "only_without_intro"));
    let r = Rule {
        id,
        action,
        selectors,
        only_without_chumby_access,
        only_without_brightness,
        only_without_intro,
    };
    assert(rule_view(r).0 == rule_of(*entry).unwrap().0);
    assert(rule_view(r).1 == rule_of(*entry).unwrap().1);
    assert(rule_view(r).2 == rule_of(*entry).unwrap().2);
    assert(rule_view(r).3 == rule_of(*entry).unwrap().3);
    Some(r)
}

/// The rules of a policy document (its `[[rule]]` entries), in order; an
/// entry with an unknown action or no selector string is skipped.
pub fn rules_from(doc: &TomlValue) -> (r: Vec<Rule>)
    ensures
        rule_views(r@) == policy_rules(Some(*doc)),
{
    let mut out: Vec<Rule> = Vec::new();
    match get(doc, "rule") {
        Some(TomlValue::Array(entries)) => {
            let mut i: usize = 0;
            assert(entries@.take(0) =~= Seq::<TomlValue>::empty());
            assert(rule_views(out@) =~= Seq::<RuleView>::empty());
            while i < entries.len()
                invariant
                    i <= entries@.len(),
                    rule_views(out@) == rules_in(entries@.take(i as int)),
                decreases entries@.len() - i,
            {
                proof {
                    assert(entries@.take(i + 1).drop_last() =~= entries@.take(i as int));
                }
                let ghost before = rule_views(out@);
                match rule_from(&entries[i]) {
                    Some(r) => {
                        out.push(r);
                        proof {
                            assert(rule_views(out@) =~= before.push(rule_view(r)));
                        }
                    },
                    None => {},
                }
                i = i + 1;
            }
            assert(entries@.take(entries@.len() as int) =~= entries@);
        },
        _ => {
            assert(rule_views(out@) =~= Seq::<RuleView>::empty());
        },
    }
    out
}

/// The rules of a policy text; none when it is not TOML.
pub fn parse(text: &str) -> (r: Vec<Rule>)
    ensures
        rule_views(r@) == policy_rules(toml_parse(text@)),
{
    match parse_toml(text) {
        Some(doc) => rules_from(&doc),
        None => {
            let v: Vec<Rule> = Vec::new();
            assert(rule_views(v@) =~= Seq::<RuleView>::empty());
            v
        },
    }
}


/// Whether a rule stands on this host. A gated rule lifts once the feature
/// it stands in for is there: chumby.com access (the owner flag and a
/// stable identity), a brightness backend, the intro movie.
pub fn rule_applies(rule: &Rule, chumby_access: bool, brightness: bool, intro: bool) -> (b: bool)
    ensures
        b == !((rule.only_without_chumby_access && chumby_access) || (rule.only_without_brightness
            && brightness) || (rule.only_without_intro && intro)),
{
    if rule.only_without_chumby_access && chumby_access {
        return false;
    }
    if rule.only_without_brightness && brightness {
        return false;
    }
    if rule.only_without_intro && intro {
        return false;
    }
    true
}

/// How far one selector got in the display tree.
#[derive(Debug, Clone, Copy, PartialEq, Eq, Structural)]
pub enum Resolution {
    /// Every segment resolved: the target.
    Full,
    /// Everything but the last segment resolved: the screen is up but the
    /// control is missing.
    ParentOnly,
    /// An earlier segment did not resolve.
    Unresolved,
}

/// The first fully resolved selector, if any.
pub open spec fn first_full(results: Seq<Resolution>) -> Option<int>
    decreases results.len(),
{
    if results.len() == 0 {
        None
    } else {
        match first_full(results.drop_last()) {
            Some(k) => Some(k),
            None => if results.last() == Resolution::Full {
                Some(results.len() - 1)
            } else {
                None
            },
        }
    }
}

/// A rule's state on one pass: 2 when it has a target, 1 when only its
/// primary selector's parent resolved (the catalog may be stale), else 0.
pub open spec fn rule_state(results: Seq<Resolution>) -> int {
    if first_full(results) is Some {
        2
    } else if results.len() > 0 && results[0] == Resolution::ParentOnly {
        1
    } else {
        0
    }
}

/// Which selector of a rule wins (the first fully resolved one) and the
/// rule's state, from how each selector resolved, in order. Only the
/// primary selector's parent-only state counts as evidence of a stale
/// catalog: later alternatives may walk into another frame of the same
/// containers.
pub fn pick_target(results: &Vec<Resolution>) -> (r: (Option<usize>, u8))
    ensures
        match r.0 {
            Some(k) => first_full(results@) == Some(k as int),
            None => first_full(results@) is None,
        },
        r.1 == rule_state(results@),
{
    let mut i: usize = 0;
    assert(results@.take(0) =~= Seq::<Resolution>::empty());
    while i < results.len()
        invariant
            i <= results@.len(),
            first_full(results@.take(i as int)) is None,
        decreases results@.len() - i,
    {
        proof {
            assert(results@.take(i + 1).drop_last() =~= results@.take(i as int));
        }
        if results[i] == Resolution::Full {
            proof {
                lemma_first_full_prefix(results@, i as int + 1);
            }
            return (Some(i), 2);
        }
        i = i + 1;
    }
    assert(results@.take(results@.len() as int) =~= results@);
    if results.len() > 0 && results[0] == Resolution::ParentOnly {
        (None, 1)
    } else {
        (None, 0)
    }
}

proof fn lemma_first_full_prefix(results: Seq<Resolution>, n: int)
    requires
        0 <= n <= results.len(),
        first_full(results.take(n)) is Some,
    ensures
        first_full(results) == first_full(results.take(n)),
    decreases results.len() - n,
{
    if n < results.len() {
        assert(results.take(n + 1).drop_last() =~= results.take(n));
        lemma_first_full_prefix(results, n + 1);
    } else {
        assert(results.take(n) =~= results);
    }
}

/// A value a rule writes.
#[derive(Debug, Clone, Copy, PartialEq, Eq)]
pub enum PropValue {
    Bool(bool),
    Number(i32),
    Text(&'static str),
}

/// One property write of an action.
#[derive(Debug, Clone, Copy, PartialEq, Eq)]
pub struct PropWrite {
    pub name: &'static str,
    pub value: PropValue,
}

/// The writes an action makes on its target, in order: `hide` clears
/// `_visible`; `disable` clears `enabled` and sets `_alpha` to 45 (and
/// clears `enabled` on each direct child: see `disables_children`);
/// `readonly` clears `selectable` and sets `type` to `dynamic`.
pub open spec fn action_writes(action: Action) -> Seq<(Seq<char>, PropValue)> {
    match action {
        Action::Hide => seq![("_visible"@, PropValue::Bool(false))],
        Action::Disable => seq![("enabled"@, PropValue::Bool(false)), ("_alpha"@, PropValue::Number(45))],
        Action::Readonly => seq![("selectable"@, PropValue::Bool(false)), ("type"@, PropValue::Text("dynamic"))],
    }
}

pub open spec fn write_views(v: Seq<PropWrite>) -> Seq<(Seq<char>, PropValue)> {
    v.map_values(|w: PropWrite| (w.name@, w.value))
}

/// The property writes an action makes on its target.
pub fn target_writes(action: Action) -> (r: Vec<PropWrite>)
    ensures
        write_views(r@) == action_writes(action),
{
    let mut v: Vec<PropWrite> = Vec::new();
    match action {
        Action::Hide => {
            v.push(PropWrite { name: "_visible", value: PropValue::Bool(false) });
        },
        Action::Disable => {
            v.push(PropWrite { name: "enabled", value: PropValue::Bool(false) });
            v.push(PropWrite { name: "_alpha", value: PropValue::Number(45) });
        },
        Action::Readonly => {
            v.push(PropWrite { name: "selectable", value: PropValue::Bool(false) });
            v.push(PropWrite { name: "type", value: PropValue::Text("dynamic") });
        },
    }
    assert(write_views(v@) =~= action_writes(action));
    v
}

/// `enabled` does not cascade in AVM1, and the panel's hit handlers sit on
/// inner clips: `disable` clears it on the target's direct children too.
pub fn disables_children(action: Action) -> (b: bool)
    ensures
        b == (action == Action::Disable),
{
    match action {
        Action::Disable => true,
        _ => false,
    }
}


/// A rule stands on a host with the given features.
pub open spec fn stands(rule: Rule, chumby_access: bool, brightness: bool, intro: bool) -> bool {
    !((rule.only_without_chumby_access && chumby_access) || (rule.only_without_brightness
        && brightness) || (rule.only_without_intro && intro))
}

/// The targets a pass acts on, from the first `n` rules: for each standing
/// rule with a fully resolved selector, (rule, winning selector, action).
pub open spec fn policy_steps(
    rules: Seq<Rule>,
    chumby_access: bool,
    brightness: bool,
    intro: bool,
    resolutions: Seq<Vec<Resolution>>,
    n: nat,
) -> Seq<(int, int, Action)>
    decreases n,
{
    if n == 0 {
        Seq::empty()
    } else {
        let prev = policy_steps(rules, chumby_access, brightness, intro, resolutions, (n - 1) as nat);
        let k = n - 1;
        if stands(rules[k], chumby_access, brightness, intro) && first_full(resolutions[k]@) is Some {
            prev.push((k, first_full(resolutions[k]@).unwrap(), rules[k].action))
        } else {
            prev
        }
    }
}

/// One target of a policy pass: which rule, through which of its
/// selectors, and what to do.
pub struct PolicyStep {
    pub rule: usize,
    pub selector: usize,
    pub action: Action,
}

pub open spec fn step_views(v: Seq<PolicyStep>) -> Seq<(int, int, Action)> {
    v.map_values(|p: PolicyStep| (p.rule as int, p.selector as int, p.action))
}

/// One pass of the policy over the display tree, given how each rule's
/// selectors resolved there (in the rules' order): the targets to act on,
/// in rule order. A gated rule lifts once its feature is there; a rule
/// acts through its first fully resolved selector.
pub fn apply(
    rules: &Vec<Rule>,
    chumby_access: bool,
    brightness: bool,
    intro: bool,
    resolutions: &Vec<Vec<Resolution>>,
) -> (r: Vec<PolicyStep>)
    requires
        resolutions@.len() == rules@.len(),
    ensures
        step_views(r@) == policy_steps(
            rules@,
            chumby_access,
            brightness,
            intro,
            resolutions@,
            rules@.len(),
        ),
{
    let mut out: Vec<PolicyStep> = Vec::new();
    let mut k: usize = 0;
    assert(step_views(out@) =~= Seq::<(int, int, Action)>::empty());
    while k < rules.len()
        invariant
            k <= rules@.len(),
            resolutions@.len() == rules@.len(),
            step_views(out@) == policy_steps(
                rules@,
                chumby_access,
                brightness,
                intro,
                resolutions@,
                k as nat,
            ),
        decreases rules@.len() - k,
    {
        if rule_applies(&rules[k], chumby_access, brightness, intro) {
            let (target, _state) = pick_target(&resolutions[k]);
            match target {
                Some(sel) => {
                    let ghost before = step_views(out@);
                    out.push(PolicyStep { rule: k, selector: sel, action: rules[k].action });
                    assert(step_views(out@) =~= before.push((k as int, sel as int, rules@[k as int].action)));
                },
                None => {},
            }
        }
        k = k + 1;
    }
    out
}

} // verus!
