use pmos::conjure::{check_size, json_error, validate, Action, Document, Node, ValidationError};

fn node(w: &str, props: Vec<(&str, Option<&str>)>, children: Vec<Node>) -> Node {
    Node {
        w: w.into(),
        children,
        props: props.into_iter().map(|(k, v)| (k.to_string(), v.map(|s| s.to_string()))).collect(),
    }
}

fn action(verb: &str, fields: Vec<(&str, Option<&str>)>) -> Action {
    Action {
        verb: verb.into(),
        fields: fields.into_iter().map(|(k, v)| (k.to_string(), v.map(|s| s.to_string()))).collect(),
        then_actions: None,
        else_actions: None,
    }
}

fn doc(ui: Node, handlers: Vec<(&str, Vec<Action>)>) -> Document {
    Document {
        conjure: "1.0".into(),
        state: vec![],
        ui,
        handlers: handlers.into_iter().map(|(n, a)| (n.to_string(), a)).collect(),
        timers: vec![],
    }
}

fn codes(errs: &[ValidationError]) -> Vec<&str> {
    errs.iter().map(|e| e.code.as_str()).collect()
}

#[test]
fn rejects_malformed_json() {
    let parse_err = serde_json::from_str::<serde_json::Value>("not json").unwrap_err();
    let errs = vec![json_error(parse_err.to_string())];
    assert_eq!(errs[0].code, "JSON001");
    assert_eq!(errs[0].path, "");
    assert_eq!(errs[0].hint, "Emit exactly one well-formed JSON object matching the Conjure schema.");
}

#[test]
fn rejects_unknown_widget_and_handler() {
    let d = doc(node("blink", vec![("on_click", Some("nope"))], vec![]), vec![]);
    let errs = validate(d).unwrap_err();
    let codes = codes(&errs);
    assert!(codes.contains(&"WID001"));
    assert!(codes.contains(&"REF001"));
    assert_eq!(errs[0].path, "/ui/w");
    assert_eq!(errs[0].message, "unknown widget `blink`");
    assert_eq!(errs[1].path, "/ui/on_click");
    assert_eq!(errs[1].message, "references unknown handler `nope`");
}

#[test]
fn rejects_emit_cycle() {
    let d = doc(
        node("column", vec![], vec![]),
        vec![
            ("a", vec![action("emit", vec![("handler", Some("b"))])]),
            ("b", vec![action("emit", vec![("handler", Some("a"))])]),
        ],
    );
    let errs = validate(d).unwrap_err();
    assert!(errs.iter().any(|e| e.code == "CYC001"));
    assert!(errs.iter().any(|e| e.path == "/handlers/a" && e.message == "emit cycle involving `a`"));
}

#[test]
fn accepts_a_small_valid_document() {
    let mut d = doc(
        node(
            "column",
            vec![],
            vec![
                node("label", vec![("text", Some("left: ${fmt.mmss(n)}!"))], vec![]),
                node("button", vec![("on_click", Some("tick")), ("text", Some("Go"))], vec![]),
                node("slider", vec![("bind", Some("n"))], vec![]),
            ],
        ),
        vec![("tick", vec![action("inc", vec![("by", Some("${1}")), ("target", Some("n"))])])],
    );
    d.state = vec!["n".into()];
    d.timers = vec!["tick".into()];
    let ok = validate(d).unwrap();
    assert_eq!(ok.ui.children.len(), 3);
}

#[test]
fn version_state_and_timer_checks() {
    let mut d = doc(node("column", vec![("bind", Some("ghost"))], vec![]), vec![]);
    d.conjure = "2.0".into();
    d.timers = vec!["missing".into()];
    let errs = validate(d).unwrap_err();
    assert_eq!(codes(&errs), vec!["VER001", "REF003", "REF002"]);
    assert_eq!(errs[0].message, "unsupported format version 2.0");
    assert_eq!(errs[2].path, "/timers/0/handler");
}

#[test]
fn bad_expressions_are_reported() {
    let d = doc(
        node("label", vec![("text", Some("${1 +}"))], vec![]),
        vec![("h", vec![action("set", vec![("value", Some("${(2}"))])]), ("k", vec![action("fly", vec![])])],
    );
    let errs = validate(d).unwrap_err();
    assert_eq!(codes(&errs), vec!["EXP001", "EXP002", "ACT001"]);
    assert_eq!(errs[0].path, "/ui/text");
    assert_eq!(errs[0].message, "bad expression: unexpected token None");
    assert_eq!(errs[1].path, "/handlers/h/0/value");
    assert_eq!(errs[1].message, "bad expression: expected `)`, found None");
    assert_eq!(errs[2].path, "/handlers/k/0/do");
}

#[test]
fn at_most_twelve_errors_are_reported() {
    let kids: Vec<Node> = (0..20).map(|_| node("blink", vec![], vec![])).collect();
    let d = doc(node("column", vec![], kids), vec![]);
    let errs = validate(d).unwrap_err();
    assert_eq!(errs.len(), 12);
    assert_eq!(errs[11].path, "/ui/children/11/w");
}

#[test]
fn oversized_documents_are_refused() {
    assert!(check_size(262144).is_none());
    let e = check_size(262145).unwrap();
    assert_eq!(e.code, "LIM001");
    assert_eq!(e.message, "document is 262145 bytes (max 262144)");
}
