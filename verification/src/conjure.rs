//! Conjure, the application DSL: the staged validator of documents. The
//! JSON text is parsed by the host into the model below, which holds what
//! validation reads; the checks here are the semantic stages. Errors are
//! machine-readable because they are fed back to the model that wrote the
//! document.

use vstd::prelude::*;
use crate::expr::{expr_check, expr_ok};
use crate::text::{chars_eq, chars_of, dec, push_dec, push_str, string_of};

verus! {

/// A machine-readable validation error: where, a stable code, what, and a
/// hint for the repair loop.
#[derive(Debug)]
pub struct ValidationError {
    /// A JSON-pointer-like location, such as `/ui/children/2/on_click`.
    pub path: String,
    /// A stable error code, such as `REF001`.
    pub code: String,
    pub message: String,
    /// An actionable fix.
    pub hint: String,
}

/// A UI node as validation reads it: its widget, its children, and its
/// props by key (sorted), each with its text when the prop is a string.
#[derive(Debug)]
pub struct Node {
    pub w: String,
    pub children: Vec<Node>,
    pub props: Vec<(String, Option<String>)>,
}

/// An action as validation reads it: its verb, its fields by key
/// (sorted), each with its text when it is a string, and its nested
/// `then` and `else` action lists when they parse as such.
#[derive(Debug)]
pub struct Action {
    pub verb: String,
    pub fields: Vec<(String, Option<String>)>,
    pub then_actions: Option<Vec<Action>>,
    pub else_actions: Option<Vec<Action>>,
}

/// A document as validation reads it: its format version, the names of
/// its state entries, its UI tree, its handlers by name (sorted), and the
/// handler each timer names, in order.
#[derive(Debug)]
pub struct Document {
    pub conjure: String,
    pub state: Vec<String>,
    pub ui: Node,
    pub handlers: Vec<(String, Vec<Action>)>,
    pub timers: Vec<String>,
}

/// A side effect a handler asks the host for.
#[derive(Debug)]
pub enum Effect {
    Notify { title: String, body: String },
    SetTitle(String),
    CloseWindow,
}

/// The icon of a manifest that names none.
pub fn default_icon() -> (r: String)
    ensures
        r@ == "✨"@,
{
    String::from_str("✨")
}

/// The default of the boolean manifest and timer flags.
pub fn default_true() -> (r: bool)
    ensures
        r,
{
    true
}

/// An error as the contracts see it: path, code, message (none where the
/// message carries an expression error's own text), hint.
pub type ErrSpec = (Seq<char>, Seq<char>, Seq<char>, Seq<char>);

/// Whether an error matches its description.
pub open spec fn err_matches(e: ValidationError, s: ErrSpec) -> bool {
    &&& e.path@ == s.0
    &&& e.code@ == s.1
    &&& e.hint@ == s.3
    &&& e.message@ == s.2
}

/// Whether a list of errors matches a list of descriptions.
pub open spec fn errs_match(v: Seq<ValidationError>, s: Seq<ErrSpec>) -> bool {
    v.len() == s.len() && forall|i: int| 0 <= i < v.len() ==> err_matches(#[trigger] v[i], s[i])
}

/// Builds a validation error.
pub fn err(path: &str, code: &str, message: String, hint: &str) -> (r: ValidationError)
    ensures
        r.path@ == path@,
        r.code@ == code@,
        r.message == message,
        r.hint@ == hint@,
{
    ValidationError {
        path: String::from_str(path),
        code: String::from_str(code),
        message,
        hint: String::from_str(hint),
    }
}

/// The widgets the host can render.
pub open spec fn known_widget(w: Seq<char>) -> bool {
    ||| w == "column"@
    ||| w == "row"@
    ||| w == "group"@
    ||| w == "scroll"@
    ||| w == "separator"@
    ||| w == "spacer"@
    ||| w == "label"@
    ||| w == "button"@
    ||| w == "text_input"@
    ||| w == "slider"@
    ||| w == "checkbox"@
    ||| w == "toggle"@
    ||| w == "dropdown"@
    ||| w == "list_view"@
    ||| w == "canvas"@
    ||| w == "progress"@
    ||| w == "if"@
}

/// The widget catalogue of the Conjure language, in the documented order.
pub open spec fn widget_catalogue() -> Seq<Seq<char>> {
    seq![
        "column"@, "row"@, "group"@, "scroll"@, "separator"@, "spacer"@, "label"@, "button"@, "text_input"@,
        "slider"@, "checkbox"@, "toggle"@, "dropdown"@, "list_view"@, "canvas"@, "progress"@, "if"@,
    ]
}

/// A widget is accepted exactly when the catalogue holds it: a node of a
/// catalogued widget gets no unknown-widget error, any other widget gets
/// exactly one, at the node's `w`.
pub proof fn law_widgets_are_the_catalogue(w: Seq<char>, path: Seq<char>)
    ensures
        widget_errs(w, path).len() == 0 <==> widget_catalogue().contains(w),
        !widget_catalogue().contains(w) ==> widget_errs(w, path).len() == 1 && widget_errs(w, path)[0].1 == "WID001"@,
{
    let c = widget_catalogue();
    if c.contains(w) {
        let i = choose|i: int| 0 <= i < c.len() && c[i] == w;
        assert(known_widget(w));
    }
    if known_widget(w) {
        if w == "column"@ { assert(c[0] == w); }
        else if w == "row"@ { assert(c[1] == w); }
        else if w == "group"@ { assert(c[2] == w); }
        else if w == "scroll"@ { assert(c[3] == w); }
        else if w == "separator"@ { assert(c[4] == w); }
        else if w == "spacer"@ { assert(c[5] == w); }
        else if w == "label"@ { assert(c[6] == w); }
        else if w == "button"@ { assert(c[7] == w); }
        else if w == "text_input"@ { assert(c[8] == w); }
        else if w == "slider"@ { assert(c[9] == w); }
        else if w == "checkbox"@ { assert(c[10] == w); }
        else if w == "toggle"@ { assert(c[11] == w); }
        else if w == "dropdown"@ { assert(c[12] == w); }
        else if w == "list_view"@ { assert(c[13] == w); }
        else if w == "canvas"@ { assert(c[14] == w); }
        else if w == "progress"@ { assert(c[15] == w); }
        else { assert(c[16] == w); }
    }
}

/// A leaf node of a catalogued widget, with no props, has no errors.
pub proof fn law_catalogued_leaf_is_valid(doc: Document, n: Node, path: Seq<char>)
    requires
        widget_catalogue().contains(n.w@),
        n.props@.len() == 0,
        n.children@.len() == 0,
    ensures
        node_errs(doc, n, path).len() == 0,
{
    law_widgets_are_the_catalogue(n.w@, path);
    assert(props_errs(doc, path, n.props@) == Seq::<ErrSpec>::empty());
    assert(children_errs(doc, n.children@, path) == Seq::<ErrSpec>::empty());
}

/// The action verbs the interpreter executes.
pub open spec fn known_action(v: Seq<char>) -> bool {
    ||| v == "set"@
    ||| v == "toggle"@
    ||| v == "inc"@
    ||| v == "push"@
    ||| v == "remove_at"@
    ||| v == "clear"@
    ||| v == "if"@
    ||| v == "emit"@
    ||| v == "notify"@
    ||| v == "window"@
    ||| v == "timer"@
}

/// The action verbs of the Conjure language, in the documented order.
pub open spec fn action_catalogue() -> Seq<Seq<char>> {
    seq!["set"@, "toggle"@, "inc"@, "push"@, "remove_at"@, "clear"@, "if"@, "emit"@, "notify"@, "window"@, "timer"@]
}

/// A verb is accepted exactly when the catalogue holds it: an action of a
/// catalogued verb gets no unknown-action error, any other gets exactly
/// one, at the action's `do`.
pub proof fn law_verbs_are_the_catalogue(a: Action, apath: Seq<char>)
    ensures
        verb_errs(a, apath).len() == 0 <==> action_catalogue().contains(a.verb@),
        !action_catalogue().contains(a.verb@) ==> verb_errs(a, apath).len() == 1 && verb_errs(a, apath)[0].1 == "ACT001"@,
{
    let c = action_catalogue();
    let v = a.verb@;
    if c.contains(v) {
        let i = choose|i: int| 0 <= i < c.len() && c[i] == v;
        assert(known_action(v));
    }
    if known_action(v) {
        if v == "set"@ { assert(c[0] == v); }
        else if v == "toggle"@ { assert(c[1] == v); }
        else if v == "inc"@ { assert(c[2] == v); }
        else if v == "push"@ { assert(c[3] == v); }
        else if v == "remove_at"@ { assert(c[4] == v); }
        else if v == "clear"@ { assert(c[5] == v); }
        else if v == "if"@ { assert(c[6] == v); }
        else if v == "emit"@ { assert(c[7] == v); }
        else if v == "notify"@ { assert(c[8] == v); }
        else if v == "window"@ { assert(c[9] == v); }
        else { assert(c[10] == v); }
    }
}

/// Whether `s` spells the literal `lit`.
fn is_text(s: &str, lit: &str) -> (r: bool)
    ensures
        r == (s@ == lit@),
{
    let a = chars_of(s);
    let b = chars_of(lit);
    chars_eq(&a, &b)
}

/// Whether `w` names a known widget.
pub fn is_known_widget(w: &str) -> (r: bool)
    ensures
        r == known_widget(w@),
{
    is_text(w, "column") || is_text(w, "row") || is_text(w, "group") || is_text(w, "scroll")
        || is_text(w, "separator") || is_text(w, "spacer") || is_text(w, "label") || is_text(w, "button")
        || is_text(w, "text_input") || is_text(w, "slider") || is_text(w, "checkbox") || is_text(w, "toggle")
        || is_text(w, "dropdown") || is_text(w, "list_view") || is_text(w, "canvas") || is_text(w, "progress")
        || is_text(w, "if")
}

/// Whether `v` names a known action verb.
pub fn is_known_action(v: &str) -> (r: bool)
    ensures
        r == known_action(v@),
{
    is_text(v, "set") || is_text(v, "toggle") || is_text(v, "inc") || is_text(v, "push") || is_text(v, "remove_at")
        || is_text(v, "clear") || is_text(v, "if") || is_text(v, "emit") || is_text(v, "notify")
        || is_text(v, "window") || is_text(v, "timer")
}

/// The first handler named `name`, if any.
pub open spec fn find_handler(hs: Seq<(String, Vec<Action>)>, name: Seq<char>) -> Option<int>
    decreases hs.len(),
{
    if hs.len() == 0 {
        None
    } else {
        match find_handler(hs.drop_last(), name) {
            Some(i) => Some(i),
            None => if hs.last().0@ == name {
                Some(hs.len() - 1)
            } else {
                None
            },
        }
    }
}

/// Whether the document defines the handler `name`.
pub open spec fn has_handler(doc: Document, name: Seq<char>) -> bool {
    find_handler(doc.handlers@, name) is Some
}

/// Whether the document declares the state entry `name`.
pub open spec fn has_state(doc: Document, name: Seq<char>) -> bool {
    exists|i: int| 0 <= i < doc.state@.len() && #[trigger] doc.state@[i]@ == name
}

/// One error description.
pub open spec fn one(path: Seq<char>, code: Seq<char>, msg: Seq<char>, hint: Seq<char>) -> Seq<ErrSpec> {
    seq![(path, code, msg, hint)]
}

/// The errors of one prop of the node at `path`: an `on_*` prop must name
/// a handler, `bind` must name a state entry, any other string prop must
/// hold acceptable expression text.
pub open spec fn prop_errs(doc: Document, path: Seq<char>, key: Seq<char>, val: Option<String>) -> Seq<ErrSpec> {
    match val {
        None => Seq::empty(),
        Some(v) => {
            let h = v@;
            let on = "on_"@.is_prefix_of(key);
            (if on && !has_handler(doc, h) {
                one(path + "/"@ + key, "REF001"@, "references unknown handler `"@ + h + "`"@,
                    "Every on_* prop must name a handler defined in /handlers."@)
            } else {
                Seq::empty()
            }) + (if key == "bind"@ && !has_state(doc, h) {
                one(path + "/bind"@, "REF003"@, "binds unknown state `"@ + h + "`"@, "bind must name an entry in /state."@)
            } else {
                Seq::empty()
            }) + (if !on && key != "bind"@ {
                match expr_check(h) {
                    Ok(_) => Seq::empty(),
                    Err(m) => one(path + "/"@ + key, "EXP001"@, "bad expression: "@ + m, "Fix the ${…} expression syntax."@),
                }
            } else {
                Seq::empty()
            })
        },
    }
}

/// The errors of the props of the node at `path`, in order.
pub open spec fn props_errs(doc: Document, path: Seq<char>, props: Seq<(String, Option<String>)>) -> Seq<ErrSpec>
    decreases props.len(),
{
    if props.len() == 0 {
        Seq::empty()
    } else {
        props_errs(doc, path, props.drop_last()) + prop_errs(doc, path, props.last().0@, props.last().1)
    }
}

/// The error of an unknown widget at `path`.
pub open spec fn widget_errs(w: Seq<char>, path: Seq<char>) -> Seq<ErrSpec> {
    if known_widget(w) {
        Seq::empty()
    } else {
        one(path + "/w"@, "WID001"@, "unknown widget `"@ + w + "`"@,
            "Use one of: column,row,group,scroll,separator,spacer,label,button,text_input,slider,checkbox,toggle,progress,if."@)
    }
}

/// The errors of the tree at `path`, depth first: the node's own, then
/// each child's at `path/children/i`.
pub open spec fn node_errs(doc: Document, n: Node, path: Seq<char>) -> Seq<ErrSpec>
    decreases n,
{
    widget_errs(n.w@, path) + props_errs(doc, path, n.props@) + children_errs(doc, n.children@, path)
}

/// The errors of the children of the node at `path`.
pub open spec fn children_errs(doc: Document, cs: Seq<Node>, path: Seq<char>) -> Seq<ErrSpec>
    decreases cs,
{
    if cs.len() == 0 {
        Seq::empty()
    } else {
        children_errs(doc, cs.drop_last(), path)
            + node_errs(doc, cs[cs.len() - 1], path + "/children/"@ + dec((cs.len() - 1) as nat))
    }
}

/// The number of nodes of a tree.
pub open spec fn node_count(n: Node) -> nat
    decreases n,
{
    1 + children_count(n.children@)
}

/// The number of nodes of a list of trees.
pub open spec fn children_count(cs: Seq<Node>) -> nat
    decreases cs,
{
    if cs.len() == 0 {
        0
    } else {
        children_count(cs.drop_last()) + node_count(cs[cs.len() - 1])
    }
}

/// The first field named `key`, if any.
pub open spec fn field(fs: Seq<(String, Option<String>)>, key: Seq<char>) -> Option<Option<String>>
    decreases fs.len(),
{
    if fs.len() == 0 {
        None
    } else if fs[0].0@ == key {
        Some(fs[0].1)
    } else {
        field(fs.drop_first(), key)
    }
}

/// The text of the first field named `key`, when it is a string.
pub open spec fn text_field(fs: Seq<(String, Option<String>)>, key: Seq<char>) -> Option<Seq<char>> {
    match field(fs, key) {
        Some(Some(s)) => Some(s@),
        _ => None,
    }
}

/// The error of a bad expression in the field `key` of the action at
/// `apath`.
pub open spec fn expr_field_errs(fs: Seq<(String, Option<String>)>, key: Seq<char>, apath: Seq<char>) -> Seq<ErrSpec> {
    match text_field(fs, key) {
        Some(s) => match expr_check(s) {
            Ok(_) => Seq::empty(),
            Err(m) => one(apath + "/"@ + key, "EXP002"@, "bad expression: "@ + m, "Fix the expression syntax."@),
        },
        None => Seq::empty(),
    }
}

/// The error of an unknown verb in the action at `apath`.
pub open spec fn verb_errs(a: Action, apath: Seq<char>) -> Seq<ErrSpec> {
    if known_action(a.verb@) {
        Seq::empty()
    } else {
        one(apath + "/do"@, "ACT001"@, "unknown action `"@ + a.verb@ + "`"@,
            "Use one of: set,toggle,inc,push,remove_at,clear,if,emit,notify,window,timer."@)
    }
}

/// The error of an `emit` of an unknown handler in the action at `apath`.
pub open spec fn emit_errs(doc: Document, a: Action, apath: Seq<char>) -> Seq<ErrSpec> {
    if a.verb@ == "emit"@ && text_field(a.fields@, "handler"@) is Some
        && !has_handler(doc, text_field(a.fields@, "handler"@)->0) {
        one(apath + "/handler"@, "REF004"@,
            "emit references unknown handler `"@ + text_field(a.fields@, "handler"@)->0 + "`"@,
            "Emit must target a defined handler."@)
    } else {
        Seq::empty()
    }
}

/// The errors of bad expressions in `cond`, `value`, `by` and `index`.
pub open spec fn fields_errs(a: Action, apath: Seq<char>) -> Seq<ErrSpec> {
    expr_field_errs(a.fields@, "cond"@, apath) + expr_field_errs(a.fields@, "value"@, apath)
        + expr_field_errs(a.fields@, "by"@, apath) + expr_field_errs(a.fields@, "index"@, apath)
}

/// The errors of one action at `apath`: an unknown verb, an `emit` of an
/// unknown handler, bad expressions in `cond`, `value`, `by` and `index`,
/// then the errors of its `then` and `else` branches.
pub open spec fn action_errs(doc: Document, a: Action, apath: Seq<char>) -> Seq<ErrSpec>
    decreases a,
{
    verb_errs(a, apath) + emit_errs(doc, a, apath) + fields_errs(a, apath) + (match a.then_actions {
        Some(v) => actions_errs(doc, v@, apath + "/then"@),
        None => Seq::empty(),
    }) + (match a.else_actions {
        Some(v) => actions_errs(doc, v@, apath + "/else"@),
        None => Seq::empty(),
    })
}

/// The errors of a list of actions at `path`, the i-th at `path/i`.
pub open spec fn actions_errs(doc: Document, s: Seq<Action>, path: Seq<char>) -> Seq<ErrSpec>
    decreases s,
{
    if s.len() == 0 {
        Seq::empty()
    } else {
        actions_errs(doc, s.drop_last(), path) + action_errs(doc, s[s.len() - 1], path + "/"@ + dec((s.len() - 1) as nat))
    }
}


/// The errors of the handlers from the first on, each at
/// `/handlers/<name>`.
pub open spec fn handlers_errs(doc: Document, hs: Seq<(String, Vec<Action>)>) -> Seq<ErrSpec>
    decreases hs.len(),
{
    if hs.len() == 0 {
        Seq::empty()
    } else {
        handlers_errs(doc, hs.drop_last()) + actions_errs(doc, hs.last().1@, "/handlers/"@ + hs.last().0@)
    }
}

/// The errors of timers naming unknown handlers, the i-th at
/// `/timers/i/handler`.
pub open spec fn timers_errs(doc: Document, ts: Seq<String>) -> Seq<ErrSpec>
    decreases ts.len(),
{
    if ts.len() == 0 {
        Seq::empty()
    } else {
        timers_errs(doc, ts.drop_last()) + if has_handler(doc, ts.last()@) {
            Seq::empty()
        } else {
            one("/timers/"@ + dec((ts.len() - 1) as nat) + "/handler"@, "REF002"@,
                "timer references unknown handler `"@ + ts.last()@ + "`"@,
                "Point the timer at a handler defined in /handlers."@)
        }
    }
}

/// The handlers an action list emits, in order, nested branches included.
pub open spec fn targets(s: Seq<Action>) -> Seq<Seq<char>>
    decreases s,
{
    if s.len() == 0 {
        Seq::empty()
    } else {
        targets(s.drop_last()) + action_targets(s[s.len() - 1])
    }
}

/// The handlers one action emits: its own target, then those of its
/// `then` and `else` branches.
pub open spec fn action_targets(a: Action) -> Seq<Seq<char>>
    decreases a,
{
    (if a.verb@ == "emit"@ && text_field(a.fields@, "handler"@) is Some {
        seq![text_field(a.fields@, "handler"@)->0]
    } else {
        Seq::empty()
    }) + (match a.then_actions {
        Some(v) => targets(v@),
        None => Seq::empty(),
    }) + (match a.else_actions {
        Some(v) => targets(v@),
        None => Seq::empty(),
    })
}

/// The actions of the first handler named `name` (none when there is no
/// such handler).
pub open spec fn handler_actions(doc: Document, name: Seq<char>) -> Seq<Action> {
    match find_handler(doc.handlers@, name) {
        Some(i) => doc.handlers@[i].1@,
        None => Seq::empty(),
    }
}

/// Whether following emits from the handler `current`, with `path` the
/// handlers on the way there, comes back to one of them (within `fuel`
/// steps).
pub open spec fn cycles(doc: Document, current: Seq<char>, path: Seq<Seq<char>>, fuel: nat) -> bool
    decreases fuel, 1nat, 0nat,
{
    fuel > 0 && has_handler(doc, current) && any_cycle(doc, targets(handler_actions(doc, current)), path, (fuel - 1) as nat)
}

/// Whether one of the targets `ts`, emitted by the last handler on
/// `path`, is on the path or leads back to it.
pub open spec fn any_cycle(doc: Document, ts: Seq<Seq<char>>, path: Seq<Seq<char>>, fuel: nat) -> bool
    decreases fuel, 2nat, ts.len(),
{
    ts.len() > 0 && (any_cycle(doc, ts.drop_last(), path, fuel) || path.contains(ts.last())
        || cycles(doc, ts.last(), path.push(ts.last()), fuel))
}

/// The views of a list of strings.
pub open spec fn strs_view(s: Seq<String>) -> Seq<Seq<char>> {
    s.map_values(|x: String| x@)
}

/// The depth bound of the emit search: no path of distinct handlers is
/// longer than the number of handlers.
pub open spec fn cycle_fuel(doc: Document, path_len: nat) -> nat {
    if doc.handlers@.len() + 1 >= path_len {
        (doc.handlers@.len() + 1 - path_len) as nat
    } else {
        0
    }
}

/// Whether an emit cycle runs through the handler `name`.
pub open spec fn emit_cycle(doc: Document, name: Seq<char>) -> bool {
    cycles(doc, name, seq![name], cycle_fuel(doc, 1))
}

/// The errors of the handlers involved in an emit cycle, in handler order.
pub open spec fn cycle_errs(doc: Document, hs: Seq<(String, Vec<Action>)>) -> Seq<ErrSpec>
    decreases hs.len(),
{
    if hs.len() == 0 {
        Seq::empty()
    } else {
        cycle_errs(doc, hs.drop_last()) + if emit_cycle(doc, hs.last().0@) {
            one("/handlers/"@ + hs.last().0@, "CYC001"@, "emit cycle involving `"@ + hs.last().0@ + "`"@,
                "Handlers may emit other handlers but never form a cycle."@)
        } else {
            Seq::empty()
        }
    }
}

/// The UI node count as the validator counts it (it stops counting at
/// the machine limit).
pub open spec fn counted(doc: Document) -> nat {
    if node_count(doc.ui) <= usize::MAX {
        node_count(doc.ui)
    } else {
        usize::MAX as nat
    }
}

/// Every error of a document, in the order the stages find them: the
/// version, the limits on state and timers, the UI tree, the node limit,
/// the handlers, the timers' handlers, and the emit cycles.
pub open spec fn validation_errs(doc: Document) -> Seq<ErrSpec> {
    (if "1."@.is_prefix_of(doc.conjure@) {
        Seq::empty()
    } else {
        one("/conjure"@, "VER001"@, "unsupported format version "@ + doc.conjure@, "Use \"conjure\": \"1.0\"."@)
    }) + (if doc.state@.len() > 64 {
        one("/state"@, "LIM002"@, dec(doc.state@.len()) + " state entries (max 64)"@, "Reduce state entries."@)
    } else {
        Seq::empty()
    }) + (if doc.timers@.len() > 4 {
        one("/timers"@, "LIM003"@, dec(doc.timers@.len()) + " timers (max 4)"@, "Use at most 4 timers."@)
    } else {
        Seq::empty()
    }) + node_errs(doc, doc.ui, "/ui"@) + (if counted(doc) > 512 {
        one("/ui"@, "LIM004"@, dec(counted(doc)) + " UI nodes (max 512)"@, "Simplify the UI tree."@)
    } else {
        Seq::empty()
    }) + handlers_errs(doc, doc.handlers@) + timers_errs(doc, doc.timers@) + cycle_errs(doc, doc.handlers@)
}

/// The errors a rejected document is answered with: the first twelve.
pub open spec fn reported(doc: Document) -> Seq<ErrSpec> {
    let e = validation_errs(doc);
    if e.len() > 12 {
        e.take(12)
    } else {
        e
    }
}

proof fn lemma_match_push(v: Seq<ValidationError>, s: Seq<ErrSpec>, e: ValidationError, es: ErrSpec)
    requires
        errs_match(v, s),
        err_matches(e, es),
    ensures
        errs_match(v.push(e), s.push(es)),
{
    assert forall|i: int| 0 <= i < v.len() + 1 implies err_matches(#[trigger] v.push(e)[i], s.push(es)[i]) by {
        if i < v.len() {
            assert(v.push(e)[i] == v[i]);
            assert(s.push(es)[i] == s[i]);
        }
    }
}

/// Appends an error matching `es` to `errors`, described so far by `pre`.
fn push_err(errors: &mut Vec<ValidationError>, Ghost(pre): Ghost<Seq<ErrSpec>>, e: ValidationError, Ghost(es): Ghost<ErrSpec>)
    requires
        errs_match(old(errors)@, pre),
        err_matches(e, es),
    ensures
        errs_match(final(errors)@, pre.push(es)),
{
    proof {
        lemma_match_push(old(errors)@, pre, e, es);
    }
    errors.push(e);
}

/// `path` followed by `suffix`.
fn join(path: &Vec<char>, suffix: &str) -> (r: Vec<char>)
    ensures
        r@ == path@ + suffix@,
{
    let mut r = crate::text::chars_copy(path);
    push_str(&mut r, suffix);
    r
}

/// `path` followed by `suffix` and the decimal `i`.
fn join_num(path: &Vec<char>, suffix: &str, i: usize) -> (r: Vec<char>)
    ensures
        r@ == path@ + suffix@ + dec(i as nat),
{
    let mut r = join(path, suffix);
    push_dec(&mut r, i as u64);
    r
}

/// `pre`, `x` and `post` as one string.
fn quoted(pre: &str, x: &str, post: &str) -> (r: String)
    ensures
        r@ == pre@ + x@ + post@,
{
    let mut v: Vec<char> = Vec::new();
    push_str(&mut v, pre);
    push_str(&mut v, x);
    push_str(&mut v, post);
    string_of(&v)
}

/// The first handler named `name`, if any.
fn handler_index(doc: &Document, name: &str) -> (r: Option<usize>)
    ensures
        match find_handler(doc.handlers@, name@) {
            Some(i) => r == Some(i as usize),
            None => r is None,
        },
{
    let n = doc.handlers.len();
    let mut res: Option<usize> = None;
    let mut i: usize = 0;
    while i < n
        invariant
            i <= n,
            n == doc.handlers@.len(),
            match find_handler(doc.handlers@.take(i as int), name@) {
                Some(k) => res == Some(k as usize),
                None => res is None,
            },
        decreases n - i,
    {
        assert(doc.handlers@.take(i + 1).drop_last() =~= doc.handlers@.take(i as int));
        if res.is_none() {
            if is_text(doc.handlers[i].0.as_str(), name) {
                res = Some(i);
            }
        }
        i += 1;
    }
    assert(doc.handlers@.take(n as int) =~= doc.handlers@);
    res
}

/// Whether the document declares the state entry `name`.
fn state_has(doc: &Document, name: &str) -> (r: bool)
    ensures
        r == has_state(*doc, name@),
{
    let mut i: usize = 0;
    while i < doc.state.len()
        invariant
            i <= doc.state@.len(),
            forall|j: int| 0 <= j < i ==> doc.state@[j]@ != name@,
        decreases doc.state.len() - i,
    {
        if is_text(doc.state[i].as_str(), name) {
            return true;
        }
        i += 1;
    }
    false
}

/// Saturation at the machine limit.
pub open spec fn sat(x: int) -> nat {
    if x <= 0 {
        0
    } else if x <= usize::MAX {
        x as nat
    } else {
        usize::MAX as nat
    }
}


/// A validation error at the given path.
fn mk_err(path: Vec<char>, code: &str, message: String, hint: &str) -> (r: ValidationError)
    ensures
        r.path@ == path@,
        r.code@ == code@,
        r.message == message,
        r.hint@ == hint@,
{
    ValidationError { path: string_of(&path), code: String::from_str(code), message, hint: String::from_str(hint) }
}

proof fn lemma_sat(x: int, y: int)
    requires
        x >= 0,
        y >= 0,
    ensures
        sat(sat(x) + y) == sat(x + y),
{
}

proof fn lemma_children(cs: Seq<Node>, i: int)
    requires
        0 <= i < cs.len(),
    ensures
        cs.take(i + 1).drop_last() == cs.take(i),
        cs.take(i + 1)[i] == cs[i],
{
    assert(cs.take(i + 1).drop_last() =~= cs.take(i));
}

/// Checks the props of a node, appending their errors.
fn validate_props(
    doc: &Document,
    node: &Node,
    path: &Vec<char>,
    errors: &mut Vec<ValidationError>,
    Ghost(pre): Ghost<Seq<ErrSpec>>,
)
    requires
        errs_match(old(errors)@, pre),
    ensures
        errs_match(final(errors)@, pre + props_errs(*doc, path@, node.props@)),
{
    let ghost mut cur = pre;
    let mut i: usize = 0;
    assert(pre =~= pre + props_errs(*doc, path@, node.props@.take(0)));
    while i < node.props.len()
        invariant
            i <= node.props@.len(),
            errs_match(errors@, cur),
            cur == pre + props_errs(*doc, path@, node.props@.take(i as int)),
        decreases node.props.len() - i,
    {
        let ghost before = cur;
        let ghost key = node.props@[i as int].0@;
        let ghost val = node.props@[i as int].1;
        let key_chars = chars_of(node.props[i].0.as_str());
        match &node.props[i].1 {
            None => {},
            Some(v) => {
                let on_prefix = chars_of("on_");
                let on = crate::text::starts_with(&key_chars, &on_prefix);
                let is_bind = is_text(node.props[i].0.as_str(), "bind");
                if on && handler_index(doc, v.as_str()).is_none() {
                    let ghost es = (path@ + "/"@ + key, "REF001"@, "references unknown handler `"@ + v@ + "`"@,
                        "Every on_* prop must name a handler defined in /handlers."@);
                    let e = mk_err(join(&join(path, "/"), node.props[i].0.as_str()), "REF001",
                        quoted("references unknown handler `", v.as_str(), "`"),
                        "Every on_* prop must name a handler defined in /handlers.");
                    assert(e.path@ == es.0);
                    push_err(errors, Ghost(cur), e, Ghost(es));
                    proof {
                        cur = cur.push(es);
                    }
                }
                if is_bind && !state_has(doc, v.as_str()) {
                    let ghost es = (path@ + "/bind"@, "REF003"@, "binds unknown state `"@ + v@ + "`"@,
                        "bind must name an entry in /state."@);
                    let e = mk_err(join(path, "/bind"), "REF003", quoted("binds unknown state `", v.as_str(), "`"),
                        "bind must name an entry in /state.");
                    push_err(errors, Ghost(cur), e, Ghost(es));
                    proof {
                        cur = cur.push(es);
                    }
                }
                if !on && !is_bind {
                    match expr_ok(v.as_str()) {
                        Ok(()) => {},
                        Err(x) => {
                            let ghost es = (path@ + "/"@ + key, "EXP001"@, "bad expression: "@ + x.0@, "Fix the ${…} expression syntax."@);
                            let e = mk_err(join(&join(path, "/"), node.props[i].0.as_str()), "EXP001",
                                quoted("bad expression: ", x.0.as_str(), ""), "Fix the ${…} expression syntax.");
                            assert(e.path@ == es.0);
                            assert(e.message@ =~= es.2) by {
                                reveal_strlit("");
                            }
                            push_err(errors, Ghost(cur), e, Ghost(es));
                            proof {
                                cur = cur.push(es);
                            }
                        },
                    }
                }
            },
        }
        proof {
            let t = node.props@.take(i + 1);
            assert(t.drop_last() =~= node.props@.take(i as int));
            assert(t.last() == node.props@[i as int]);
            let pe = prop_errs(*doc, path@, key, val);
            assert(cur =~= before + pe);
            assert(pre + props_errs(*doc, path@, t) =~= before + pe);
        }
        i += 1;
    }
    assert(node.props@.take(node.props.len() as int) =~= node.props@);
}

/// Checks one node and its subtree, appending the errors and counting the
/// nodes.
fn validate_node(
    doc: &Document,
    node: &Node,
    path: &Vec<char>,
    count: &mut usize,
    errors: &mut Vec<ValidationError>,
    Ghost(pre): Ghost<Seq<ErrSpec>>,
)
    requires
        errs_match(old(errors)@, pre),
    ensures
        errs_match(final(errors)@, pre + node_errs(*doc, *node, path@)),
        *final(count) == sat(*old(count) + node_count(*node)),
    decreases *node,
{
    let ghost mut cur = pre;
    *count = if *count < usize::MAX { *count + 1 } else { usize::MAX };
    if !is_known_widget(node.w.as_str()) {
        let ghost es = widget_errs(node.w@, path@)[0];
        let e = mk_err(join(path, "/w"), "WID001", quoted("unknown widget `", node.w.as_str(), "`"),
            "Use one of: column,row,group,scroll,separator,spacer,label,button,text_input,slider,checkbox,toggle,progress,if.");
        push_err(errors, Ghost(cur), e, Ghost(es));
        proof {
            cur = cur.push(es);
        }
    }
    assert(cur =~= pre + widget_errs(node.w@, path@));
    validate_props(doc, node, path, errors, Ghost(cur));
    proof {
        cur = cur + props_errs(*doc, path@, node.props@);
    }
    let ghost c0 = cur;
    let ghost n0 = *count;
    let mut i: usize = 0;
    assert(c0 =~= c0 + children_errs(*doc, node.children@.take(0), path@));
    while i < node.children.len()
        invariant
            i <= node.children@.len(),
            errs_match(errors@, cur),
            cur == c0 + children_errs(*doc, node.children@.take(i as int), path@),
            *count == sat(n0 + children_count(node.children@.take(i as int))),
            n0 >= 0,
        decreases node.children.len() - i,
    {
        proof {
            lemma_children(node.children@, i as int);
        }
        let child_path = join_num(path, "/children/", i);
        let ghost before = cur;
        let ghost cnt = *count;
        validate_node(doc, &node.children[i], &child_path, count, errors, Ghost(cur));
        proof {
            let ch = node.children@[i as int];
            cur = cur + node_errs(*doc, ch, child_path@);
            assert(cur =~= c0 + children_errs(*doc, node.children@.take(i + 1), path@));
            lemma_sat(n0 + children_count(node.children@.take(i as int)), node_count(ch) as int);
        }
        i += 1;
    }
    proof {
        assert(node.children@.take(node.children.len() as int) =~= node.children@);
        assert(cur =~= pre + node_errs(*doc, *node, path@));
        lemma_sat(*old(count) + 1, children_count(node.children@) as int);
    }
}


/// The text of the first field named `key`, when it is a string.
fn text_field_exec(fs: &Vec<(String, Option<String>)>, key: &str) -> (r: Option<String>)
    ensures
        match text_field(fs@, key@) {
            Some(t) => r matches Some(x) && x@ == t,
            None => r is None,
        },
{
    let mut i: usize = 0;
    assert(fs@.skip(0) =~= fs@);
    while i < fs.len()
        invariant
            i <= fs@.len(),
            field(fs@, key@) == field(fs@.skip(i as int), key@),
        decreases fs.len() - i,
    {
        let ghost rest = fs@.skip(i as int);
        assert(rest.drop_first() =~= fs@.skip(i + 1));
        if is_text(fs[i].0.as_str(), key) {
            return match &fs[i].1 {
                Some(t) => Some(t.clone()),
                None => None,
            };
        }
        i += 1;
    }
    None
}

/// Checks the field `key` of an action for a bad expression.
fn check_expr_field(
    a: &Action,
    key: &str,
    apath: &Vec<char>,
    errors: &mut Vec<ValidationError>,
    Ghost(pre): Ghost<Seq<ErrSpec>>,
)
    requires
        errs_match(old(errors)@, pre),
    ensures
        errs_match(final(errors)@, pre + expr_field_errs(a.fields@, key@, apath@)),
{
    match text_field_exec(&a.fields, key) {
        None => {
            assert(pre + expr_field_errs(a.fields@, key@, apath@) =~= pre);
        },
        Some(s) => match expr_ok(s.as_str()) {
            Ok(()) => {
                assert(pre + expr_field_errs(a.fields@, key@, apath@) =~= pre);
            },
            Err(x) => {
                let ghost es = (apath@ + "/"@ + key@, "EXP002"@, "bad expression: "@ + x.0@, "Fix the expression syntax."@);
                let e = mk_err(join(&join(apath, "/"), key), "EXP002", quoted("bad expression: ", x.0.as_str(), ""),
                    "Fix the expression syntax.");
                assert(e.message@ =~= es.2) by {
                    reveal_strlit("");
                }
                push_err(errors, Ghost(pre), e, Ghost(es));
                assert(pre.push(es) =~= pre + expr_field_errs(a.fields@, key@, apath@));
            },
        },
    }
}

/// Checks the verb and the emit target of an action.
fn check_verb_emit(
    doc: &Document,
    a: &Action,
    apath: &Vec<char>,
    errors: &mut Vec<ValidationError>,
    Ghost(pre): Ghost<Seq<ErrSpec>>,
)
    requires
        errs_match(old(errors)@, pre),
    ensures
        errs_match(final(errors)@, pre + verb_errs(*a, apath@) + emit_errs(*doc, *a, apath@)),
{
    let ghost mut cur = pre;
    if !is_known_action(a.verb.as_str()) {
        let ghost es = (apath@ + "/do"@, "ACT001"@, "unknown action `"@ + a.verb@ + "`"@,
            "Use one of: set,toggle,inc,push,remove_at,clear,if,emit,notify,window,timer."@);
        let e = mk_err(join(apath, "/do"), "ACT001", quoted("unknown action `", a.verb.as_str(), "`"),
            "Use one of: set,toggle,inc,push,remove_at,clear,if,emit,notify,window,timer.");
        push_err(errors, Ghost(cur), e, Ghost(es));
        proof {
            cur = cur.push(es);
        }
    }
    assert(cur =~= pre + verb_errs(*a, apath@));
    let ghost c0 = cur;
    if is_text(a.verb.as_str(), "emit") {
        match text_field_exec(&a.fields, "handler") {
            Some(h) => {
                if handler_index(doc, h.as_str()).is_none() {
                    let ghost es = (apath@ + "/handler"@, "REF004"@,
                        "emit references unknown handler `"@ + h@ + "`"@, "Emit must target a defined handler."@);
                    let e = mk_err(join(apath, "/handler"), "REF004",
                        quoted("emit references unknown handler `", h.as_str(), "`"), "Emit must target a defined handler.");
                    push_err(errors, Ghost(cur), e, Ghost(es));
                    proof {
                        cur = cur.push(es);
                    }
                }
            },
            None => {},
        }
    }
    assert(cur =~= c0 + emit_errs(*doc, *a, apath@));
}

/// Checks the expression fields of an action.
fn check_fields(a: &Action, apath: &Vec<char>, errors: &mut Vec<ValidationError>, Ghost(pre): Ghost<Seq<ErrSpec>>)
    requires
        errs_match(old(errors)@, pre),
    ensures
        errs_match(final(errors)@, pre + fields_errs(*a, apath@)),
{
    let ghost mut cur = pre;
    check_expr_field(a, "cond", apath, errors, Ghost(cur));
    proof {
        cur = cur + expr_field_errs(a.fields@, "cond"@, apath@);
    }
    check_expr_field(a, "value", apath, errors, Ghost(cur));
    proof {
        cur = cur + expr_field_errs(a.fields@, "value"@, apath@);
    }
    check_expr_field(a, "by", apath, errors, Ghost(cur));
    proof {
        cur = cur + expr_field_errs(a.fields@, "by"@, apath@);
    }
    check_expr_field(a, "index", apath, errors, Ghost(cur));
    proof {
        cur = cur + expr_field_errs(a.fields@, "index"@, apath@);
    }
    assert(cur =~= pre + fields_errs(*a, apath@));
}

/// Checks one action and its nested branches, appending the errors.
#[verifier::spinoff_prover]
#[verifier::rlimit(40)]
fn validate_action(
    doc: &Document,
    a: &Action,
    apath: &Vec<char>,
    errors: &mut Vec<ValidationError>,
    Ghost(pre): Ghost<Seq<ErrSpec>>,
)
    requires
        errs_match(old(errors)@, pre),
    ensures
        errs_match(final(errors)@, pre + action_errs(*doc, *a, apath@)),
    decreases *a,
{
    let ghost mut cur = pre;
    check_verb_emit(doc, a, apath, errors, Ghost(cur));
    proof {
        cur = cur + verb_errs(*a, apath@) + emit_errs(*doc, *a, apath@);
    }
    check_fields(a, apath, errors, Ghost(cur));
    proof {
        cur = cur + fields_errs(*a, apath@);
    }
    let ghost c2 = cur;
    match &a.then_actions {
        Some(v) => {
            let bp = join(apath, "/then");
            validate_actions(doc, v, &bp, errors, Ghost(cur));
            proof {
                cur = cur + actions_errs(*doc, v@, bp@);
            }
        },
        None => {},
    }
    match &a.else_actions {
        Some(v) => {
            let bp = join(apath, "/else");
            validate_actions(doc, v, &bp, errors, Ghost(cur));
            proof {
                cur = cur + actions_errs(*doc, v@, bp@);
            }
        },
        None => {},
    }
    assert(cur =~= pre + action_errs(*doc, *a, apath@));
}

/// Checks a list of actions and their nested branches, appending the
/// errors.
fn validate_actions(
    doc: &Document,
    actions: &Vec<Action>,
    path: &Vec<char>,
    errors: &mut Vec<ValidationError>,
    Ghost(pre): Ghost<Seq<ErrSpec>>,
)
    requires
        errs_match(old(errors)@, pre),
    ensures
        errs_match(final(errors)@, pre + actions_errs(*doc, actions@, path@)),
    decreases actions@,
{
    let ghost mut cur = pre;
    let mut i: usize = 0;
    assert(pre =~= pre + actions_errs(*doc, actions@.take(0), path@));
    while i < actions.len()
        invariant
            i <= actions@.len(),
            errs_match(errors@, cur),
            cur == pre + actions_errs(*doc, actions@.take(i as int), path@),
        decreases actions.len() - i,
    {
        let apath = join_num(path, "/", i);
        let ghost before = cur;
        validate_action(doc, &actions[i], &apath, errors, Ghost(cur));
        proof {
            cur = cur + action_errs(*doc, actions@[i as int], apath@);
            let t = actions@.take(i + 1);
            assert(t.drop_last() =~= actions@.take(i as int));
            assert(t[t.len() - 1] == actions@[i as int]);
            assert(cur =~= pre + actions_errs(*doc, t, path@));
        }
        i += 1;
    }
    assert(actions@.take(actions.len() as int) =~= actions@);
}


proof fn lemma_any_cycle_concat(doc: Document, a: Seq<Seq<char>>, b: Seq<Seq<char>>, path: Seq<Seq<char>>, fuel: nat)
    ensures
        any_cycle(doc, a + b, path, fuel) == (any_cycle(doc, a, path, fuel) || any_cycle(doc, b, path, fuel)),
    decreases b.len(),
{
    if b.len() == 0 {
        assert(a + b =~= a);
    } else {
        assert((a + b).drop_last() =~= a + b.drop_last());
        assert((a + b).last() == b.last());
        lemma_any_cycle_concat(doc, a, b.drop_last(), path, fuel);
    }
}

proof fn lemma_any_cycle_one(doc: Document, t: Seq<char>, path: Seq<Seq<char>>, fuel: nat)
    ensures
        any_cycle(doc, seq![t], path, fuel) == (path.contains(t) || cycles(doc, t, path.push(t), fuel)),
{
    assert(seq![t].drop_last() =~= Seq::<Seq<char>>::empty());
    assert(seq![t].last() == t);
    assert(!any_cycle(doc, Seq::<Seq<char>>::empty(), path, fuel));
}

proof fn lemma_find_handler(hs: Seq<(String, Vec<Action>)>, name: Seq<char>)
    ensures
        find_handler(hs, name) matches Some(i) ==> 0 <= i < hs.len() && hs[i].0@ == name,
    decreases hs.len(),
{
    if hs.len() > 0 {
        lemma_find_handler(hs.drop_last(), name);
    }
}

/// Whether the stack holds `t`.
fn stack_has(stack: &Vec<String>, t: &str) -> (r: bool)
    ensures
        r == strs_view(stack@).contains(t@),
{
    let mut i: usize = 0;
    while i < stack.len()
        invariant
            i <= stack@.len(),
            forall|j: int| 0 <= j < i ==> stack@[j]@ != t@,
        decreases stack.len() - i,
    {
        if is_text(stack[i].as_str(), t) {
            assert(strs_view(stack@)[i as int] == t@);
            return true;
        }
        i += 1;
    }
    assert(!strs_view(stack@).contains(t@)) by {
        if strs_view(stack@).contains(t@) {
            let j = choose|j: int| 0 <= j < strs_view(stack@).len() && strs_view(stack@)[j] == t@;
            assert(stack@[j]@ == t@);
        }
    }
    false
}

/// Whether following emits from `current`, the last handler on the stack,
/// comes back to a handler on the stack.
fn has_cycle(doc: &Document, current: &str, stack: &mut Vec<String>) -> (r: bool)
    ensures
        r == cycles(*doc, current@, strs_view(old(stack)@), cycle_fuel(*doc, old(stack)@.len())),
        !r ==> strs_view(final(stack)@) == strs_view(old(stack)@),
    decreases cycle_fuel(*doc, old(stack)@.len()), 1nat, Seq::<Action>::empty(),
{
    if stack.len() > doc.handlers.len() {
        return false;
    }
    proof {
        lemma_find_handler(doc.handlers@, current@);
    }
    let idx = match handler_index(doc, current) {
        Some(i) => i,
        None => return false,
    };
    walk(doc, &doc.handlers[idx].1, stack)
}

proof fn lemma_targets_concat(s: Seq<Action>, u: Seq<Action>)
    ensures
        targets(s + u) == targets(s) + targets(u),
    decreases u.len(),
{
    if u.len() == 0 {
        assert(s + u =~= s);
        assert(targets(s) + targets(u) =~= targets(s));
    } else {
        assert((s + u).drop_last() =~= s + u.drop_last());
        assert((s + u)[(s + u).len() - 1] == u[u.len() - 1]);
        lemma_targets_concat(s, u.drop_last());
        assert(targets(s + u) =~= targets(s) + targets(u));
    }
}

/// The targets an action emits itself.
spec fn own_targets(a: Action) -> Seq<Seq<char>> {
    if a.verb@ == "emit"@ && text_field(a.fields@, "handler"@) is Some {
        seq![text_field(a.fields@, "handler"@)->0]
    } else {
        Seq::empty()
    }
}

/// The targets of an optional branch.
spec fn branch_targets(b: Option<Vec<Action>>) -> Seq<Seq<char>> {
    match b {
        Some(v) => targets(v@),
        None => Seq::empty(),
    }
}

proof fn lemma_action_parts(doc: Document, a: Action, path: Seq<Seq<char>>, f: nat)
    ensures
        action_targets(a) == own_targets(a) + branch_targets(a.then_actions) + branch_targets(a.else_actions),
        any_cycle(doc, action_targets(a), path, f) == (any_cycle(doc, own_targets(a), path, f)
            || any_cycle(doc, branch_targets(a.then_actions), path, f) || any_cycle(doc, branch_targets(a.else_actions), path, f)),
{
    lemma_any_cycle_concat(doc, own_targets(a) + branch_targets(a.then_actions), branch_targets(a.else_actions), path, f);
    lemma_any_cycle_concat(doc, own_targets(a), branch_targets(a.then_actions), path, f);
}

proof fn lemma_hit_at(doc: Document, actions: Seq<Action>, i: int, path: Seq<Seq<char>>, f: nat)
    requires
        0 <= i < actions.len(),
        any_cycle(doc, action_targets(actions[i]), path, f),
    ensures
        any_cycle(doc, targets(actions), path, f),
{
    let t = actions.take(i + 1);
    assert(t.drop_last() =~= actions.take(i));
    assert(t[t.len() - 1] == actions[i]);
    assert(actions =~= t + actions.skip(i + 1));
    lemma_targets_concat(t, actions.skip(i + 1));
    lemma_any_cycle_concat(doc, targets(t), targets(actions.skip(i + 1)), path, f);
    lemma_any_cycle_concat(doc, targets(actions.take(i)), action_targets(actions[i]), path, f);
}

/// Whether one of the handlers `actions` emit is on the stack or leads
/// back to it.
fn walk(doc: &Document, actions: &Vec<Action>, stack: &mut Vec<String>) -> (r: bool)
    ensures
        r == any_cycle(*doc, targets(actions@), strs_view(old(stack)@), cycle_fuel(*doc, old(stack)@.len() + 1)),
        !r ==> strs_view(final(stack)@) == strs_view(old(stack)@),
    decreases cycle_fuel(*doc, old(stack)@.len() + 1), 2nat, actions@,
{
    let ghost path = strs_view(stack@);
    let ghost f = cycle_fuel(*doc, stack@.len() + 1);
    let mut i: usize = 0;
    assert(targets(actions@.take(0)) =~= Seq::<Seq<char>>::empty());
    while i < actions.len()
        invariant
            i <= actions@.len(),
            strs_view(stack@) == path,
            path == strs_view(old(stack)@),
            stack@.len() == old(stack)@.len(),
            f == cycle_fuel(*doc, old(stack)@.len() + 1),
            !any_cycle(*doc, targets(actions@.take(i as int)), path, f),
        decreases actions.len() - i,
    {
        let a = &actions[i];
        proof {
            lemma_action_parts(*doc, *a, path, f);
        }
        if is_text(a.verb.as_str(), "emit") {
            match text_field_exec(&a.fields, "handler") {
                Some(t) => {
                    proof {
                        lemma_any_cycle_one(*doc, t@, path, f);
                        assert(own_targets(*a) == seq![t@]);
                    }
                    if stack_has(stack, t.as_str()) {
                        proof {
                            lemma_hit_at(*doc, actions@, i as int, path, f);
                        }
                        return true;
                    }
                    stack.push(t.clone());
                    assert(strs_view(stack@) =~= path.push(t@));
                    let found = has_cycle(doc, t.as_str(), stack);
                    if found {
                        proof {
                            lemma_hit_at(*doc, actions@, i as int, path, f);
                        }
                        return true;
                    }
                    let ghost full = stack@;
                    stack.pop();
                    assert(strs_view(stack@) =~= strs_view(full).drop_last());
                    assert(strs_view(stack@) =~= path);
                },
                None => {
                    assert(own_targets(*a) =~= Seq::<Seq<char>>::empty());
                },
            }
        } else {
            assert(own_targets(*a) =~= Seq::<Seq<char>>::empty());
        }
        assert(stack@.len() == strs_view(stack@).len());
        assert(!any_cycle(*doc, own_targets(*a), path, f));
        match &a.then_actions {
            Some(v) => {
                if walk(doc, v, stack) {
                    proof {
                        lemma_hit_at(*doc, actions@, i as int, path, f);
                    }
                    return true;
                }
            },
            None => {},
        }
        assert(stack@.len() == strs_view(stack@).len());
        assert(!any_cycle(*doc, branch_targets(a.then_actions), path, f));
        match &a.else_actions {
            Some(v) => {
                if walk(doc, v, stack) {
                    proof {
                        lemma_hit_at(*doc, actions@, i as int, path, f);
                    }
                    return true;
                }
            },
            None => {},
        }
        assert(stack@.len() == strs_view(stack@).len());
        assert(!any_cycle(*doc, branch_targets(a.else_actions), path, f));
        proof {
            let t = actions@.take(i + 1);
            assert(t.drop_last() =~= actions@.take(i as int));
            assert(t[t.len() - 1] == *a);
            lemma_any_cycle_concat(*doc, targets(actions@.take(i as int)), action_targets(*a), path, f);
        }
        i += 1;
    }
    assert(actions@.take(actions.len() as int) =~= actions@);
    false
}


/// Checks the actions of every handler, appending the errors.
fn validate_handlers(doc: &Document, errors: &mut Vec<ValidationError>, Ghost(pre): Ghost<Seq<ErrSpec>>)
    requires
        errs_match(old(errors)@, pre),
    ensures
        errs_match(final(errors)@, pre + handlers_errs(*doc, doc.handlers@)),
{
    let ghost mut cur = pre;
    let mut i: usize = 0;
    assert(pre =~= pre + handlers_errs(*doc, doc.handlers@.take(0)));
    while i < doc.handlers.len()
        invariant
            i <= doc.handlers@.len(),
            errs_match(errors@, cur),
            cur == pre + handlers_errs(*doc, doc.handlers@.take(i as int)),
        decreases doc.handlers.len() - i,
    {
        let path = join(&chars_of("/handlers/"), doc.handlers[i].0.as_str());
        validate_actions(doc, &doc.handlers[i].1, &path, errors, Ghost(cur));
        proof {
            cur = cur + actions_errs(*doc, doc.handlers@[i as int].1@, path@);
            let t = doc.handlers@.take(i + 1);
            assert(t.drop_last() =~= doc.handlers@.take(i as int));
            assert(t.last() == doc.handlers@[i as int]);
            assert(cur =~= pre + handlers_errs(*doc, t));
        }
        i += 1;
    }
    assert(doc.handlers@.take(doc.handlers.len() as int) =~= doc.handlers@);
}

/// Checks that every timer names a handler, appending the errors.
fn validate_timers(doc: &Document, errors: &mut Vec<ValidationError>, Ghost(pre): Ghost<Seq<ErrSpec>>)
    requires
        errs_match(old(errors)@, pre),
    ensures
        errs_match(final(errors)@, pre + timers_errs(*doc, doc.timers@)),
{
    let ghost mut cur = pre;
    let mut i: usize = 0;
    assert(pre =~= pre + timers_errs(*doc, doc.timers@.take(0)));
    while i < doc.timers.len()
        invariant
            i <= doc.timers@.len(),
            errs_match(errors@, cur),
            cur == pre + timers_errs(*doc, doc.timers@.take(i as int)),
        decreases doc.timers.len() - i,
    {
        let ghost before = cur;
        let h = doc.timers[i].as_str();
        if handler_index(doc, h).is_none() {
            let path = join(&join_num(&chars_of("/timers/"), "", i), "/handler");
            let ghost es = ("/timers/"@ + dec(i as nat) + "/handler"@, "REF002"@,
                "timer references unknown handler `"@ + h@ + "`"@, "Point the timer at a handler defined in /handlers."@);
            assert(path@ =~= es.0) by {
                assert(""@ =~= Seq::<char>::empty()) by {
                    reveal_strlit("");
                }
            }
            let e = mk_err(path, "REF002", quoted("timer references unknown handler `", h, "`"),
                "Point the timer at a handler defined in /handlers.");
            push_err(errors, Ghost(cur), e, Ghost(es));
            proof {
                cur = cur.push(es);
            }
        }
        proof {
            let t = doc.timers@.take(i + 1);
            assert(t.drop_last() =~= doc.timers@.take(i as int));
            assert(t.last() == doc.timers@[i as int]);
            assert(cur =~= pre + timers_errs(*doc, t));
        }
        i += 1;
    }
    assert(doc.timers@.take(doc.timers.len() as int) =~= doc.timers@);
}

/// Reports every handler involved in an emit cycle, appending the errors.
fn validate_cycles(doc: &Document, errors: &mut Vec<ValidationError>, Ghost(pre): Ghost<Seq<ErrSpec>>)
    requires
        errs_match(old(errors)@, pre),
    ensures
        errs_match(final(errors)@, pre + cycle_errs(*doc, doc.handlers@)),
{
    let ghost mut cur = pre;
    let mut i: usize = 0;
    assert(pre =~= pre + cycle_errs(*doc, doc.handlers@.take(0)));
    while i < doc.handlers.len()
        invariant
            i <= doc.handlers@.len(),
            errs_match(errors@, cur),
            cur == pre + cycle_errs(*doc, doc.handlers@.take(i as int)),
        decreases doc.handlers.len() - i,
    {
        let ghost before = cur;
        let name = doc.handlers[i].0.as_str();
        let mut stack: Vec<String> = Vec::new();
        stack.push(String::from_str(name));
        assert(strs_view(stack@) =~= seq![name@]);
        if has_cycle(doc, name, &mut stack) {
            let path = join(&chars_of("/handlers/"), name);
            let ghost es = ("/handlers/"@ + name@, "CYC001"@, "emit cycle involving `"@ + name@ + "`"@,
                "Handlers may emit other handlers but never form a cycle."@);
            let e = mk_err(path, "CYC001", quoted("emit cycle involving `", name, "`"),
                "Handlers may emit other handlers but never form a cycle.");
            push_err(errors, Ghost(cur), e, Ghost(es));
            proof {
                cur = cur.push(es);
            }
        }
        proof {
            let t = doc.handlers@.take(i + 1);
            assert(t.drop_last() =~= doc.handlers@.take(i as int));
            assert(t.last() == doc.handlers@[i as int]);
            assert(cur =~= pre + cycle_errs(*doc, t));
        }
        i += 1;
    }
    assert(doc.handlers@.take(doc.handlers.len() as int) =~= doc.handlers@);
}

/// A count with a suffix, as an error message.
fn count_msg(n: usize, suffix: &str) -> (r: String)
    ensures
        r@ == dec(n as nat) + suffix@,
{
    let mut v: Vec<char> = Vec::new();
    push_dec(&mut v, n as u64);
    push_str(&mut v, suffix);
    string_of(&v)
}

/// Validates a document through the semantic stages: the format version,
/// the limits, the UI tree, the handlers, the timers and the emit graph.
/// A document without errors comes back unchanged; otherwise the first
/// twelve errors (see [`validation_errs`]).
pub fn validate(doc: Document) -> (r: Result<Document, Vec<ValidationError>>)
    ensures
        validation_errs(doc).len() == 0 ==> r == Ok::<Document, Vec<ValidationError>>(doc),
        validation_errs(doc).len() > 0 ==> (r matches Err(v) && errs_match(v@, reported(doc))),
{
    let mut errors: Vec<ValidationError> = Vec::new();
    let ghost mut cur = Seq::<ErrSpec>::empty();
    let version = chars_of(doc.conjure.as_str());
    let one_dot = chars_of("1.");
    if !crate::text::starts_with(&version, &one_dot) {
        let ghost es = ("/conjure"@, "VER001"@, "unsupported format version "@ + doc.conjure@, "Use \"conjure\": \"1.0\"."@);
        let e = mk_err(chars_of("/conjure"), "VER001", quoted("unsupported format version ", doc.conjure.as_str(), ""),
            "Use \"conjure\": \"1.0\".");
        assert(e.message@ =~= es.2) by {
            reveal_strlit("");
        }
        push_err(&mut errors, Ghost(cur), e, Ghost(es));
        proof {
            cur = cur.push(es);
        }
    }
    if doc.state.len() > 64 {
        let ghost es = ("/state"@, "LIM002"@, dec(doc.state@.len()) + " state entries (max 64)"@, "Reduce state entries."@);
        let e = mk_err(chars_of("/state"), "LIM002", count_msg(doc.state.len(), " state entries (max 64)"),
            "Reduce state entries.");
        push_err(&mut errors, Ghost(cur), e, Ghost(es));
        proof {
            cur = cur.push(es);
        }
    }
    if doc.timers.len() > 4 {
        let ghost es = ("/timers"@, "LIM003"@, dec(doc.timers@.len()) + " timers (max 4)"@, "Use at most 4 timers."@);
        let e = mk_err(chars_of("/timers"), "LIM003", count_msg(doc.timers.len(), " timers (max 4)"), "Use at most 4 timers.");
        push_err(&mut errors, Ghost(cur), e, Ghost(es));
        proof {
            cur = cur.push(es);
        }
    }
    let ghost c0 = cur;
    let mut count: usize = 0;
    let ui_path = chars_of("/ui");
    validate_node(&doc, &doc.ui, &ui_path, &mut count, &mut errors, Ghost(cur));
    proof {
        cur = cur + node_errs(doc, doc.ui, "/ui"@);
    }
    if count > 512 {
        let ghost es = ("/ui"@, "LIM004"@, dec(counted(doc)) + " UI nodes (max 512)"@, "Simplify the UI tree."@);
        let e = mk_err(chars_of("/ui"), "LIM004", count_msg(count, " UI nodes (max 512)"), "Simplify the UI tree.");
        push_err(&mut errors, Ghost(cur), e, Ghost(es));
        proof {
            cur = cur.push(es);
        }
    }
    let ghost c1 = cur;
    validate_handlers(&doc, &mut errors, Ghost(cur));
    proof {
        cur = cur + handlers_errs(doc, doc.handlers@);
    }
    validate_timers(&doc, &mut errors, Ghost(cur));
    proof {
        cur = cur + timers_errs(doc, doc.timers@);
    }
    validate_cycles(&doc, &mut errors, Ghost(cur));
    proof {
        cur = cur + cycle_errs(doc, doc.handlers@);
        assert(cur =~= validation_errs(doc));
    }
    if errors.len() == 0 {
        return Ok(doc);
    }
    errors.truncate(12);
    Err(errors)
}

/// The answer to a document over the size limit (256 KiB), if it is.
pub fn check_size(len: usize) -> (r: Option<ValidationError>)
    ensures
        len <= 262144 ==> r is None,
        len > 262144 ==> (r matches Some(e) && err_matches(e, (Seq::<char>::empty(), "LIM001"@,
            "document is "@ + dec(len as nat) + " bytes (max 262144)"@, "Generate a smaller app."@))),
{
    if len <= 262144 {
        return None;
    }
    let mut v: Vec<char> = Vec::new();
    push_str(&mut v, "document is ");
    push_dec(&mut v, len as u64);
    push_str(&mut v, " bytes (max 262144)");
    Some(mk_err(Vec::new(), "LIM001", string_of(&v), "Generate a smaller app."))
}

/// The answer to a document that is not well-formed JSON for the schema,
/// carrying the parser's message.
pub fn json_error(message: String) -> (r: ValidationError)
    ensures
        r.path@ == Seq::<char>::empty(),
        r.code@ == "JSON001"@,
        r.message == message,
        r.hint@ == "Emit exactly one well-formed JSON object matching the Conjure schema."@,
{
    mk_err(Vec::new(), "JSON001", message, "Emit exactly one well-formed JSON object matching the Conjure schema.")
}

} // verus!
