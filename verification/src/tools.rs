//! The System Assistant's tools. The assistant asks for a tool by name
//! with string arguments; each tool runs as one capability-checked syscall
//! on behalf of the shell, exactly as any other process's call would, and
//! its reply becomes the text the assistant reads.

use vstd::prelude::*;
use crate::abi::{DirEntry, ErrorCode, Pid, Reply, Syscall};
use crate::apps::{percent_encoded, urlencode};
use crate::kernel::Kernel;
use crate::proc::{fs_allowed, holds};
use crate::path::norm;
use crate::terminal::{code_name, code_text, lossy_text, utf8_lossy};
use crate::text::{chars_eq, chars_of, dec, push_dec, push_str, string_of};
use crate::vfs::{EntryView, entries_view};
use crate::apps::{AppKind, title_spec};
use crate::palette::{find_kind, first_kind, kinds};
use crate::text::{lowercase, to_lower};

verus! {

/// One tool call of the assistant: the tool's name and its arguments, by
/// key.
pub struct ToolCall {
    pub tool: String,
    pub args: Vec<(String, String)>,
}

/// The views of the arguments of a call.
pub open spec fn args_view(s: Seq<(String, String)>) -> Seq<(Seq<char>, Seq<char>)> {
    s.map_values(|a: (String, String)| (a.0@, a.1@))
}

/// The value of the argument `key`: the first one given under that key,
/// or the empty text when there is none.
pub open spec fn arg_value(args: Seq<(Seq<char>, Seq<char>)>, key: Seq<char>) -> Seq<char>
    decreases args.len(),
{
    if args.len() == 0 {
        Seq::empty()
    } else if args[0].0 == key {
        args[0].1
    } else {
        arg_value(args.drop_first(), key)
    }
}

/// The most bytes of file text handed back to the assistant.
pub const MAX_RESULT: usize = 4000;

/// The number of bytes of the UTF-8 encoding of `c`.
pub open spec fn char_len(c: char) -> nat {
    if (c as u32) < 0x80 {
        1
    } else if (c as u32) < 0x800 {
        2
    } else if (c as u32) < 0x10000 {
        3
    } else {
        4
    }
}

/// The number of bytes of the UTF-8 encoding of `s`.
pub open spec fn utf8_len(s: Seq<char>) -> nat
    decreases s.len(),
{
    if s.len() == 0 {
        0
    } else {
        char_len(s[0]) + utf8_len(s.drop_first())
    }
}

/// How many leading characters of `s` start before byte `limit`.
pub open spec fn kept_chars(s: Seq<char>, limit: int) -> nat
    decreases s.len(),
{
    if s.len() == 0 || limit <= 0 {
        0
    } else {
        1 + kept_chars(s.drop_first(), limit - char_len(s[0]))
    }
}

/// File text as the assistant reads it: text longer than `MAX_RESULT`
/// bytes keeps each character that starts before that byte, and a note
/// says it was cut.
pub open spec fn capped_text(s: Seq<char>) -> Seq<char> {
    if utf8_len(s) > MAX_RESULT {
        s.take(kept_chars(s, MAX_RESULT as int) as int) + "\n… (truncated)"@
    } else {
        s
    }
}

/// One line of a directory listing: a directory's name with a slash, a
/// file's name with its size.
pub open spec fn entry_line(e: EntryView) -> Seq<char> {
    if e.1 {
        e.0 + "/"@
    } else {
        e.0 + " ("@ + dec(e.2 as nat) + " B)"@
    }
}

/// The lines of a directory listing, one per entry.
pub open spec fn listing_text(l: Seq<EntryView>) -> Seq<char>
    decreases l.len(),
{
    if l.len() == 0 {
        Seq::empty()
    } else if l.len() == 1 {
        entry_line(l[0])
    } else {
        listing_text(l.drop_last()) + "\n"@ + entry_line(l.last())
    }
}

/// The address of a keyless encyclopedia search for `query`.
pub open spec fn search_url(query: Seq<char>) -> Seq<char> {
    "https://en.wikipedia.org/w/api.php?action=opensearch&format=json&origin=*&limit=5&search="@
        + percent_encoded(vstd::utf8::encode_utf8(query))
}

/// The address of the reader proxy that turns the page at `url` into
/// text.
pub open spec fn reader_url(url: Seq<char>) -> Seq<char> {
    "https://r.jina.ai/"@ + url
}

/// The text a tool's failure shows: the error code's name.
pub open spec fn failed(e: ErrorCode) -> (bool, Seq<char>) {
    (false, code_name(e))
}

/// The marker of a tool whose answer comes later, with a web result.
pub open spec fn deferred() -> Seq<char> {
    "__deferred__"@
}

/// What a web fetch's reply makes of a tool call: deferred while the
/// platform fetches, or the failure.
pub open spec fn web_answer(r: Result<Reply, ErrorCode>) -> (bool, Seq<char>) {
    match r {
        Ok(Reply::Bytes(_)) => (true, deferred()),
        Ok(_) => (false, "unexpected reply"@),
        Err(e) => failed(e),
    }
}

/// What a file write's reply makes of a tool call.
pub open spec fn write_answer(r: Result<Reply, ErrorCode>) -> (bool, Seq<char>) {
    match r {
        Ok(_) => (true, "written"@),
        Err(e) => failed(e),
    }
}

/// The tools that act on the shell's own windows and stage: they are the
/// shell's, not the kernel's, and [`execute_tool`] leaves them to it
/// ([`app_open`] decides which app the shell opens).
pub open spec fn shell_tool(t: Seq<char>) -> bool {
    t == "stage_spawn"@ || t == "stage_list"@ || t == "stage_remove"@ || t == "stage_clear"@
        || t == "stage_push"@ || t == "stage_light"@ || t == "web_open"@ || t == "app_open"@
}

/// What querying the system file `path` gives the assistant.
pub open spec fn sys_query_answer(k: Kernel, pid: Pid, path: Seq<char>) -> (bool, Seq<char>) {
    if !holds(k.procs@, pid.0, crate::kernel::cap_sys_query()) {
        failed(ErrorCode::CapabilityDenied)
    } else {
        match k.vfs.read_spec(path) {
            Some(b) => (true, utf8_lossy(b)),
            None => failed(ErrorCode::NotFound),
        }
    }
}

/// What listing the directory `path` gives the assistant.
pub open spec fn fs_list_answer(k: Kernel, pid: Pid, path: Seq<char>) -> (bool, Seq<char>) {
    if !fs_allowed(k.procs@, pid.0, norm(path), false) {
        failed(ErrorCode::CapabilityDenied)
    } else {
        match k.vfs.list_spec(path) {
            Some(l) => (true, listing_text(l)),
            None => failed(ErrorCode::NotFound),
        }
    }
}

/// What reading the file `path` gives the assistant.
pub open spec fn fs_read_answer(k: Kernel, pid: Pid, path: Seq<char>) -> (bool, Seq<char>) {
    if !fs_allowed(k.procs@, pid.0, norm(path), false) {
        failed(ErrorCode::CapabilityDenied)
    } else {
        match k.vfs.read_spec(path) {
            Some(b) => (true, capped_text(utf8_lossy(b))),
            None => failed(ErrorCode::NotFound),
        }
    }
}

/// `post` is the kernel after process `pid` asked the platform to fetch
/// `url`, and `out` is what the assistant reads of it.
pub open spec fn fetched(pre: Kernel, post: Kernel, pid: Pid, url: Seq<char>, out: (bool, Seq<char>)) -> bool {
    exists|u: String, r: Result<Reply, ErrorCode>|
        u@ == url && #[trigger] Kernel::post_web_fetch(pre, post, pid, u, r) && out == web_answer(r)
}

/// `post` is the kernel after the tool `tool` ran with `args` on behalf of
/// process `pid`, and `r` is what the assistant reads: nothing for the
/// shell's own tools, which change nothing here.
pub open spec fn tool_ran(
    pre: Kernel,
    post: Kernel,
    pid: Pid,
    tool: Seq<char>,
    args: Seq<(Seq<char>, Seq<char>)>,
    r: Option<(bool, Seq<char>)>,
) -> bool {
    if tool == "sys_query"@ {
        post == pre && r == Some(sys_query_answer(pre, pid, arg_value(args, "path"@)))
    } else if tool == "fs_list"@ {
        post == pre && r == Some(fs_list_answer(pre, pid, arg_value(args, "path"@)))
    } else if tool == "fs_read"@ {
        post == pre && r == Some(fs_read_answer(pre, pid, arg_value(args, "path"@)))
    } else if tool == "fs_write"@ {
        exists|p: String, b: Vec<u8>, w: Result<Reply, ErrorCode>|
            p@ == arg_value(args, "path"@) && b@ == vstd::utf8::encode_utf8(arg_value(args, "content"@))
                && #[trigger] Kernel::post_fs_write(pre, post, pid, p, b, w) && r == Some(write_answer(w))
    } else if tool == "web_search"@ {
        r matches Some(out) && fetched(pre, post, pid, search_url(arg_value(args, "query"@)), out)
    } else if tool == "web_fetch"@ {
        if arg_value(args, "url"@).len() == 0 {
            post == pre && r == Some((false, "missing url"@))
        } else {
            r matches Some(out) && fetched(pre, post, pid, reader_url(arg_value(args, "url"@)), out)
        }
    } else if shell_tool(tool) {
        post == pre && r is None
    } else {
        post == pre && r == Some((false, "unknown tool `"@ + tool + "`"@))
    }
}

/// The lengths and telling letters of the kernel tools' names.
proof fn lemma_tool_names()
    ensures
        "sys_query"@.len() == 9 && "sys_query"@[0] == 's',
        "fs_list"@.len() == 7 && "fs_list"@[3] == 'l',
        "fs_read"@.len() == 7 && "fs_read"@[3] == 'r',
        "fs_write"@.len() == 8,
        "web_search"@.len() == 10,
        "web_fetch"@.len() == 9 && "web_fetch"@[0] == 'w',
        ""@.len() == 0,
{
    reveal_strlit("");
    reveal_strlit("sys_query");
    reveal_strlit("fs_list");
    reveal_strlit("fs_read");
    reveal_strlit("fs_write");
    reveal_strlit("web_search");
    reveal_strlit("web_fetch");
}

/// Whether `s` is the text `lit`.
fn is_text(s: &str, lit: &str) -> (r: bool)
    ensures
        r == (s@ == lit@),
{
    let a = chars_of(s);
    let b = chars_of(lit);
    chars_eq(&a, &b)
}

/// The value of the argument `key` of a call, or the empty text.
fn arg(call: &ToolCall, key: &str) -> (r: String)
    ensures
        r@ == arg_value(args_view(call.args@), key@),
{
    let ghost av = args_view(call.args@);
    assert(av.skip(0) =~= av);
    let mut i: usize = 0;
    while i < call.args.len()
        invariant
            i <= call.args@.len(),
            av == args_view(call.args@),
            arg_value(av, key@) == arg_value(av.skip(i as int), key@),
        decreases call.args.len() - i,
    {
        assert(av.skip(i as int)[0] == av[i as int]);
        if is_text(call.args[i].0.as_str(), key) {
            return call.args[i].1.clone();
        }
        assert(av.skip(i as int).drop_first() =~= av.skip(i + 1));
        i += 1;
    }
    assert(av.skip(i as int).len() == 0);
    String::new()
}

/// The number of bytes of the UTF-8 encoding of `c`.
fn char_bytes(c: char) -> (r: usize)
    ensures
        r == char_len(c),
        1 <= r <= 4,
{
    let u = c as u32;
    if u < 0x80 {
        1
    } else if u < 0x800 {
        2
    } else if u < 0x10000 {
        3
    } else {
        4
    }
}

/// Caps file text at `MAX_RESULT` bytes on a character boundary.
fn cap_text(s: String) -> (r: String)
    ensures
        r@ == capped_text(s@),
{
    let v = chars_of(s.as_str());
    let n = v.len();
    let mut i: usize = 0;
    let mut total: usize = 0;
    assert(v@.skip(0) =~= v@);
    while i < n && total <= MAX_RESULT
        invariant
            i <= n,
            n == v@.len(),
            total <= MAX_RESULT + 4,
            utf8_len(v@) == total + utf8_len(v@.skip(i as int)),
        decreases n - i,
    {
        assert(v@.skip(i as int).drop_first() =~= v@.skip(i + 1));
        assert(v@.skip(i as int)[0] == v@[i as int]);
        total = total + char_bytes(v[i]);
        i += 1;
    }
    if total <= MAX_RESULT {
        assert(v@.skip(i as int).len() == 0);
        assert(s@ == v@);
        return s;
    }
    let mut out: Vec<char> = Vec::new();
    let mut j: usize = 0;
    let mut off: usize = 0;
    assert(v@.skip(0) =~= v@);
    while j < n && off < MAX_RESULT
        invariant
            j <= n,
            n == v@.len(),
            off < MAX_RESULT + 4,
            out@ == v@.take(j as int),
            kept_chars(v@, MAX_RESULT as int) == j + kept_chars(v@.skip(j as int), MAX_RESULT - off),
        decreases n - j,
    {
        assert(v@.skip(j as int).drop_first() =~= v@.skip(j + 1));
        assert(v@.skip(j as int)[0] == v@[j as int]);
        off = off + char_bytes(v[j]);
        out.push(v[j]);
        assert(out@ =~= v@.take(j + 1));
        j += 1;
    }
    assert(kept_chars(v@.skip(j as int), MAX_RESULT - off) == 0);
    push_str(&mut out, "\n… (truncated)");
    string_of(&out)
}

/// The lines of a directory listing.
fn listing_lines(entries: &Vec<DirEntry>) -> (r: String)
    ensures
        r@ == listing_text(entries_view(entries@)),
{
    let ghost ev = entries_view(entries@);
    let mut out: Vec<char> = Vec::new();
    let mut i: usize = 0;
    while i < entries.len()
        invariant
            i <= entries@.len(),
            ev == entries_view(entries@),
            out@ == listing_text(ev.take(i as int)),
        decreases entries.len() - i,
    {
        let ghost before = out@;
        let e = &entries[i];
        if i > 0 {
            push_str(&mut out, "\n");
        }
        push_str(&mut out, e.name.as_str());
        if e.dir {
            push_str(&mut out, "/");
        } else {
            push_str(&mut out, " (");
            push_dec(&mut out, e.size);
            push_str(&mut out, " B)");
        }
        proof {
            let t = ev.take(i + 1);
            assert(t.drop_last() =~= ev.take(i as int));
            assert(t.last() == ev[i as int]);
            assert(ev[i as int] == (e.name@, e.dir, e.size));
            if i == 0 {
                assert(t.len() == 1);
                assert(out@ =~= listing_text(t));
            } else {
                assert(out@ =~= before + "\n"@ + entry_line(ev[i as int]));
            }
        }
        i += 1;
    }
    assert(ev.take(entries.len() as int) =~= ev);
    string_of(&out)
}

/// The UTF-8 bytes of a text.
fn utf8_bytes(s: &str) -> (r: Vec<u8>)
    ensures
        r@ == vstd::utf8::encode_utf8(s@),
{
    let b = s.as_bytes();
    let mut out: Vec<u8> = Vec::new();
    let mut i: usize = 0;
    while i < b.len()
        invariant
            i <= b@.len(),
            out@ == b@.take(i as int),
        decreases b.len() - i,
    {
        out.push(b[i]);
        assert(out@ =~= b@.take(i + 1));
        i += 1;
    }
    assert(b@.take(b@.len() as int) =~= b@);
    out
}

/// The text of an error code's failure.
fn failure(e: &ErrorCode) -> (r: (bool, String))
    ensures
        (r.0, r.1@) == failed(*e),
{
    (false, String::from_str(code_text(e)))
}

/// Asks the platform to fetch `url` for the assistant.
fn web_tool(kernel: &mut Kernel, pid: Pid, url: String) -> (r: (bool, String))
    requires
        old(kernel).wf(),
        old(kernel).next_web_id < u32::MAX,
    ensures
        final(kernel).wf(),
        fetched(*old(kernel), *final(kernel), pid, url@, (r.0, r.1@)),
{
    let ghost u = url;
    let res = kernel.syscall(pid, Syscall::WebFetch { url });
    let out = match &res {
        Ok(Reply::Bytes(_)) => (true, String::from_str("__deferred__")),
        Ok(_) => (false, String::from_str("unexpected reply")),
        Err(e) => failure(e),
    };
    assert(Kernel::post_web_fetch(*old(kernel), *kernel, pid, u, res));
    out
}

/// Runs one assistant tool call on behalf of process `pid` (the shell)
/// through the capability-checked syscalls, and gives what the assistant
/// reads: whether the tool succeeded and its text. Gives nothing for the
/// shell's own tools, which act on its windows and stage.
pub fn execute_tool(kernel: &mut Kernel, pid: Pid, call: &ToolCall) -> (r: Option<(bool, String)>)
    requires
        old(kernel).wf(),
        old(kernel).next_web_id < u32::MAX,
    ensures
        final(kernel).wf(),
        tool_ran(
            *old(kernel),
            *final(kernel),
            pid,
            call.tool@,
            args_view(call.args@),
            match r {
                Some(x) => Some((x.0, x.1@)),
                None => None,
            },
        ),
{
    proof {
        lemma_tool_names();
    }
    let t = call.tool.as_str();
    if is_text(t, "sys_query") {
        let path = arg(call, "path");
        let res = kernel.syscall(pid, Syscall::SysQuery { path });
        return Some(match &res {
            Ok(Reply::Bytes(b)) => (true, lossy_text(b.as_slice())),
            Ok(_) => (true, String::new()),
            Err(e) => failure(e),
        });
    }
    if is_text(t, "fs_list") {
        let path = arg(call, "path");
        let res = kernel.syscall(pid, Syscall::FsList { path });
        return Some(match &res {
            Ok(Reply::Entries(v)) => (true, listing_lines(v)),
            Ok(_) => (true, String::new()),
            Err(e) => failure(e),
        });
    }
    if is_text(t, "fs_read") {
        let path = arg(call, "path");
        let res = kernel.syscall(pid, Syscall::FsRead { path });
        return Some(match res {
            Ok(Reply::Bytes(b)) => (true, cap_text(lossy_text(b.as_slice()))),
            Ok(_) => (true, String::new()),
            Err(e) => failure(&e),
        });
    }
    if is_text(t, "fs_write") {
        let path = arg(call, "path");
        let content = arg(call, "content");
        let bytes = utf8_bytes(content.as_str());
        let ghost p = path;
        let ghost b = bytes;
        let res = kernel.syscall(pid, Syscall::FsWrite { path, bytes });
        let out = match &res {
            Ok(_) => (true, String::from_str("written")),
            Err(e) => failure(e),
        };
        assert(Kernel::post_fs_write(*old(kernel), *kernel, pid, p, b, res));
        return Some(out);
    }
    if is_text(t, "web_search") {
        let query = arg(call, "query");
        let enc = urlencode(query.as_str());
        let mut url: Vec<char> = Vec::new();
        push_str(&mut url, "https://en.wikipedia.org/w/api.php?action=opensearch&format=json&origin=*&limit=5&search=");
        push_str(&mut url, enc.as_str());
        return Some(web_tool(kernel, pid, string_of(&url)));
    }
    if is_text(t, "web_fetch") {
        let target = arg(call, "url");
        if is_text(target.as_str(), "") {
            return Some((false, String::from_str("missing url")));
        }
        assert(target@.len() > 0) by {
            if target@.len() == 0 {
                assert(target@ =~= ""@);
            }
        }
        let mut url: Vec<char> = Vec::new();
        push_str(&mut url, "https://r.jina.ai/");
        push_str(&mut url, target.as_str());
        return Some(web_tool(kernel, pid, string_of(&url)));
    }
    if is_text(t, "stage_spawn") || is_text(t, "stage_list") || is_text(t, "stage_remove")
        || is_text(t, "stage_clear") || is_text(t, "stage_push") || is_text(t, "stage_light")
        || is_text(t, "web_open") || is_text(t, "app_open") {
        return None;
    }
    let mut msg: Vec<char> = Vec::new();
    push_str(&mut msg, "unknown tool `");
    push_str(&mut msg, t);
    push_str(&mut msg, "`");
    Some((false, string_of(&msg)))
}

/// What the `app_open` tool answers for a lower-cased app name: the first
/// app, in launcher order, whose lower-case title contains it, or an
/// unknown-app reply for a blank name or one that matches nothing.
pub open spec fn app_open_answer(lower: Seq<char>) -> (Option<AppKind>, bool, Seq<char>) {
    if lower.len() > 0 && first_kind(kinds(), lower) is Some {
        let k = first_kind(kinds(), lower)->0;
        (Some(k), true, "opened "@ + title_spec(k))
    } else {
        (None, false, "unknown app `"@ + lower + "`"@)
    }
}

/// The `app_open` tool for an app name already in lower case: the app for
/// the shell to open, and the reply.
pub fn app_open_lowered(lower: &str) -> (r: (Option<AppKind>, bool, String))
    ensures
        (r.0, r.1, r.2@) == app_open_answer(lower@),
{
    let v = chars_of(lower);
    if v.len() > 0 {
        if let Some(k) = find_kind(&v) {
            let mut m: Vec<char> = Vec::new();
            push_str(&mut m, "opened ");
            push_str(&mut m, k.title());
            return (Some(k), true, string_of(&m));
        }
    }
    let mut m: Vec<char> = Vec::new();
    push_str(&mut m, "unknown app `");
    push_str(&mut m, lower);
    push_str(&mut m, "`");
    (None, false, string_of(&m))
}

/// The `app_open` tool: the name is lower-cased, then matched (see
/// [`app_open_answer`]).
pub fn app_open(name: &str) -> (r: (Option<AppKind>, bool, String))
    ensures
        (r.0, r.1, r.2@) == app_open_answer(lowercase(name@)),
{
    let lower = to_lower(name);
    app_open_lowered(lower.as_str())
}

} // verus!
