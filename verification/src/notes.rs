//! Text helpers of the Files and Notes apps: the icon of a file, the
//! title of a note, and the `[[wiki links]]` a note makes.

use vstd::prelude::*;
use crate::text::{chars_of, chars_eq, string_of, trim, trim_chars};
use crate::abi::{ErrorCode, Pid, Reply, Syscall};
use crate::kernel::Kernel;
use crate::proc::fs_allowed;
use crate::terminal::{code_name, code_text, lines_view};
use crate::text::{dec, push_dec, push_str};

verus! {

/// The index of the last `c` in `s`, if any.
pub open spec fn last_of(s: Seq<char>, c: char) -> Option<int>
    decreases s.len(),
{
    if s.len() == 0 {
        None
    } else if s.last() == c {
        Some(s.len() - 1)
    } else {
        last_of(s.drop_last(), c)
    }
}

/// What follows the last `c` in `s` (all of `s` when it has none).
pub open spec fn after_last(s: Seq<char>, c: char) -> Seq<char> {
    match last_of(s, c) {
        Some(i) => s.skip(i + 1),
        None => s,
    }
}

/// What follows the last `c` in `v`.
fn after_last_exec(v: &Vec<char>, c: char) -> (r: Vec<char>)
    ensures
        r@ == after_last(v@, c),
{
    let mut i: usize = v.len();
    assert(v@.take(v.len() as int) =~= v@);
    while i > 0 && v[i - 1] != c
        invariant
            i <= v.len(),
            last_of(v@, c) == last_of(v@.take(i as int), c),
        decreases i,
    {
        assert(v@.take(i as int).drop_last() =~= v@.take(i - 1));
        i -= 1;
    }
    let mut r: Vec<char> = Vec::new();
    let mut j: usize = i;
    while j < v.len()
        invariant
            i <= j <= v.len(),
            r@ == v@.subrange(i as int, j as int),
        decreases v.len() - j,
    {
        r.push(v[j]);
        j += 1;
    }
    proof {
        if i > 0 {
            assert(last_of(v@.take(i as int), c) == Some(i - 1));
        } else {
            assert(v@.take(0) =~= Seq::<char>::empty());
            assert(v@.subrange(0, v@.len() as int) =~= v@);
        }
    }
    r
}

/// The icon for a file-tree entry: a folder for directories, else by the
/// text after the name's last dot.
pub open spec fn icon_for(name: Seq<char>, dir: bool) -> Seq<char> {
    let ext = after_last(name, '.');
    if dir {
        "📁"@
    } else if ext == "conjure"@ {
        "✨"@
    } else if ext == "md"@ {
        "📝"@
    } else if ext == "json"@ {
        "⚙"@
    } else if ext == "txt"@ {
        "📄"@
    } else if ext == "png"@ || ext == "jpg"@ || ext == "jpeg"@ || ext == "gif"@ || ext == "svg"@ {
        "🖼"@
    } else {
        "📄"@
    }
}

/// Whether `v` reads `lit`.
fn is_text(v: &Vec<char>, lit: &str) -> (r: bool)
    ensures
        r == (v@ == lit@),
{
    let l = chars_of(lit);
    chars_eq(v, &l)
}

/// The icon for a file-tree entry.
pub fn file_icon(name: &str, dir: bool) -> (r: &'static str)
    ensures
        r@ == icon_for(name@, dir),
{
    if dir {
        return "📁";
    }
    let n = chars_of(name);
    let ext = after_last_exec(&n, '.');
    if is_text(&ext, "conjure") {
        "✨"
    } else if is_text(&ext, "md") {
        "📝"
    } else if is_text(&ext, "json") {
        "⚙"
    } else if is_text(&ext, "txt") {
        "📄"
    } else if is_text(&ext, "png") || is_text(&ext, "jpg") || is_text(&ext, "jpeg") || is_text(&ext, "gif")
        || is_text(&ext, "svg") {
        "🖼"
    } else {
        "📄"
    }
}

/// `s` without all its trailing `.md` suffixes.
pub open spec fn strip_md(s: Seq<char>) -> Seq<char>
    decreases s.len(),
{
    if s.len() >= 3 && s.skip(s.len() - 3) == seq!['.', 'm', 'd'] {
        strip_md(s.take(s.len() - 3))
    } else {
        s
    }
}

/// The title of a note: its file name without `.md`.
pub open spec fn title_of(path: Seq<char>) -> Seq<char> {
    strip_md(after_last(path, '/'))
}

/// The title of a note at `path`.
pub fn note_title(path: &str) -> (r: String)
    ensures
        r@ == title_of(path@),
{
    let p = chars_of(path);
    let mut n = after_last_exec(&p, '/');
    while n.len() >= 3 && n[n.len() - 3] == '.' && n[n.len() - 2] == 'm' && n[n.len() - 1] == 'd'
        invariant
            strip_md(n@) == title_of(path@),
        decreases n.len(),
    {
        let ghost before = n@;
        assert(before.skip(before.len() - 3) =~= seq!['.', 'm', 'd']);
        n.pop();
        n.pop();
        n.pop();
        assert(n@ =~= before.take(before.len() - 3));
    }
    proof {
        if n@.len() >= 3 {
            assert(n@.skip(n@.len() - 3) != seq!['.', 'm', 'd']) by {
                if n@.skip(n@.len() - 3) == seq!['.', 'm', 'd'] {
                    assert(n@.skip(n@.len() - 3)[0] == n@[n@.len() - 3]);
                    assert(n@.skip(n@.len() - 3)[1] == n@[n@.len() - 2]);
                    assert(n@.skip(n@.len() - 3)[2] == n@[n@.len() - 1]);
                }
            }
        }
    }
    string_of(&n)
}

/// The first position at or after `i` where `c` occurs twice in a row in
/// `s`, or the length of `s`.
pub open spec fn find_pair(s: Seq<char>, i: int, c: char) -> int
    decreases s.len() - i,
{
    if i + 1 >= s.len() {
        s.len() as int
    } else if s[i] == c && s[i + 1] == c {
        i
    } else {
        find_pair(s, i + 1, c)
    }
}

pub proof fn lemma_find_pair(s: Seq<char>, i: int, c: char)
    requires
        0 <= i,
    ensures
        i <= find_pair(s, i, c) || (i > s.len() && find_pair(s, i, c) == s.len()),
        find_pair(s, i, c) <= s.len() || i > s.len(),
        find_pair(s, i, c) < s.len() ==> find_pair(s, i, c) + 1 < s.len(),
    decreases s.len() - i,
{
    if i + 1 < s.len() && !(s[i] == c && s[i + 1] == c) {
        lemma_find_pair(s, i + 1, c);
    }
}

/// `s` up to its first `|`.
pub open spec fn before_bar(s: Seq<char>) -> Seq<char>
    decreases s.len(),
{
    if s.len() == 0 || s[0] == '|' {
        Seq::empty()
    } else {
        seq![s[0]] + before_bar(s.drop_first())
    }
}

/// The link targets of `t` from position `p` on, `found` being those met
/// before: each `[[name]]` or `[[name|label]]` gives its trimmed name,
/// once, in order of first appearance; an unclosed `[[` ends the scan.
pub open spec fn links_at(t: Seq<char>, p: int, found: Seq<Seq<char>>) -> Seq<Seq<char>>
    decreases t.len() - p,
{
    if p < 0 || p > t.len() {
        found
    } else {
        let s = find_pair(t, p, '[');
        if s >= t.len() {
            found
        } else {
            let e = find_pair(t, s + 2, ']');
            if e >= t.len() {
                found
            } else {
                let name = trim(before_bar(t.subrange(s + 2, e)));
                let next = if name.len() > 0 && !found.contains(name) {
                    found.push(name)
                } else {
                    found
                };
                proof {
                    lemma_find_pair(t, p, '[');
                    lemma_find_pair(t, s + 2, ']');
                }
                links_at(t, e + 2, next)
            }
        }
    }
}

/// The wiki links of a note's text.
pub open spec fn wikilinks_of(t: Seq<char>) -> Seq<Seq<char>> {
    links_at(t, 0, Seq::empty())
}

/// The first position at or after `i` where `c` occurs twice in a row.
fn find_pair_exec(s: &Vec<char>, i: usize, c: char) -> (r: usize)
    requires
        i <= s.len(),
    ensures
        r as int == find_pair(s@, i as int, c),
{
    let mut j = i;
    while j < s.len() && j + 1 < s.len() && !(s[j] == c && s[j + 1] == c)
        invariant
            i <= j <= s.len(),
            find_pair(s@, i as int, c) == find_pair(s@, j as int, c),
        decreases s.len() - j,
    {
        j += 1;
    }
    if j >= s.len() || j + 1 >= s.len() {
        s.len()
    } else {
        j
    }
}

/// `v` up to its first `|`.
fn before_bar_exec(v: &Vec<char>) -> (r: Vec<char>)
    ensures
        r@ == before_bar(v@),
{
    let mut r: Vec<char> = Vec::new();
    let mut j: usize = 0;
    assert(v@.skip(0) =~= v@);
    while j < v.len() && v[j] != '|'
        invariant
            j <= v.len(),
            before_bar(v@) == r@ + before_bar(v@.skip(j as int)),
        decreases v.len() - j,
    {
        let ghost tail = v@.skip(j as int);
        assert(tail.drop_first() =~= v@.skip(j + 1));
        r.push(v[j]);
        j += 1;
        assert(before_bar(tail) == seq![tail[0]] + before_bar(tail.drop_first()));
        assert(r@ + before_bar(v@.skip(j as int)) =~= r@.drop_last() + (seq![tail[0]] + before_bar(v@.skip(j as int))));
    }
    assert(before_bar(v@.skip(j as int)) =~= Seq::<char>::empty());
    assert(r@ + Seq::<char>::empty() =~= r@);
    r
}

/// Whether `out` holds a string reading `name`.
fn has_line(out: &Vec<String>, name: &Vec<char>) -> (r: bool)
    ensures
        r == lines_view(out@).contains(name@),
{
    let mut k: usize = 0;
    while k < out.len()
        invariant
            k <= out.len(),
            forall|m: int| 0 <= m < k ==> lines_view(out@)[m] != name@,
        decreases out.len() - k,
    {
        let o = chars_of(out[k].as_str());
        if chars_eq(&o, name) {
            assert(lines_view(out@)[k as int] == name@);
            return true;
        }
        k += 1;
    }
    false
}

/// The wiki links of a note's text: the trimmed target of each
/// `[[target]]` or `[[target|label]]`, once each, in order.
pub fn wikilinks(text: &str) -> (r: Vec<String>)
    ensures
        lines_view(r@) == wikilinks_of(text@),
{
    let t = chars_of(text);
    let mut out: Vec<String> = Vec::new();
    let mut p: usize = 0;
    assert(lines_view(out@) =~= Seq::<Seq<char>>::empty());
    loop
        invariant
            p <= t.len(),
            t@ == text@,
            links_at(t@, p as int, lines_view(out@)) == wikilinks_of(text@),
        ensures
            lines_view(out@) == wikilinks_of(text@),
        decreases t.len() - p,
    {
        let s = find_pair_exec(&t, p, '[');
        proof {
            lemma_find_pair(t@, p as int, '[');
        }
        if s >= t.len() {
            break;
        }
        let e = find_pair_exec(&t, s + 2, ']');
        proof {
            lemma_find_pair(t@, s + 2, ']');
        }
        if e >= t.len() {
            break;
        }
        let mut inner: Vec<char> = Vec::new();
        let mut j: usize = s + 2;
        while j < e
            invariant
                s + 2 <= j <= e,
                e < t.len(),
                inner@ == t@.subrange(s + 2, j as int),
            decreases e - j,
        {
            inner.push(t[j]);
            j += 1;
        }
        let nb = before_bar_exec(&inner);
        let name = trim_chars(&nb);
        if name.len() > 0 && !has_line(&out, &name) {
            let line = string_of(&name);
            proof {
                assert(lines_view(out@.push(line)) =~= lines_view(out@).push(line@));
            }
            out.push(line);
        }
        p = e + 2;
    }
    out
}

/// Decodes bytes as UTF-8 (`String::from_utf8`): the text when the bytes
/// are valid UTF-8, else nothing.
#[verifier::external_body]
fn utf8_text(b: Vec<u8>) -> (r: Option<String>)
    ensures
        r is Some <==> vstd::utf8::valid_utf8(b@),
        r matches Some(s) ==> s@ == vstd::utf8::decode_utf8(b@),
{
    String::from_utf8(b).ok()
}

/// The most characters a preview shows.
pub const PREVIEW_CHARS: usize = 2400;

/// What reading `path` as process `pid` answers: the bytes, or the
/// error code.
pub open spec fn read_answer(k: Kernel, pid: Pid, path: Seq<char>) -> Result<Seq<u8>, ErrorCode> {
    if !fs_allowed(k.procs@, pid.0, crate::path::norm(path), false) {
        Err(ErrorCode::CapabilityDenied)
    } else {
        match k.vfs.read_spec(path) {
            Some(b) => Ok(b),
            None => Err(ErrorCode::NotFound),
        }
    }
}

/// The preview of a file in the Files app: its text (cut at
/// `PREVIEW_CHARS` characters, marked by `\n…`), or a note that it is
/// binary with its size, or why it could not be read.
pub open spec fn preview_of(k: Kernel, pid: Pid, path: Seq<char>) -> Seq<char> {
    match read_answer(k, pid, path) {
        Ok(b) => if vstd::utf8::valid_utf8(b) {
            let s = vstd::utf8::decode_utf8(b);
            if s.len() > PREVIEW_CHARS {
                s.take(PREVIEW_CHARS as int) + "\n…"@
            } else {
                s
            }
        } else {
            "(binary · "@ + dec(b.len()) + " B)"@
        },
        Err(e) => "(unreadable: "@ + code_name(e) + ")"@,
    }
}

/// The preview of the file at `path`, read as process `pid`; reading
/// changes nothing.
pub fn preview_text(kernel: &mut Kernel, pid: Pid, path: &str) -> (r: String)
    requires
        old(kernel).wf(),
    ensures
        *final(kernel) == *old(kernel),
        r@ == preview_of(*old(kernel), pid, path@),
{
    let p = String::from_str(path);
    match kernel.syscall(pid, Syscall::FsRead { path: p }) {
        Ok(Reply::Bytes(b)) => {
            let n = b.len();
            match utf8_text(b) {
                Some(s) => {
                    let v = chars_of(s.as_str());
                    if v.len() > PREVIEW_CHARS {
                        let mut t: Vec<char> = Vec::new();
                        let mut i: usize = 0;
                        while i < PREVIEW_CHARS
                            invariant
                                i <= PREVIEW_CHARS < v.len(),
                                t@ == v@.take(i as int),
                            decreases PREVIEW_CHARS - i,
                        {
                            t.push(v[i]);
                            i += 1;
                            assert(t@ =~= v@.take(i as int));
                        }
                        push_str(&mut t, "\n…");
                        string_of(&t)
                    } else {
                        s
                    }
                },
                None => {
                    let mut t: Vec<char> = Vec::new();
                    push_str(&mut t, "(binary · ");
                    push_dec(&mut t, n as u64);
                    push_str(&mut t, " B)");
                    string_of(&t)
                },
            }
        },
        Err(e) => {
            let mut t: Vec<char> = Vec::new();
            push_str(&mut t, "(unreadable: ");
            push_str(&mut t, code_text(&e));
            push_str(&mut t, ")");
            string_of(&t)
        },
        Ok(_) => String::new(),
    }
}

} // verus!
