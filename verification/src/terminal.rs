//! The Terminal app: a line-oriented shell over the kernel's syscalls.
//! Every command runs as the terminal's own process, so each file and
//! system access it makes is capability-checked like any other caller's.

use vstd::prelude::*;
use crate::abi::{AgentId, DirEntry, ErrorCode, Pid, Reply, Syscall, AGENT_ASSISTANT};
use crate::apps::AppAction;
use crate::kernel::{Kernel, cap_sys_query};
use crate::proc::{fs_allowed, holds};
use crate::text::{chars_of, push_str, push_all, push_dec, string_of, chars_eq, dec, trim, trim_chars, trim_str, has_sub, lowercase, to_lower, contains_chars};
use crate::vfs::{EntryView, entries_opt, bytes_opt};

verus! {

/// The first line of a fresh terminal.
pub open spec fn greeting() -> Seq<char> {
    "Pseudo Motion OS terminal — `help` lists commands"@
}

/// The most lines the log keeps; older lines are dropped first.
pub const LOG_LIMIT: usize = 500;

/// The terminal's state: the log shown, the working directory, and
/// whether an assistant answer is streaming into the last line.
pub struct Terminal {
    pub log: Vec<String>,
    pub cwd: String,
    pub waiting_ai: bool,
}

/// The views of a list of strings.
pub open spec fn lines_view(v: Seq<String>) -> Seq<Seq<char>> {
    v.map_values(|s: String| s@)
}

/// The index of the first `c` at or after `i` in `s`, or the length of
/// `s` when there is none.
pub open spec fn find_from(s: Seq<char>, i: int, c: char) -> int
    decreases s.len() - i,
{
    if i >= s.len() {
        s.len() as int
    } else if s[i] == c {
        i
    } else {
        find_from(s, i + 1, c)
    }
}

/// `s` up to its first space.
pub open spec fn word(s: Seq<char>) -> Seq<char> {
    s.take(find_from(s, 0, ' '))
}

/// What follows the first space of `s` (nothing when it has none).
pub open spec fn after_word(s: Seq<char>) -> Seq<char> {
    let k = find_from(s, 0, ' ');
    if k < s.len() {
        s.skip(k + 1)
    } else {
        Seq::empty()
    }
}

/// `arg` as an absolute path: as it is when it starts with `/`, else
/// under the working directory `cwd`.
pub open spec fn resolved(cwd: Seq<char>, arg: Seq<char>) -> Seq<char> {
    if arg.len() > 0 && arg[0] == '/' {
        arg
    } else if cwd == seq!['/'] {
        seq!['/'] + arg
    } else {
        cwd + seq!['/'] + arg
    }
}

/// A line without its one trailing carriage return.
pub open spec fn strip_cr(l: Seq<char>) -> Seq<char> {
    if l.len() > 0 && l.last() == '\r' {
        l.drop_last()
    } else {
        l
    }
}

/// The lines of `s` from position `i`, `cur` being the part of the
/// current line read so far: lines end at `\n` (a `\r` before it is
/// dropped), and a last line without `\n` counts when it is not empty.
pub open spec fn lines_acc(s: Seq<char>, i: int, cur: Seq<char>) -> Seq<Seq<char>>
    decreases s.len() - i,
{
    if i >= s.len() {
        if cur.len() == 0 {
            Seq::empty()
        } else {
            seq![cur]
        }
    } else if s[i] == '\n' {
        seq![strip_cr(cur)] + lines_acc(s, i + 1, Seq::empty())
    } else {
        lines_acc(s, i + 1, cur.push(s[i]))
    }
}

/// The lines of a text (`str::lines`).
pub open spec fn text_lines(s: Seq<char>) -> Seq<Seq<char>> {
    lines_acc(s, 0, Seq::empty())
}

proof fn lemma_find_from(s: Seq<char>, i: int, c: char)
    requires
        0 <= i <= s.len(),
    ensures
        i <= find_from(s, i, c) <= s.len(),
        find_from(s, i, c) < s.len() ==> s[find_from(s, i, c)] == c,
        forall|j: int| i <= j < find_from(s, i, c) ==> s[j] != c,
    decreases s.len() - i,
{
    if i < s.len() && s[i] != c {
        lemma_find_from(s, i + 1, c);
    }
}

/// Whether `v` reads `lit`.
fn is_word(v: &Vec<char>, lit: &str) -> (r: bool)
    ensures
        r == (v@ == lit@),
{
    let l = chars_of(lit);
    chars_eq(v, &l)
}

/// The characters of `v` from `n` on.
fn skip_chars(v: &Vec<char>, n: usize) -> (r: Vec<char>)
    requires
        n <= v.len(),
    ensures
        r@ == v@.skip(n as int),
{
    let mut r: Vec<char> = Vec::new();
    let mut i: usize = n;
    while i < v.len()
        invariant
            n <= i <= v.len(),
            r@ == v@.subrange(n as int, i as int),
        decreases v.len() - i,
    {
        r.push(v[i]);
        i += 1;
    }
    r
}

/// Splits `s` at its first space: the word before it and what follows it.
fn split_word(s: &Vec<char>) -> (r: (Vec<char>, Vec<char>))
    ensures
        r.0@ == word(s@),
        r.1@ == after_word(s@),
{
    let mut i: usize = 0;
    while i < s.len() && s[i] != ' '
        invariant
            i <= s.len(),
            find_from(s@, 0, ' ') == find_from(s@, i as int, ' '),
        decreases s.len() - i,
    {
        i += 1;
    }
    proof {
        lemma_find_from(s@, 0, ' ');
    }
    let mut head: Vec<char> = Vec::new();
    let mut j: usize = 0;
    while j < i
        invariant
            i <= s.len(),
            j <= i,
            head@ == s@.take(j as int),
        decreases i - j,
    {
        head.push(s[j]);
        j += 1;
        assert(head@ =~= s@.take(j as int));
    }
    if i < s.len() {
        (head, skip_chars(s, i + 1))
    } else {
        assert(after_word(s@) =~= Seq::<char>::empty());
        (head, Vec::new())
    }
}

/// The lines of a text (`str::lines`).
fn split_lines(s: &Vec<char>) -> (r: Vec<String>)
    ensures
        lines_view(r@) == text_lines(s@),
{
    let mut out: Vec<String> = Vec::new();
    let mut cur: Vec<char> = Vec::new();
    let mut i: usize = 0;
    while i < s.len()
        invariant
            i <= s.len(),
            lines_view(out@) + lines_acc(s@, i as int, cur@) == text_lines(s@),
        decreases s.len() - i,
    {
        if s[i] == '\n' {
            let n = cur.len();
            if n > 0 && cur[n - 1] == '\r' {
                cur.pop();
            }
            let line = string_of(&cur);
            proof {
                assert(lines_view(out@.push(line)) =~= lines_view(out@).push(line@));
                assert(lines_view(out@).push(line@) + lines_acc(s@, i + 1, Seq::empty())
                    =~= lines_view(out@) + (seq![line@] + lines_acc(s@, i + 1, Seq::empty())));
            }
            out.push(line);
            cur = Vec::new();
        } else {
            cur.push(s[i]);
        }
        i += 1;
    }
    if cur.len() > 0 {
        let line = string_of(&cur);
        proof {
            assert(lines_view(out@.push(line)) =~= lines_view(out@) + seq![line@]);
        }
        out.push(line);
    } else {
        assert(lines_view(out@) + Seq::<Seq<char>>::empty() =~= lines_view(out@));
    }
    out
}

impl Terminal {
    /// The log as text.
    pub open spec fn lines(&self) -> Seq<Seq<char>> {
        lines_view(self.log@)
    }

    /// A fresh terminal: the greeting, in `/home`, no answer pending.
    pub fn new() -> (r: Self)
        ensures
            r.lines() == seq![greeting()],
            r.cwd@ == "/home"@,
            !r.waiting_ai,
    {
        let r = Terminal {
            log: vec![String::from_str("Pseudo Motion OS terminal — `help` lists commands")],
            cwd: String::from_str("/home"),
            waiting_ai: false,
        };
        assert(r.lines() =~= seq![greeting()]);
        r
    }

    /// An absolute path for a command argument.
    fn resolve(&self, arg: &Vec<char>) -> (r: Vec<char>)
        ensures
            r@ == resolved(self.cwd@, arg@),
    {
        if arg.len() > 0 && arg[0] == '/' {
            return crate::text::chars_copy(arg);
        }
        let cwd = chars_of(self.cwd.as_str());
        let mut r: Vec<char> = Vec::new();
        if cwd.len() == 1 && cwd[0] == '/' {
            assert(cwd@ =~= seq!['/']);
            r.push('/');
            push_all(&mut r, arg);
        } else {
            assert(cwd@ != seq!['/']);
            push_all(&mut r, &cwd);
            r.push('/');
            push_all(&mut r, arg);
        }
        r
    }
}

/// What listing `path` as process `pid` gives: the entries, or nothing
/// when the process may not read it or it is no directory.
pub open spec fn listing(k: Kernel, pid: Pid, path: Seq<char>) -> Option<Seq<EntryView>> {
    if fs_allowed(k.procs@, pid.0, crate::path::norm(path), false) {
        k.vfs.list_spec(path)
    } else {
        None
    }
}

/// What reading `path` as process `pid` gives: the bytes, or nothing
/// when the process may not read it or it is no file.
pub open spec fn reading(k: Kernel, pid: Pid, path: Seq<char>) -> Option<Seq<u8>> {
    if fs_allowed(k.procs@, pid.0, crate::path::norm(path), false) {
        k.vfs.read_spec(path)
    } else {
        None
    }
}

/// What querying the system file `path` as process `pid` gives.
pub open spec fn querying(k: Kernel, pid: Pid, path: Seq<char>) -> Option<Seq<u8>> {
    if holds(k.procs@, pid.0, cap_sys_query()) {
        k.vfs.read_spec(path)
    } else {
        None
    }
}

/// Lists `path` through the kernel; a listing changes nothing.
pub(crate) fn list_dir(kernel: &mut Kernel, pid: Pid, path: String) -> (r: Option<Vec<DirEntry>>)
    requires
        old(kernel).wf(),
    ensures
        *final(kernel) == *old(kernel),
        entries_opt(r) == listing(*old(kernel), pid, path@),
{
    match kernel.syscall(pid, Syscall::FsList { path }) {
        Ok(Reply::Entries(v)) => Some(v),
        _ => None,
    }
}

/// Reads `path` through the kernel; a read changes nothing.
pub(crate) fn read_file(kernel: &mut Kernel, pid: Pid, path: String) -> (r: Option<Vec<u8>>)
    requires
        old(kernel).wf(),
    ensures
        *final(kernel) == *old(kernel),
        bytes_opt(r) == reading(*old(kernel), pid, path@),
{
    match kernel.syscall(pid, Syscall::FsRead { path }) {
        Ok(Reply::Bytes(v)) => Some(v),
        _ => None,
    }
}

/// Queries the system file `path` through the kernel; a query changes
/// nothing.
fn query_file(kernel: &mut Kernel, pid: Pid, path: String) -> (r: Option<Vec<u8>>)
    requires
        old(kernel).wf(),
    ensures
        *final(kernel) == *old(kernel),
        bytes_opt(r) == querying(*old(kernel), pid, path@),
{
    match kernel.syscall(pid, Syscall::SysQuery { path }) {
        Ok(Reply::Bytes(v)) => Some(v),
        _ => None,
    }
}

/// The two text fields of a transcript segment, as read from JSON.
pub type FieldPair = (Option<Seq<char>>, Option<Seq<char>>);

/// The view of an optional string.
pub open spec fn opt_text(o: Option<String>) -> Option<Seq<char>> {
    match o {
        Some(s) => Some(s@),
        None => None,
    }
}

/// The views of the field pairs of a transcript.
pub open spec fn fields_view(v: Seq<(Option<String>, Option<String>)>) -> Seq<FieldPair> {
    v.map_values(|p: (Option<String>, Option<String>)| (opt_text(p.0), opt_text(p.1)))
}

/// Parses bytes as JSON (`serde_json::from_slice` into a
/// `serde_json::Value`) and, for each element of the document's array
/// under the key `list`, gives its fields `first` and `second` where they
/// are strings. Bytes that are not JSON, or a document without such an
/// array, give no element. JSON's grammar is not restated here: the
/// result is named.
pub uninterp spec fn json_field_pairs(bytes: Seq<u8>, list: Seq<char>, first: Seq<char>, second: Seq<char>) -> Seq<FieldPair>;

/// The `segments`/`text` string fields of the segments of a JSON
/// transcript.
pub open spec fn transcript_fields(bytes: Seq<u8>) -> Seq<FieldPair> {
    json_field_pairs(bytes, "segments"@, "segments"@, "text"@)
}

/// The string fields `first` and `second` of each element of the array
/// under `list` in a JSON document (`serde_json::from_slice`).
#[verifier::external_body]
pub(crate) fn json_field_pairs_of(bytes: &[u8], list: &str, first: &str, second: &str) -> (r: Vec<(Option<String>, Option<String>)>)
    ensures
        fields_view(r@) == json_field_pairs(bytes@, list@, first@, second@),
{
    let mut r = Vec::new();
    if let Ok(v) = serde_json::from_slice::<serde_json::Value>(bytes) {
        for seg in v[list].as_array().into_iter().flatten() {
            r.push((seg[first].as_str().map(String::from), seg[second].as_str().map(String::from)));
        }
    }
    r
}

/// The `segments`/`text` string fields of the segments of a JSON
/// transcript.
pub(crate) fn transcript_fields_of(bytes: &[u8]) -> (r: Vec<(Option<String>, Option<String>)>)
    ensures
        fields_view(r@) == transcript_fields(bytes@),
{
    json_field_pairs_of(bytes, "segments", "segments", "text")
}

/// The text of a transcript segment: its `segments` field, else its
/// `text` field, else nothing.
pub open spec fn segment_text(p: FieldPair) -> Seq<char> {
    match p.0 {
        Some(t) => t,
        None => match p.1 {
            Some(t) => t,
            None => Seq::empty(),
        },
    }
}

/// Matches after which the search of one transcript stops.
pub const VOICE_HITS: usize = 20;

/// The search line for a match in a transcript of `day`.
pub open spec fn hit_line(day: Seq<char>, t: Seq<char>) -> Seq<char> {
    day + " · "@ + t
}

/// Searching the segments `segs` of one transcript of `day` for `needle`,
/// `hits` matches having been found before: the lines of the matches and
/// the count after them (counted up to the limit). The search of the
/// transcript stops at the match that reaches the limit.
pub open spec fn seg_scan(day: Seq<char>, segs: Seq<FieldPair>, needle: Seq<char>, hits: nat) -> (Seq<Seq<char>>, nat)
    decreases segs.len(),
{
    if segs.len() == 0 {
        (Seq::empty(), hits)
    } else {
        let t = segment_text(segs[0]);
        if has_sub(lowercase(t), needle) {
            if hits + 1 >= VOICE_HITS {
                (seq![hit_line(day, t)], VOICE_HITS as nat)
            } else {
                let more = seg_scan(day, segs.drop_first(), needle, hits + 1);
                (seq![hit_line(day, t)] + more.0, more.1)
            }
        } else {
            seg_scan(day, segs.drop_first(), needle, hits)
        }
    }
}

/// Searching the entries `files` of the directory `dir` of `day`: each
/// file the process can read is searched as a transcript; directories
/// are passed over.
pub open spec fn file_scan(
    k: Kernel,
    pid: Pid,
    day: Seq<char>,
    dir: Seq<char>,
    files: Seq<EntryView>,
    needle: Seq<char>,
    hits: nat,
) -> (Seq<Seq<char>>, nat)
    decreases files.len(),
{
    if files.len() == 0 {
        (Seq::empty(), hits)
    } else {
        let f = files[0];
        let first = if f.1 {
            (Seq::<Seq<char>>::empty(), hits)
        } else {
            match reading(k, pid, dir + seq!['/'] + f.0) {
                Some(b) => seg_scan(day, transcript_fields(b), needle, hits),
                None => (Seq::<Seq<char>>::empty(), hits),
            }
        };
        let more = file_scan(k, pid, day, dir, files.drop_first(), needle, first.1);
        (first.0 + more.0, more.1)
    }
}

/// The directory of a day's transcripts.
pub open spec fn day_dir(day: Seq<char>) -> Seq<char> {
    "/voice/"@ + day
}

/// Searching the day directories among `days`.
pub open spec fn day_scan(k: Kernel, pid: Pid, days: Seq<EntryView>, needle: Seq<char>, hits: nat) -> (Seq<Seq<char>>, nat)
    decreases days.len(),
{
    if days.len() == 0 {
        (Seq::empty(), hits)
    } else {
        let d = days[0];
        let first = if !d.1 {
            (Seq::<Seq<char>>::empty(), hits)
        } else {
            match listing(k, pid, day_dir(d.0)) {
                Some(fs) => file_scan(k, pid, d.0, day_dir(d.0), fs, needle, hits),
                None => (Seq::<Seq<char>>::empty(), hits),
            }
        };
        let more = day_scan(k, pid, days.drop_first(), needle, first.1);
        (first.0 + more.0, more.1)
    }
}

/// The answer to a search of the voice history for `needle`: a line per
/// match, then `no matches` when there was none.
pub open spec fn voice_lines(k: Kernel, pid: Pid, needle: Seq<char>) -> Seq<Seq<char>> {
    let found = match listing(k, pid, "/voice"@) {
        Some(days) => day_scan(k, pid, days, needle, 0),
        None => (Seq::<Seq<char>>::empty(), 0nat),
    };
    if found.1 == 0 {
        found.0 + seq!["no matches"@]
    } else {
        found.0
    }
}

/// Searches the segments of one transcript of `day` for `needle`,
/// appending a line per match to `out`; gives the match count after it.
pub fn scan_segments(
    day: &Vec<char>,
    fields: &Vec<(Option<String>, Option<String>)>,
    needle: &Vec<char>,
    hits: usize,
    out: &mut Vec<String>,
) -> (h: usize)
    requires
        hits <= VOICE_HITS,
    ensures
        h <= VOICE_HITS,
        lines_view(final(out)@) == lines_view(old(out)@) + seg_scan(day@, fields_view(fields@), needle@, hits as nat).0,
        h == seg_scan(day@, fields_view(fields@), needle@, hits as nat).1,
{
    let ghost segs = fields_view(fields@);
    let ghost total = seg_scan(day@, segs, needle@, hits as nat);
    let ghost start = lines_view(out@);
    proof {
        lemma_seg_scan_bound(day@, segs, needle@, hits as nat);
    }
    let mut h = hits;
    let mut i: usize = 0;
    assert(segs.skip(0) =~= segs);
    while i < fields.len()
        invariant
            i <= fields.len(),
            segs == fields_view(fields@),
            h <= VOICE_HITS,
            lines_view(out@) + seg_scan(day@, segs.skip(i as int), needle@, h as nat).0 == start + total.0,
            seg_scan(day@, segs.skip(i as int), needle@, h as nat).1 == total.1,
        decreases fields.len() - i,
    {
        let ghost tail = segs.skip(i as int);
        assert(tail.drop_first() =~= segs.skip(i + 1));
        assert(tail[0] == segs[i as int]);
        let text: &str = match &fields[i].0 {
            Some(t) => t.as_str(),
            None => match &fields[i].1 {
                Some(t) => t.as_str(),
                None => "",
            },
        };
        proof {
            reveal_strlit("");
        }
        assert(text@ == segment_text(segs[i as int]));
        let low = to_lower(text);
        let lc = chars_of(low.as_str());
        if contains_chars(&lc, needle) {
            let mut line = crate::text::chars_copy(day);
            push_str(&mut line, " · ");
            push_str(&mut line, text);
            let s = string_of(&line);
            proof {
                assert(lines_view(out@.push(s)) =~= lines_view(out@).push(s@));
            }
            out.push(s);
            if h + 1 >= VOICE_HITS {
                h = VOICE_HITS;
                proof {
                    assert(lines_view(out@) + seg_scan(day@, segs.skip(fields.len() as int), needle@, h as nat).0
                        =~= lines_view(out@));
                }
                i = fields.len();
            } else {
                h = h + 1;
                i = i + 1;
                proof {
                    assert(seq![hit_line(day@, text@)] + seg_scan(day@, segs.skip(i as int), needle@, h as nat).0
                        == seg_scan(day@, tail, needle@, (h - 1) as nat).0);
                }
            }
        } else {
            i = i + 1;
        }
    }
    h
}

proof fn lemma_seg_scan_bound(day: Seq<char>, segs: Seq<FieldPair>, needle: Seq<char>, hits: nat)
    requires
        hits <= VOICE_HITS,
    ensures
        seg_scan(day, segs, needle, hits).1 <= VOICE_HITS,
    decreases segs.len(),
{
    if segs.len() > 0 {
        if has_sub(lowercase(segment_text(segs[0])), needle) {
            if hits + 1 < VOICE_HITS {
                lemma_seg_scan_bound(day, segs.drop_first(), needle, hits + 1);
            }
        } else {
            lemma_seg_scan_bound(day, segs.drop_first(), needle, hits);
        }
    }
}

/// Searches the transcripts listed in `files`, the directory `dir` of
/// `day`, appending a line per match to `out`; gives the match count.
fn scan_files(
    kernel: &mut Kernel,
    pid: Pid,
    day: &Vec<char>,
    dir: &Vec<char>,
    files: &Vec<DirEntry>,
    needle: &Vec<char>,
    hits: usize,
    out: &mut Vec<String>,
) -> (h: usize)
    requires
        old(kernel).wf(),
        hits <= VOICE_HITS,
    ensures
        *final(kernel) == *old(kernel),
        h <= VOICE_HITS,
        lines_view(final(out)@) == lines_view(old(out)@)
            + file_scan(*old(kernel), pid, day@, dir@, crate::vfs::entries_view(files@), needle@, hits as nat).0,
        h == file_scan(*old(kernel), pid, day@, dir@, crate::vfs::entries_view(files@), needle@, hits as nat).1,
{
    let ghost k = *kernel;
    let ghost fs = crate::vfs::entries_view(files@);
    let ghost total = file_scan(k, pid, day@, dir@, fs, needle@, hits as nat);
    let ghost start = lines_view(out@);
    let mut h = hits;
    let mut i: usize = 0;
    assert(fs.skip(0) =~= fs);
    while i < files.len()
        invariant
            i <= files.len(),
            fs == crate::vfs::entries_view(files@),
            *kernel == k,
            k.wf(),
            h <= VOICE_HITS,
            lines_view(out@) + file_scan(k, pid, day@, dir@, fs.skip(i as int), needle@, h as nat).0 == start + total.0,
            file_scan(k, pid, day@, dir@, fs.skip(i as int), needle@, h as nat).1 == total.1,
        decreases files.len() - i,
    {
        let ghost tail = fs.skip(i as int);
        assert(tail.drop_first() =~= fs.skip(i + 1));
        assert(tail[0] == fs[i as int]);
        let ghost before = lines_view(out@);
        let ghost h0 = h as nat;
        assert(fs[i as int] == (files@[i as int].name@, files@[i as int].dir, files@[i as int].size));
        if !files[i].dir {
            let mut p = crate::text::chars_copy(dir);
            p.push('/');
            push_str(&mut p, files[i].name.as_str());
            let path = string_of(&p);
            assert(path@ == dir@ + seq!['/'] + fs[i as int].0);
            match read_file(kernel, pid, path) {
                Some(b) => {
                    let sl = b.as_slice();
                    assert(sl@ == b@);
                    let fields = transcript_fields_of(sl);
                    h = scan_segments(day, &fields, needle, h, out);
                },
                None => {
                    assert(lines_view(out@) =~= before + Seq::<Seq<char>>::empty());
                },
            }
        } else {
            assert(lines_view(out@) =~= before + Seq::<Seq<char>>::empty());
        }
        proof {
            let f = tail[0];
            let first = if f.1 {
                (Seq::<Seq<char>>::empty(), h0)
            } else {
                match reading(k, pid, dir@ + seq!['/'] + f.0) {
                    Some(b) => seg_scan(day@, transcript_fields(b), needle@, h0),
                    None => (Seq::<Seq<char>>::empty(), h0),
                }
            };
            assert(lines_view(out@) == before + first.0);
            assert(h == first.1);
            let more = file_scan(k, pid, day@, dir@, fs.skip(i + 1), needle@, first.1);
            assert(file_scan(k, pid, day@, dir@, tail, needle@, h0) == (first.0 + more.0, more.1));
            assert(before + (first.0 + more.0) =~= (before + first.0) + more.0);
        }
        i += 1;
    }
    assert(fs.skip(files.len() as int) =~= Seq::<EntryView>::empty());
    assert(lines_view(out@) + Seq::<Seq<char>>::empty() =~= lines_view(out@));
    h
}

/// Searches the day directories listed in `days`, appending a line per
/// match to `out`; gives the match count.
fn scan_days(
    kernel: &mut Kernel,
    pid: Pid,
    days: &Vec<DirEntry>,
    needle: &Vec<char>,
    hits: usize,
    out: &mut Vec<String>,
) -> (h: usize)
    requires
        old(kernel).wf(),
        hits <= VOICE_HITS,
    ensures
        *final(kernel) == *old(kernel),
        h <= VOICE_HITS,
        lines_view(final(out)@) == lines_view(old(out)@)
            + day_scan(*old(kernel), pid, crate::vfs::entries_view(days@), needle@, hits as nat).0,
        h == day_scan(*old(kernel), pid, crate::vfs::entries_view(days@), needle@, hits as nat).1,
{
    let ghost k = *kernel;
    let ghost ds = crate::vfs::entries_view(days@);
    let ghost total = day_scan(k, pid, ds, needle@, hits as nat);
    let ghost start = lines_view(out@);
    let mut h = hits;
    let mut i: usize = 0;
    assert(ds.skip(0) =~= ds);
    while i < days.len()
        invariant
            i <= days.len(),
            ds == crate::vfs::entries_view(days@),
            *kernel == k,
            k.wf(),
            h <= VOICE_HITS,
            lines_view(out@) + day_scan(k, pid, ds.skip(i as int), needle@, h as nat).0 == start + total.0,
            day_scan(k, pid, ds.skip(i as int), needle@, h as nat).1 == total.1,
        decreases days.len() - i,
    {
        let ghost tail = ds.skip(i as int);
        assert(tail.drop_first() =~= ds.skip(i + 1));
        assert(tail[0] == ds[i as int]);
        let ghost before = lines_view(out@);
        let ghost h0 = h as nat;
        assert(ds[i as int] == (days@[i as int].name@, days@[i as int].dir, days@[i as int].size));
        if days[i].dir {
            let name = chars_of(days[i].name.as_str());
            let mut d: Vec<char> = Vec::new();
            push_str(&mut d, "/voice/");
            push_all(&mut d, &name);
            let path = string_of(&d);
            match list_dir(kernel, pid, path) {
                Some(files) => {
                    h = scan_files(kernel, pid, &name, &d, &files, needle, h, out);
                },
                None => {
                    assert(lines_view(out@) =~= before + Seq::<Seq<char>>::empty());
                },
            }
        } else {
            assert(lines_view(out@) =~= before + Seq::<Seq<char>>::empty());
        }
        proof {
            let d = tail[0];
            let first = if !d.1 {
                (Seq::<Seq<char>>::empty(), h0)
            } else {
                match listing(k, pid, day_dir(d.0)) {
                    Some(fs) => file_scan(k, pid, d.0, day_dir(d.0), fs, needle@, h0),
                    None => (Seq::<Seq<char>>::empty(), h0),
                }
            };
            assert(lines_view(out@) == before + first.0);
            assert(h == first.1);
            let more = day_scan(k, pid, ds.skip(i + 1), needle@, first.1);
            assert(day_scan(k, pid, tail, needle@, h0) == (first.0 + more.0, more.1));
            assert(before + (first.0 + more.0) =~= (before + first.0) + more.0);
        }
        i += 1;
    }
    assert(ds.skip(days.len() as int) =~= Seq::<EntryView>::empty());
    assert(lines_view(out@) + Seq::<Seq<char>>::empty() =~= lines_view(out@));
    h
}

/// Searches the voice history under `/voice` for `needle`: each day
/// directory's transcripts, segment by segment, comparing in lower case.
/// Gives a line per match (`day · text`), or `no matches`. Only reads, so
/// the kernel is left as it was.
pub fn voice_search(kernel: &mut Kernel, pid: Pid, needle: &Vec<char>) -> (r: Vec<String>)
    requires
        old(kernel).wf(),
    ensures
        *final(kernel) == *old(kernel),
        lines_view(r@) == voice_lines(*old(kernel), pid, needle@),
{
    let mut out: Vec<String> = Vec::new();
    let mut h: usize = 0;
    match list_dir(kernel, pid, String::from_str("/voice")) {
        Some(days) => {
            h = scan_days(kernel, pid, &days, needle, 0, &mut out);
        },
        None => {},
    }
    assert(lines_view(Seq::<String>::empty()) =~= Seq::<Seq<char>>::empty());
    if h == 0 {
        let line = String::from_str("no matches");
        proof {
            assert(lines_view(out@.push(line)) =~= lines_view(out@).push(line@));
        }
        out.push(line);
    }
    out
}

/// What `String::from_utf8_lossy` makes of bytes: the UTF-8 decoding,
/// with each invalid sequence replaced by U+FFFD. The replacement rules
/// are not restated here: the result is named; on valid UTF-8 it is the
/// decoding.
pub uninterp spec fn utf8_lossy(b: Seq<u8>) -> Seq<char>;

/// Decodes bytes as UTF-8, replacing invalid sequences
/// (`String::from_utf8_lossy`).
#[verifier::external_body]
pub(crate) fn lossy_text(b: &[u8]) -> (r: String)
    ensures
        r@ == utf8_lossy(b@),
        vstd::utf8::valid_utf8(b@) ==> r@ == vstd::utf8::decode_utf8(b@),
{
    String::from_utf8_lossy(b).into_owned()
}

/// The command list `help` prints.
pub open spec fn help_text() -> Seq<char> {
    "ls [dir] · cd <dir> · cat <file> · write <file> <text> · mkdir <dir> · rm <path> · apps · run <app> · voice <query> · fps · clear · about · > question"@
}

/// What `about` prints.
pub open spec fn about_text() -> Seq<char> {
    "Pseudo Motion OS · ABI (1, 1)"@
}

/// What `voice` prints without a query.
pub open spec fn voice_usage() -> Seq<char> {
    "voice <query> — search your voice history"@
}

/// What `apps` prints when no app has been conjured.
pub open spec fn no_apps() -> Seq<char> {
    "no conjured apps yet — try `make me a …` in the palette"@
}

/// The log line that echoes a command run in `cwd`.
pub open spec fn prompt_line(cwd: Seq<char>, c: Seq<char>) -> Seq<char> {
    cwd + " $ "@ + c
}

/// The last `LOG_LIMIT` lines of a log.
pub open spec fn capped_log(l: Seq<Seq<char>>) -> Seq<Seq<char>> {
    if l.len() > LOG_LIMIT {
        l.skip(l.len() - LOG_LIMIT)
    } else {
        l
    }
}

/// The log after command `c` printed `out`.
pub open spec fn logged(pre: Terminal, c: Seq<char>, out: Seq<Seq<char>>) -> Seq<Seq<char>> {
    capped_log(pre.lines().push(prompt_line(pre.cwd@, c)) + out)
}

/// The name of an error code, as printed.
pub open spec fn code_name(e: ErrorCode) -> Seq<char> {
    match e {
        ErrorCode::CapabilityDenied => "CapabilityDenied"@,
        ErrorCode::NotFound => "NotFound"@,
        ErrorCode::InvalidArgument => "InvalidArgument"@,
        ErrorCode::Unsupported => "Unsupported"@,
    }
}

/// The line reporting a changing call: `ok`, or `failed` and the error.
pub open spec fn done_line(r: Result<Reply, ErrorCode>, ok: Seq<char>, failed: Seq<char>) -> Seq<char> {
    match r {
        Ok(_) => ok,
        Err(e) => failed + code_name(e),
    }
}

/// The `ls` line of an entry: a directory with a slash, a file with its
/// size in bytes.
pub open spec fn entry_line(e: EntryView) -> Seq<char> {
    if e.1 {
        "  "@ + e.0 + "/"@
    } else {
        "  "@ + e.0 + "  "@ + dec(e.2 as nat) + "B"@
    }
}

/// The `ls` lines of a listing.
pub open spec fn ls_lines(l: Option<Seq<EntryView>>) -> Seq<Seq<char>> {
    match l {
        Some(es) => (if es.len() == 0 {
            seq!["(empty)"@]
        } else {
            Seq::empty()
        }) + es.map_values(|e: EntryView| entry_line(e)),
        None => seq!["ls: no such directory"@],
    }
}

/// The `apps` lines of the listing of `/apps`.
pub open spec fn apps_lines(l: Option<Seq<EntryView>>) -> Seq<Seq<char>> {
    match l {
        Some(es) => (if es.len() == 0 {
            seq![no_apps()]
        } else {
            Seq::empty()
        }) + es.map_values(|e: EntryView| "  "@ + e.0),
        None => seq!["apps: /apps unavailable"@],
    }
}

/// Whether `p` ends with `s`.
pub open spec fn ends_with(p: Seq<char>, s: Seq<char>) -> bool {
    p.len() >= s.len() && p.skip(p.len() - s.len()) == s
}

/// The file `run` reads for its argument: a path when it holds a slash,
/// else a name under `/apps`, with `.conjure` added when missing.
pub open spec fn run_path(cwd: Seq<char>, arg: Seq<char>) -> Seq<char> {
    let p = if arg.contains('/') {
        resolved(cwd, arg)
    } else {
        "/apps/"@ + arg
    };
    if ends_with(p, ".conjure"@) {
        p
    } else {
        p + ".conjure"@
    }
}

/// The search term of `voice`: the arguments, trimmed, in lower case.
pub open spec fn needle_of(arg1: Seq<char>, rest: Seq<char>) -> Seq<char> {
    lowercase(trim(arg1 + seq![' '] + rest))
}

/// What `voice` prints.
pub open spec fn voice_out(k: Kernel, pid: Pid, needle: Seq<char>) -> Seq<Seq<char>> {
    if needle.len() == 0 {
        seq![voice_usage()]
    } else {
        voice_lines(k, pid, needle)
    }
}

/// A streamed answer chunk applied to the last line: a chunk starting with
/// `\r` replaces it, any other chunk is appended.
pub open spec fn chunk_line(prev: Seq<char>, t: Seq<char>) -> Seq<char> {
    if t.len() > 0 && t[0] == '\r' {
        t.drop_first()
    } else {
        prev + t
    }
}

impl Terminal {
    /// The command left the kernel, the directory and the answer flag as
    /// they were, and asked for no action.
    pub open spec fn kept(pre: Terminal, k: Kernel, post: Terminal, k2: Kernel, act: Option<AppAction>) -> bool {
        k2 == k && post.cwd == pre.cwd && post.waiting_ai == pre.waiting_ai && act is None
    }

    /// What running the command line `cmd` does, from the terminal `pre`
    /// and the kernel `k`, as process `pid`: the terminal becomes `post`,
    /// the kernel `k2`, and `act` is handed to the shell.
    ///
    /// The line is trimmed; an empty line does nothing. A line starting
    /// with `>` asks the assistant the rest and leaves an empty line for
    /// the answer. Otherwise the first word is the command and the next
    /// one its argument; the rest of the line is `write`'s text.
    pub open spec fn ran(
        pre: Terminal,
        k: Kernel,
        pid: Pid,
        cmd: Seq<char>,
        post: Terminal,
        k2: Kernel,
        act: Option<AppAction>,
    ) -> bool {
        let c = trim(cmd);
        let verb = word(c);
        let arg1 = word(after_word(c));
        let rest = after_word(after_word(c));
        let cwd = pre.cwd@;
        if c.len() == 0 {
            post == pre && k2 == k && act is None
        } else if c[0] == '>' {
            &&& post.lines() == pre.lines() + seq![prompt_line(cwd, c), Seq::<char>::empty()]
            &&& post.cwd == pre.cwd && post.waiting_ai && act is None
            &&& exists|msg: String, r: Result<Reply, ErrorCode>|
                msg@ == trim(c.drop_first()) && #[trigger] Kernel::post_ai_prompt(k, k2, pid, AgentId(AGENT_ASSISTANT), msg, r)
        } else if verb == "help"@ {
            Terminal::kept(pre, k, post, k2, act) && post.lines() == logged(pre, c, seq![help_text()])
        } else if verb == "about"@ {
            Terminal::kept(pre, k, post, k2, act) && post.lines() == logged(pre, c, seq![about_text()])
        } else if verb == "voice"@ {
            Terminal::kept(pre, k, post, k2, act)
                && post.lines() == logged(pre, c, voice_out(k, pid, needle_of(arg1, rest)))
        } else if verb == "clear"@ {
            Terminal::kept(pre, k, post, k2, act) && post.lines() == Seq::<Seq<char>>::empty()
        } else if verb == "ls"@ {
            Terminal::kept(pre, k, post, k2, act) && post.lines() == logged(pre, c,
                ls_lines(listing(k, pid, if arg1.len() == 0 { cwd } else { resolved(cwd, arg1) })))
        } else if verb == "cd"@ {
            &&& k2 == k && post.waiting_ai == pre.waiting_ai && act is None
            &&& match listing(k, pid, resolved(cwd, arg1)) {
                Some(_) => post.cwd@ == resolved(cwd, arg1) && post.lines() == logged(pre, c, Seq::empty()),
                None => post.cwd == pre.cwd && post.lines() == logged(pre, c, seq!["cd: no such directory"@]),
            }
        } else if verb == "cat"@ {
            Terminal::kept(pre, k, post, k2, act) && post.lines() == logged(pre, c,
                match reading(k, pid, resolved(cwd, arg1)) {
                    Some(b) => text_lines(utf8_lossy(b)),
                    None => seq!["cat: no such file"@],
                })
        } else if verb == "write"@ {
            &&& post.cwd == pre.cwd && post.waiting_ai == pre.waiting_ai && act is None
            &&& exists|path: String, bytes: Vec<u8>, r: Result<Reply, ErrorCode>|
                path@ == resolved(cwd, arg1) && bytes@ == vstd::utf8::encode_utf8(rest)
                && #[trigger] Kernel::post_fs_write(k, k2, pid, path, bytes, r)
                && post.lines() == logged(pre, c, seq![done_line(r, "written"@, "write failed: "@)])
        } else if verb == "mkdir"@ {
            &&& post.cwd == pre.cwd && post.waiting_ai == pre.waiting_ai && act is None
            &&& exists|path: String, r: Result<Reply, ErrorCode>|
                path@ == resolved(cwd, arg1) && #[trigger] Kernel::post_fs_mkdir(k, k2, pid, path, r)
                && post.lines() == logged(pre, c, seq![done_line(r, "created"@, "mkdir failed: "@)])
        } else if verb == "rm"@ {
            &&& post.cwd == pre.cwd && post.waiting_ai == pre.waiting_ai && act is None
            &&& exists|path: String, r: Result<Reply, ErrorCode>|
                path@ == resolved(cwd, arg1) && #[trigger] Kernel::post_fs_delete(k, k2, pid, path, r)
                && post.lines() == logged(pre, c, seq![done_line(r, "removed"@, "rm failed: "@)])
        } else if verb == "apps"@ {
            Terminal::kept(pre, k, post, k2, act) && post.lines() == logged(pre, c, apps_lines(listing(k, pid, "/apps"@)))
        } else if verb == "run"@ {
            &&& k2 == k && post.cwd == pre.cwd && post.waiting_ai == pre.waiting_ai
            &&& match reading(k, pid, run_path(cwd, arg1)) {
                Some(b) => (act matches Some(AppAction::LaunchConjure(s)) && s@ == utf8_lossy(b))
                    && post.lines() == logged(pre, c, seq!["launching…"@]),
                None => act is None && post.lines() == logged(pre, c, seq!["run: app not found (see `apps`)"@]),
            }
        } else if verb == "fps"@ {
            Terminal::kept(pre, k, post, k2, act) && post.lines() == logged(pre, c,
                match querying(k, pid, "/sys/fps"@) {
                    Some(b) => seq![trim(utf8_lossy(b)) + " fps"@],
                    None => seq!["fps unavailable"@],
                })
        } else {
            Terminal::kept(pre, k, post, k2, act)
                && post.lines() == logged(pre, c, seq!["unknown command `"@ + verb + "` (try `help`)"@])
        }
    }

    /// Applies a streamed assistant chunk to the last log line while an
    /// answer is awaited; `done` ends the wait.
    pub fn on_ai_chunk(&mut self, text: &str, done: bool)
        ensures
            !old(self).waiting_ai ==> *final(self) == *old(self),
            old(self).waiting_ai ==> {
                &&& final(self).cwd == old(self).cwd
                &&& final(self).waiting_ai == !done
                &&& final(self).lines() == if old(self).log.len() == 0 {
                    old(self).lines()
                } else {
                    old(self).lines().update(old(self).log.len() - 1, chunk_line(old(self).lines().last(), text@))
                }
            },
    {
        if !self.waiting_ai {
            return;
        }
        let t = chars_of(text);
        match self.log.pop() {
            Some(last) => {
                let line = if t.len() > 0 && t[0] == '\r' {
                    string_of(&skip_chars(&t, 1))
                } else {
                    let mut v = chars_of(last.as_str());
                    push_all(&mut v, &t);
                    string_of(&v)
                };
                proof {
                    assert(lines_view(self.log@.push(line)) =~= lines_view(old(self).log@).update(
                        old(self).log.len() - 1, chunk_line(lines_view(old(self).log@).last(), text@)));
                }
                self.log.push(line);
            },
            None => {},
        }
        if done {
            self.waiting_ai = false;
        }
    }
}

/// The printed name of an error code.
pub(crate) fn code_text(e: &ErrorCode) -> (r: &'static str)
    ensures
        r@ == code_name(*e),
{
    match e {
        ErrorCode::CapabilityDenied => "CapabilityDenied",
        ErrorCode::NotFound => "NotFound",
        ErrorCode::InvalidArgument => "InvalidArgument",
        ErrorCode::Unsupported => "Unsupported",
    }
}

/// The line reporting a changing call.
fn done_text(r: &Result<Reply, ErrorCode>, ok: &str, failed: &str) -> (s: String)
    ensures
        s@ == done_line(*r, ok@, failed@),
{
    match r {
        Ok(_) => String::from_str(ok),
        Err(e) => {
            let mut v = chars_of(failed);
            push_str(&mut v, code_text(e));
            string_of(&v)
        },
    }
}

/// The `ls` line of an entry.
fn entry_text(e: &DirEntry) -> (r: String)
    ensures
        r@ == entry_line(crate::vfs::entry_view(*e)),
{
    let mut v: Vec<char> = Vec::new();
    push_str(&mut v, "  ");
    push_str(&mut v, e.name.as_str());
    if e.dir {
        push_str(&mut v, "/");
    } else {
        push_str(&mut v, "  ");
        push_dec(&mut v, e.size);
        push_str(&mut v, "B");
    }
    string_of(&v)
}

/// Appends one line to `out`.
fn push_line(out: &mut Vec<String>, line: String)
    ensures
        lines_view(final(out)@) == lines_view(old(out)@).push(line@),
{
    proof {
        assert(lines_view(out@.push(line)) =~= lines_view(out@).push(line@));
    }
    out.push(line);
}

/// The `ls` lines of a listing.
fn ls_out(l: Option<Vec<DirEntry>>) -> (r: Vec<String>)
    ensures
        lines_view(r@) == ls_lines(entries_opt(l)),
{
    let mut out: Vec<String> = Vec::new();
    match l {
        Some(es) => {
            if es.len() == 0 {
                push_line(&mut out, String::from_str("(empty)"));
            }
            let ghost head = lines_view(out@);
            let ghost ev = crate::vfs::entries_view(es@);
            let mut i: usize = 0;
            while i < es.len()
                invariant
                    i <= es.len(),
                    ev == crate::vfs::entries_view(es@),
                    lines_view(out@) == head + ev.take(i as int).map_values(|e: EntryView| entry_line(e)),
                decreases es.len() - i,
            {
                let line = entry_text(&es[i]);
                push_line(&mut out, line);
                i += 1;
                assert(ev.take(i as int).map_values(|e: EntryView| entry_line(e))
                    =~= ev.take(i - 1).map_values(|e: EntryView| entry_line(e)).push(entry_line(ev[i - 1])));
            }
            assert(ev.take(es.len() as int) =~= ev);
            proof {
                if es.len() == 0 {
                    assert(head =~= seq!["(empty)"@]);
                } else {
                    assert(head =~= Seq::<Seq<char>>::empty());
                }
            }
        },
        None => {
            push_line(&mut out, String::from_str("ls: no such directory"));
            assert(lines_view(out@) =~= seq!["ls: no such directory"@]);
        },
    }
    out
}

/// The `apps` lines of the listing of `/apps`.
fn apps_out(l: Option<Vec<DirEntry>>) -> (r: Vec<String>)
    ensures
        lines_view(r@) == apps_lines(entries_opt(l)),
{
    let mut out: Vec<String> = Vec::new();
    match l {
        Some(es) => {
            if es.len() == 0 {
                push_line(&mut out, String::from_str("no conjured apps yet — try `make me a …` in the palette"));
            }
            let ghost head = lines_view(out@);
            let ghost ev = crate::vfs::entries_view(es@);
            let mut i: usize = 0;
            while i < es.len()
                invariant
                    i <= es.len(),
                    ev == crate::vfs::entries_view(es@),
                    lines_view(out@) == head + ev.take(i as int).map_values(|e: EntryView| "  "@ + e.0),
                decreases es.len() - i,
            {
                let mut v: Vec<char> = Vec::new();
                push_str(&mut v, "  ");
                push_str(&mut v, es[i].name.as_str());
                push_line(&mut out, string_of(&v));
                i += 1;
                assert(ev.take(i as int).map_values(|e: EntryView| "  "@ + e.0)
                    =~= ev.take(i - 1).map_values(|e: EntryView| "  "@ + e.0).push("  "@ + ev[i - 1].0));
            }
            assert(ev.take(es.len() as int) =~= ev);
            proof {
                if es.len() == 0 {
                    assert(head =~= seq![no_apps()]);
                } else {
                    assert(head =~= Seq::<Seq<char>>::empty());
                }
            }
        },
        None => {
            push_line(&mut out, String::from_str("apps: /apps unavailable"));
            assert(lines_view(out@) =~= seq!["apps: /apps unavailable"@]);
        },
    }
    out
}

/// Whether `v` holds `c`.
fn has_char(v: &Vec<char>, c: char) -> (r: bool)
    ensures
        r == v@.contains(c),
{
    let mut i: usize = 0;
    while i < v.len()
        invariant
            i <= v.len(),
            forall|j: int| 0 <= j < i ==> v@[j] != c,
        decreases v.len() - i,
    {
        if v[i] == c {
            assert(v@[i as int] == c);
            return true;
        }
        i += 1;
    }
    false
}

/// Whether `p` ends with `s`.
fn ends_with_text(p: &Vec<char>, s: &str) -> (r: bool)
    ensures
        r == ends_with(p@, s@),
{
    let sv = chars_of(s);
    if p.len() < sv.len() {
        return false;
    }
    let off = p.len() - sv.len();
    let mut i: usize = 0;
    while i < sv.len()
        invariant
            i <= sv.len(),
            off == p.len() - sv.len(),
            sv@ == s@,
            forall|j: int| 0 <= j < i ==> p@[off + j] == sv@[j],
        decreases sv.len() - i,
    {
        if p[off + i] != sv[i] {
            assert(p@.skip(off as int)[i as int] != sv@[i as int]);
            return false;
        }
        i += 1;
    }
    assert(p@.skip(off as int) =~= sv@);
    true
}

impl Terminal {
    /// The file `run` reads for `arg`.
    fn run_file(&self, arg: &Vec<char>) -> (r: Vec<char>)
        ensures
            r@ == run_path(self.cwd@, arg@),
    {
        let mut p = if has_char(arg, '/') {
            self.resolve(arg)
        } else {
            let mut v: Vec<char> = Vec::new();
            push_str(&mut v, "/apps/");
            push_all(&mut v, arg);
            v
        };
        if !ends_with_text(&p, ".conjure") {
            push_str(&mut p, ".conjure");
        }
        p
    }

    /// Appends a command's output to the log and keeps its last
    /// `LOG_LIMIT` lines.
    fn finish(&mut self, out: Vec<String>)
        ensures
            final(self).lines() == capped_log(old(self).lines() + lines_view(out@)),
            final(self).cwd == old(self).cwd,
            final(self).waiting_ai == old(self).waiting_ai,
    {
        let mut out = out;
        let ghost o = out@;
        self.log.append(&mut out);
        assert(lines_view(self.log@) =~= lines_view(old(self).log@) + lines_view(o));
        if self.log.len() > LOG_LIMIT {
            let excess = self.log.len() - LOG_LIMIT;
            let ghost whole = self.log@;
            let tail = self.log.split_off(excess);
            self.log = tail;
            assert(lines_view(self.log@) =~= lines_view(whole).skip(excess as int));
        }
    }
}

impl Terminal {
    /// Runs one command line as process `pid` (see [`Terminal::ran`]);
    /// gives the app to launch when the command asks for one.
    #[verifier::rlimit(60)]
    #[verifier::spinoff_prover]
    pub fn run_command(&mut self, cmd: &str, kernel: &mut Kernel, pid: Pid) -> (act: Option<AppAction>)
        requires
            old(kernel).wf(),
        ensures
            final(kernel).wf(),
            Terminal::ran(*old(self), *old(kernel), pid, cmd@, *final(self), *final(kernel), act),
    {
        let ghost pre = *self;
        let ghost k = *kernel;
        let c = trim_str(cmd);
        if c.len() == 0 {
            return None;
        }
        let mut pl = chars_of(self.cwd.as_str());
        push_str(&mut pl, " $ ");
        push_all(&mut pl, &c);
        push_line(&mut self.log, string_of(&pl));
        if c[0] == '>' {
            self.waiting_ai = true;
            push_line(&mut self.log, String::new());
            let q = trim_chars(&skip_chars(&c, 1));
            let msg = string_of(&q);
            let ghost m = msg;
            let r = kernel.syscall(pid, Syscall::AiPrompt { agent: AgentId(AGENT_ASSISTANT), msg });
            assert(Kernel::post_ai_prompt(k, *kernel, pid, AgentId(AGENT_ASSISTANT), m, r));
            assert(self.lines() =~= pre.lines() + seq![prompt_line(pre.cwd@, c@), Seq::<char>::empty()]);
            return None;
        }
        let ghost logged0 = self.lines();
        assert(logged0 == pre.lines().push(prompt_line(pre.cwd@, c@)));
        let (verb, after) = split_word(&c);
        let (arg1, rest) = split_word(&after);
        let mut out: Vec<String> = Vec::new();
        let mut action: Option<AppAction> = None;
        if is_word(&verb, "help") {
            push_line(&mut out, String::from_str(
                "ls [dir] · cd <dir> · cat <file> · write <file> <text> · mkdir <dir> · rm <path> · apps · run <app> · voice <query> · fps · clear · about · > question",
            ));
        } else if is_word(&verb, "about") {
            push_line(&mut out, String::from_str("Pseudo Motion OS · ABI (1, 1)"));
        } else if is_word(&verb, "voice") {
            let mut t = crate::text::chars_copy(&arg1);
            t.push(' ');
            push_all(&mut t, &rest);
            assert(t@ =~= arg1@ + seq![' '] + rest@);
            let tt = trim_chars(&t);
            let low = to_lower(string_of(&tt).as_str());
            let needle = chars_of(low.as_str());
            if needle.len() == 0 {
                push_line(&mut out, String::from_str("voice <query> — search your voice history"));
            } else {
                out = voice_search(kernel, pid, &needle);
            }
        } else if is_word(&verb, "clear") {
            self.log.clear();
            assert(self.lines() =~= Seq::<Seq<char>>::empty());
        } else if is_word(&verb, "ls") {
            let path = if arg1.len() == 0 {
                chars_of(self.cwd.as_str())
            } else {
                self.resolve(&arg1)
            };
            let l = list_dir(kernel, pid, string_of(&path));
            out = ls_out(l);
        } else if is_word(&verb, "cd") {
            let path = self.resolve(&arg1);
            match list_dir(kernel, pid, string_of(&path)) {
                Some(_) => {
                    self.cwd = string_of(&path);
                },
                None => {
                    push_line(&mut out, String::from_str("cd: no such directory"));
                },
            }
        } else if is_word(&verb, "cat") {
            let path = self.resolve(&arg1);
            match read_file(kernel, pid, string_of(&path)) {
                Some(b) => {
                    let text = lossy_text(b.as_slice());
                    let tv = chars_of(text.as_str());
                    out = split_lines(&tv);
                },
                None => {
                    push_line(&mut out, String::from_str("cat: no such file"));
                },
            }
        } else if is_word(&verb, "write") {
            let path = string_of(&self.resolve(&arg1));
            let body = string_of(&rest);
            let bytes = body.as_str().as_bytes_vec();
            let ghost gp = path;
            let ghost gb = bytes;
            let r = kernel.syscall(pid, Syscall::FsWrite { path, bytes });
            assert(Kernel::post_fs_write(k, *kernel, pid, gp, gb, r));
            push_line(&mut out, done_text(&r, "written", "write failed: "));
        } else if is_word(&verb, "mkdir") {
            let path = string_of(&self.resolve(&arg1));
            let ghost gp = path;
            let r = kernel.syscall(pid, Syscall::FsMkdir { path });
            assert(Kernel::post_fs_mkdir(k, *kernel, pid, gp, r));
            push_line(&mut out, done_text(&r, "created", "mkdir failed: "));
        } else if is_word(&verb, "rm") {
            let path = string_of(&self.resolve(&arg1));
            let ghost gp = path;
            let r = kernel.syscall(pid, Syscall::FsDelete { path });
            assert(Kernel::post_fs_delete(k, *kernel, pid, gp, r));
            push_line(&mut out, done_text(&r, "removed", "rm failed: "));
        } else if is_word(&verb, "apps") {
            let l = list_dir(kernel, pid, String::from_str("/apps"));
            out = apps_out(l);
        } else if is_word(&verb, "run") {
            let path = self.run_file(&arg1);
            match read_file(kernel, pid, string_of(&path)) {
                Some(b) => {
                    action = Some(AppAction::LaunchConjure(lossy_text(b.as_slice())));
                    push_line(&mut out, String::from_str("launching…"));
                },
                None => {
                    push_line(&mut out, String::from_str("run: app not found (see `apps`)"));
                },
            }
        } else if is_word(&verb, "fps") {
            match query_file(kernel, pid, String::from_str("/sys/fps")) {
                Some(b) => {
                    let text = lossy_text(b.as_slice());
                    let mut v = trim_str(text.as_str());
                    push_str(&mut v, " fps");
                    push_line(&mut out, string_of(&v));
                },
                None => {
                    push_line(&mut out, String::from_str("fps unavailable"));
                },
            }
        } else {
            let mut v: Vec<char> = Vec::new();
            push_str(&mut v, "unknown command `");
            push_all(&mut v, &verb);
            push_str(&mut v, "` (try `help`)");
            push_line(&mut out, string_of(&v));
        }
        proof {
            assert(lines_view(Seq::<String>::empty()) =~= Seq::<Seq<char>>::empty());
        }
        self.finish(out);
        action
    }
}

/// The lengths and first letters of the command words, which tell them
/// apart.
proof fn lemma_verb_texts()
    ensures
        "help"@.len() == 4 && "help"@[0] == 'h',
        "about"@.len() == 5 && "about"@[0] == 'a',
        "voice"@.len() == 5 && "voice"@[0] == 'v',
        "clear"@.len() == 5 && "clear"@[0] == 'c',
        "ls"@.len() == 2 && "ls"@[0] == 'l',
        "cd"@.len() == 2 && "cd"@[0] == 'c',
        "cat"@.len() == 3 && "cat"@[0] == 'c',
        "write"@.len() == 5 && "write"@[0] == 'w',
        "mkdir"@.len() == 5 && "mkdir"@[0] == 'm',
        "rm"@.len() == 2 && "rm"@[0] == 'r',
{
    reveal_strlit("help");
    reveal_strlit("about");
    reveal_strlit("voice");
    reveal_strlit("clear");
    reveal_strlit("ls");
    reveal_strlit("cd");
    reveal_strlit("cat");
    reveal_strlit("write");
    reveal_strlit("mkdir");
    reveal_strlit("rm");
}

/// Whether a command may change the file tree.
pub open spec fn changes_files(verb: Seq<char>) -> bool {
    verb == "write"@ || verb == "mkdir"@ || verb == "rm"@
}

/// Only `write`, `mkdir` and `rm` change the kernel: every other command
/// (assistant questions aside) leaves it exactly as it was.
pub proof fn law_other_commands_keep_kernel(
    pre: Terminal,
    k: Kernel,
    pid: Pid,
    cmd: Seq<char>,
    post: Terminal,
    k2: Kernel,
    act: Option<AppAction>,
)
    requires
        Terminal::ran(pre, k, pid, cmd, post, k2, act),
        trim(cmd).len() == 0 || trim(cmd)[0] != '>',
        !changes_files(word(trim(cmd))),
    ensures
        k2 == k,
{
}

/// After any command other than an assistant question the log holds at
/// most `LOG_LIMIT` lines, whatever it held before.
pub proof fn law_log_bounded(
    pre: Terminal,
    k: Kernel,
    pid: Pid,
    cmd: Seq<char>,
    post: Terminal,
    k2: Kernel,
    act: Option<AppAction>,
)
    requires
        Terminal::ran(pre, k, pid, cmd, post, k2, act),
        trim(cmd).len() > 0,
        trim(cmd)[0] != '>',
    ensures
        post.lines().len() <= LOG_LIMIT,
{
    let c = trim(cmd);
    let verb = word(c);
    lemma_verb_texts();
    assert forall|out: Seq<Seq<char>>| #[trigger] logged(pre, c, out).len() <= LOG_LIMIT by {}
    if verb == "write"@ {
        let (path, bytes, r) = choose|path: String, bytes: Vec<u8>, r: Result<Reply, ErrorCode>|
            path@ == resolved(pre.cwd@, word(after_word(c))) && bytes@ == vstd::utf8::encode_utf8(after_word(after_word(c)))
            && #[trigger] Kernel::post_fs_write(k, k2, pid, path, bytes, r)
            && post.lines() == logged(pre, c, seq![done_line(r, "written"@, "write failed: "@)]);
        assert(post.lines() == logged(pre, c, seq![done_line(r, "written"@, "write failed: "@)]));
    } else if verb == "mkdir"@ {
        let (path, r) = choose|path: String, r: Result<Reply, ErrorCode>|
            path@ == resolved(pre.cwd@, word(after_word(c))) && #[trigger] Kernel::post_fs_mkdir(k, k2, pid, path, r)
            && post.lines() == logged(pre, c, seq![done_line(r, "created"@, "mkdir failed: "@)]);
        assert(post.lines() == logged(pre, c, seq![done_line(r, "created"@, "mkdir failed: "@)]));
    } else if verb == "rm"@ {
        let (path, r) = choose|path: String, r: Result<Reply, ErrorCode>|
            path@ == resolved(pre.cwd@, word(after_word(c))) && #[trigger] Kernel::post_fs_delete(k, k2, pid, path, r)
            && post.lines() == logged(pre, c, seq![done_line(r, "removed"@, "rm failed: "@)]);
        assert(post.lines() == logged(pre, c, seq![done_line(r, "removed"@, "rm failed: "@)]));
    }
}

} // verus!
