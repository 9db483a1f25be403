//! The Voice Kit's history search: the persisted voice sessions under
//! `/voice` (one directory per day, one JSON transcript per session),
//! searched segment by segment through the kernel.

use vstd::prelude::*;
use crate::abi::{DirEntry, Pid};
use crate::kernel::Kernel;
use crate::terminal::{
    FieldPair, fields_view, hit_line, lines_view, list_dir, listing, read_file, reading, transcript_fields,
    transcript_fields_of, day_dir,
};
use crate::text::{chars_of, contains_chars, has_sub, lowercase, push_all, push_str, string_of, to_lower};
use crate::vfs::{EntryView, entries_view};

verus! {

/// The most results a search gives.
pub const KIT_RESULTS: usize = 30;

/// The `text` field of a transcript segment, or nothing.
pub open spec fn text_field(p: FieldPair) -> Seq<char> {
    match p.1 {
        Some(t) => t,
        None => Seq::empty(),
    }
}

/// The matches among the segments of one transcript of `day`, in order.
pub open spec fn kit_segments(day: Seq<char>, segs: Seq<FieldPair>, needle: Seq<char>) -> Seq<Seq<char>>
    decreases segs.len(),
{
    if segs.len() == 0 {
        Seq::empty()
    } else {
        let t = text_field(segs[0]);
        (if has_sub(lowercase(t), needle) {
            seq![hit_line(day, t)]
        } else {
            Seq::empty()
        }) + kit_segments(day, segs.drop_first(), needle)
    }
}

/// The matches in the transcripts listed in `files`, the directory `dir`
/// of `day`, in order; directories and unreadable files give none.
pub open spec fn kit_files(
    k: Kernel,
    pid: Pid,
    day: Seq<char>,
    dir: Seq<char>,
    files: Seq<EntryView>,
    needle: Seq<char>,
) -> Seq<Seq<char>>
    decreases files.len(),
{
    if files.len() == 0 {
        Seq::empty()
    } else {
        let f = files[0];
        (if f.1 {
            Seq::empty()
        } else {
            match reading(k, pid, dir + seq!['/'] + f.0) {
                Some(b) => kit_segments(day, transcript_fields(b), needle),
                None => Seq::empty(),
            }
        }) + kit_files(k, pid, day, dir, files.drop_first(), needle)
    }
}

/// The matches in the day directories among `days`, in order.
pub open spec fn kit_days(k: Kernel, pid: Pid, days: Seq<EntryView>, needle: Seq<char>) -> Seq<Seq<char>>
    decreases days.len(),
{
    if days.len() == 0 {
        Seq::empty()
    } else {
        let d = days[0];
        (if !d.1 {
            Seq::empty()
        } else {
            match listing(k, pid, day_dir(d.0)) {
                Some(fs) => kit_files(k, pid, d.0, day_dir(d.0), fs, needle),
                None => Seq::empty(),
            }
        }) + kit_days(k, pid, days.drop_first(), needle)
    }
}

/// The first `KIT_RESULTS` lines of a list.
pub open spec fn first_results(s: Seq<Seq<char>>) -> Seq<Seq<char>> {
    if s.len() >= KIT_RESULTS {
        s.take(KIT_RESULTS as int)
    } else {
        s
    }
}

/// The results of searching the voice history for `search`: the first
/// `KIT_RESULTS` segments whose text holds it, ignoring case, each as
/// `day · text`; none for an empty search.
pub open spec fn kit_results(k: Kernel, pid: Pid, search: Seq<char>) -> Seq<Seq<char>> {
    let needle = lowercase(search);
    if needle.len() == 0 {
        Seq::empty()
    } else {
        match listing(k, pid, "/voice"@) {
            Some(days) => first_results(kit_days(k, pid, days, needle)),
            None => Seq::empty(),
        }
    }
}

proof fn lemma_first_results_append(a: Seq<Seq<char>>, x: Seq<Seq<char>>, y: Seq<Seq<char>>)
    ensures
        (a + x).len() >= KIT_RESULTS ==> first_results(a + x) == first_results((a + x) + y),
{
    if (a + x).len() >= KIT_RESULTS {
        assert(((a + x) + y).take(KIT_RESULTS as int) =~= (a + x).take(KIT_RESULTS as int));
    }
}

/// Appends to `out` the matches among the segments of one transcript,
/// stopping when `out` reaches the limit; tells whether it did.
fn kit_scan_segments(
    day: &Vec<char>,
    fields: &Vec<(Option<String>, Option<String>)>,
    needle: &Vec<char>,
    out: &mut Vec<String>,
) -> (stopped: bool)
    requires
        old(out).len() < KIT_RESULTS,
    ensures
        lines_view(final(out)@) == first_results(lines_view(old(out)@) + kit_segments(day@, fields_view(fields@), needle@)),
        stopped == ((lines_view(old(out)@) + kit_segments(day@, fields_view(fields@), needle@)).len() >= KIT_RESULTS),
{
    let ghost segs = fields_view(fields@);
    let ghost total = lines_view(old(out)@) + kit_segments(day@, segs, needle@);
    let mut i: usize = 0;
    assert(segs.skip(0) =~= segs);
    assert(lines_view(out@) + kit_segments(day@, segs.skip(0), needle@) == total);
    while i < fields.len()
        invariant
            i <= fields.len(),
            segs == fields_view(fields@),
            total == lines_view(old(out)@) + kit_segments(day@, segs, needle@),
            out.len() < KIT_RESULTS,
            lines_view(out@) + kit_segments(day@, segs.skip(i as int), needle@) == total,
        decreases fields.len() - i,
    {
        let ghost tail = segs.skip(i as int);
        assert(tail.drop_first() =~= segs.skip(i + 1));
        assert(tail[0] == segs[i as int]);
        let ghost before = lines_view(out@);
        let text: &str = match &fields[i].1 {
            Some(t) => t.as_str(),
            None => "",
        };
        proof {
            reveal_strlit("");
        }
        assert(text@ == text_field(segs[i as int]));
        let low = to_lower(text);
        let lc = chars_of(low.as_str());
        if contains_chars(&lc, needle) {
            let mut line = crate::text::chars_copy(day);
            push_str(&mut line, " · ");
            push_str(&mut line, text);
            let s = string_of(&line);
            proof {
                assert(lines_view(out@.push(s)) =~= lines_view(out@).push(s@));
                assert(before + (seq![hit_line(day@, text@)] + kit_segments(day@, segs.skip(i + 1), needle@))
                    =~= before.push(s@) + kit_segments(day@, segs.skip(i + 1), needle@));
            }
            out.push(s);
            if out.len() >= KIT_RESULTS {
                proof {
                    let rest = kit_segments(day@, segs.skip(i + 1), needle@);
                    assert(kit_segments(day@, tail, needle@) == seq![hit_line(day@, text@)] + rest);
                    assert(before + seq![s@] =~= lines_view(out@));
                    assert(total == lines_view(out@) + rest);
                    lemma_first_results_append(before, seq![s@], rest);
                    assert(first_results(lines_view(out@)) =~= lines_view(out@));
                }
                return true;
            }
        } else {
            assert(before + (Seq::<Seq<char>>::empty() + kit_segments(day@, segs.skip(i + 1), needle@))
                =~= before + kit_segments(day@, segs.skip(i + 1), needle@));
        }
        i += 1;
    }
    assert(segs.skip(fields.len() as int) =~= Seq::<FieldPair>::empty());
    assert(lines_view(out@) + Seq::<Seq<char>>::empty() =~= lines_view(out@));
    false
}

/// Appends to `out` the matches in the transcripts listed in `files`,
/// stopping when `out` reaches the limit; tells whether it did.
#[verifier::rlimit(40)]
fn kit_scan_files(
    kernel: &mut Kernel,
    pid: Pid,
    day: &Vec<char>,
    dir: &Vec<char>,
    files: &Vec<DirEntry>,
    needle: &Vec<char>,
    out: &mut Vec<String>,
) -> (stopped: bool)
    requires
        old(kernel).wf(),
        old(out).len() < KIT_RESULTS,
    ensures
        *final(kernel) == *old(kernel),
        lines_view(final(out)@) == first_results(lines_view(old(out)@)
            + kit_files(*old(kernel), pid, day@, dir@, entries_view(files@), needle@)),
        stopped == ((lines_view(old(out)@) + kit_files(*old(kernel), pid, day@, dir@, entries_view(files@), needle@)).len()
            >= KIT_RESULTS),
{
    let ghost k = *kernel;
    let ghost fs = entries_view(files@);
    let ghost total = lines_view(old(out)@) + kit_files(k, pid, day@, dir@, fs, needle@);
    let mut i: usize = 0;
    assert(fs.skip(0) =~= fs);
    while i < files.len()
        invariant
            i <= files.len(),
            fs == entries_view(files@),
            *kernel == k,
            k == *old(kernel),
            k.wf(),
            total == lines_view(old(out)@) + kit_files(k, pid, day@, dir@, fs, needle@),
            out.len() < KIT_RESULTS,
            lines_view(out@) + kit_files(k, pid, day@, dir@, fs.skip(i as int), needle@) == total,
        decreases files.len() - i,
    {
        let ghost tail = fs.skip(i as int);
        assert(tail.drop_first() =~= fs.skip(i + 1));
        assert(tail[0] == fs[i as int]);
        let ghost before = lines_view(out@);
        let ghost rest = kit_files(k, pid, day@, dir@, fs.skip(i + 1), needle@);
        assert(fs[i as int] == (files@[i as int].name@, files@[i as int].dir, files@[i as int].size));
        if !files[i].dir {
            let mut p = crate::text::chars_copy(dir);
            p.push('/');
            push_str(&mut p, files[i].name.as_str());
            let path = string_of(&p);
            assert(path@ == dir@ + seq!['/'] + fs[i as int].0);
            match read_file(kernel, pid, path) {
                Some(b) => {
                    let sl = b.as_slice();
                    assert(sl@ == b@);
                    let fields = transcript_fields_of(sl);
                    let ghost x = kit_segments(day@, fields_view(fields@), needle@);
                    assert(kit_files(k, pid, day@, dir@, tail, needle@) == x + rest);
                    assert(total == (before + x) + rest);
                    if kit_scan_segments(day, &fields, needle, out) {
                        proof {
                            lemma_first_results_append(before, x, rest);
                        }
                        return true;
                    }
                    assert(lines_view(out@) + rest == total);
                },
                None => {
                    assert(kit_files(k, pid, day@, dir@, tail, needle@) =~= rest);
                },
            }
        } else {
            assert(kit_files(k, pid, day@, dir@, tail, needle@) =~= rest);
        }
        i += 1;
    }
    assert(fs.skip(files.len() as int) =~= Seq::<EntryView>::empty());
    assert(lines_view(out@) + Seq::<Seq<char>>::empty() =~= lines_view(out@));
    false
}

/// Appends to `out` the matches in the day directories listed in `days`,
/// stopping when `out` reaches the limit; tells whether it did.
#[verifier::rlimit(40)]
fn kit_scan_days(
    kernel: &mut Kernel,
    pid: Pid,
    days: &Vec<DirEntry>,
    needle: &Vec<char>,
    out: &mut Vec<String>,
) -> (stopped: bool)
    requires
        old(kernel).wf(),
        old(out).len() < KIT_RESULTS,
    ensures
        *final(kernel) == *old(kernel),
        lines_view(final(out)@) == first_results(lines_view(old(out)@)
            + kit_days(*old(kernel), pid, entries_view(days@), needle@)),
        stopped == ((lines_view(old(out)@) + kit_days(*old(kernel), pid, entries_view(days@), needle@)).len()
            >= KIT_RESULTS),
{
    let ghost k = *kernel;
    let ghost ds = entries_view(days@);
    let ghost total = lines_view(old(out)@) + kit_days(k, pid, ds, needle@);
    let mut i: usize = 0;
    assert(ds.skip(0) =~= ds);
    while i < days.len()
        invariant
            i <= days.len(),
            ds == entries_view(days@),
            *kernel == k,
            k == *old(kernel),
            k.wf(),
            total == lines_view(old(out)@) + kit_days(k, pid, ds, needle@),
            out.len() < KIT_RESULTS,
            lines_view(out@) + kit_days(k, pid, ds.skip(i as int), needle@) == total,
        decreases days.len() - i,
    {
        let ghost tail = ds.skip(i as int);
        assert(tail.drop_first() =~= ds.skip(i + 1));
        assert(tail[0] == ds[i as int]);
        let ghost before = lines_view(out@);
        let ghost rest = kit_days(k, pid, ds.skip(i + 1), needle@);
        assert(ds[i as int] == (days@[i as int].name@, days@[i as int].dir, days@[i as int].size));
        if days[i].dir {
            let name = chars_of(days[i].name.as_str());
            let mut d: Vec<char> = Vec::new();
            push_str(&mut d, "/voice/");
            push_all(&mut d, &name);
            let path = string_of(&d);
            match list_dir(kernel, pid, path) {
                Some(files) => {
                    let ghost x = kit_files(k, pid, name@, d@, entries_view(files@), needle@);
                    assert(kit_days(k, pid, tail, needle@) == x + rest);
                    assert(total == (before + x) + rest);
                    if kit_scan_files(kernel, pid, &name, &d, &files, needle, out) {
                        proof {
                            lemma_first_results_append(before, x, rest);
                        }
                        return true;
                    }
                    assert(lines_view(out@) + rest == total);
                },
                None => {
                    assert(kit_days(k, pid, tail, needle@) =~= rest);
                },
            }
        } else {
            assert(kit_days(k, pid, tail, needle@) =~= rest);
        }
        i += 1;
    }
    assert(ds.skip(days.len() as int) =~= Seq::<EntryView>::empty());
    assert(lines_view(out@) + Seq::<Seq<char>>::empty() =~= lines_view(out@));
    false
}

/// Searches the persisted voice sessions for `search`, ignoring case: the
/// first `KIT_RESULTS` matching segments, each as `day · text` (see
/// [`kit_results`]). Only reads, so the kernel is left as it was.
pub fn kit_search(kernel: &mut Kernel, pid: Pid, search: &str) -> (r: Vec<String>)
    requires
        old(kernel).wf(),
    ensures
        *final(kernel) == *old(kernel),
        lines_view(r@) == kit_results(*old(kernel), pid, search@),
{
    let low = to_lower(search);
    let needle = chars_of(low.as_str());
    let mut out: Vec<String> = Vec::new();
    assert(lines_view(out@) =~= Seq::<Seq<char>>::empty());
    if needle.len() == 0 {
        return out;
    }
    match list_dir(kernel, pid, String::from_str("/voice")) {
        Some(days) => {
            kit_scan_days(kernel, pid, &days, &needle, &mut out);
            assert(Seq::<Seq<char>>::empty() + kit_days(*old(kernel), pid, entries_view(days@), needle@)
                =~= kit_days(*old(kernel), pid, entries_view(days@), needle@));
        },
        None => {},
    }
    out
}

/// The texts of the utterances that were not commands, in order.
pub open spec fn spoken_texts(segs: Seq<(String, bool)>) -> Seq<Seq<char>>
    decreases segs.len(),
{
    if segs.len() == 0 {
        Seq::empty()
    } else {
        spoken_texts(segs.drop_last()) + if segs.last().1 {
            Seq::empty()
        } else {
            seq![segs.last().0@]
        }
    }
}

/// The last `n` lines of a list (all of them when fewer).
pub open spec fn last_n(s: Seq<Seq<char>>, n: nat) -> Seq<Seq<char>> {
    if s.len() > n {
        s.skip(s.len() - n)
    } else {
        s
    }
}

/// The last `n` utterances of a session that were not commands, oldest
/// first: the context handed to the assistant. Each segment is its text
/// and whether it was a command.
pub fn recent_lines(segments: &Vec<(String, bool)>, n: usize) -> (r: Vec<String>)
    ensures
        lines_view(r@) == last_n(spoken_texts(segments@), n as nat),
{
    let mut all: Vec<String> = Vec::new();
    let mut i: usize = 0;
    while i < segments.len()
        invariant
            i <= segments.len(),
            lines_view(all@) == spoken_texts(segments@.take(i as int)),
        decreases segments.len() - i,
    {
        assert(segments@.take(i + 1).drop_last() =~= segments@.take(i as int));
        if !segments[i].1 {
            let t = segments[i].0.clone();
            proof {
                assert(lines_view(all@.push(t)) =~= lines_view(all@).push(t@));
            }
            all.push(t);
            assert(lines_view(all@) =~= spoken_texts(segments@.take(i as int)) + seq![segments@[i as int].0@]);
        } else {
            assert(lines_view(all@) =~= spoken_texts(segments@.take(i as int)) + Seq::<Seq<char>>::empty());
        }
        i += 1;
    }
    assert(segments@.take(segments.len() as int) =~= segments@);
    if all.len() > n {
        let ghost whole = all@;
        let tail = all.split_off(all.len() - n);
        assert(lines_view(tail@) =~= lines_view(whole).skip(whole.len() - n));
        tail
    } else {
        all
    }
}

} // verus!
