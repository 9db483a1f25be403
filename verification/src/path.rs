//! Absolute paths: normalization into `/`-separated segments, and the
//! character-code ordering under which the file system keeps its paths.

use vstd::prelude::*;
use crate::text::chars_of;

verus! {

// ---------- ordering ----------

/// Strict lexicographic order on character sequences, by character code
/// (the order of `str`'s comparison operators).
pub open spec fn lex_lt(a: Seq<char>, b: Seq<char>) -> bool
    decreases a.len(),
{
    if a.len() == 0 {
        b.len() > 0
    } else if b.len() == 0 {
        false
    } else if a[0] != b[0] {
        (a[0] as int) < (b[0] as int)
    } else {
        lex_lt(a.drop_first(), b.drop_first())
    }
}

/// The order is irreflexive.
pub proof fn lemma_lex_irrefl(a: Seq<char>)
    ensures
        !lex_lt(a, a),
    decreases a.len(),
{
    if a.len() > 0 {
        lemma_lex_irrefl(a.drop_first());
    }
}

/// The order is transitive.
pub proof fn lemma_lex_trans(a: Seq<char>, b: Seq<char>, c: Seq<char>)
    requires
        lex_lt(a, b),
        lex_lt(b, c),
    ensures
        lex_lt(a, c),
    decreases a.len(),
{
    if a.len() > 0 && b.len() > 0 && c.len() > 0 {
        if a[0] == b[0] && b[0] == c[0] {
            lemma_lex_trans(a.drop_first(), b.drop_first(), c.drop_first());
        }
    }
}

/// Two different sequences are ordered one way or the other.
pub proof fn lemma_lex_total(a: Seq<char>, b: Seq<char>)
    requires
        a != b,
    ensures
        lex_lt(a, b) || lex_lt(b, a),
    decreases a.len(),
{
    if a.len() == 0 {
        assert(b.len() > 0) by {
            if b.len() == 0 {
                assert(a =~= b);
            }
        }
    } else if b.len() > 0 && a[0] == b[0] {
        if a.drop_first() == b.drop_first() {
            assert(a =~= seq![a[0]] + a.drop_first());
            assert(b =~= seq![b[0]] + b.drop_first());
        }
        lemma_lex_total(a.drop_first(), b.drop_first());
    }
}

/// A common prefix does not change the order.
pub proof fn lemma_lex_prefix(p: Seq<char>, a: Seq<char>, b: Seq<char>)
    ensures
        lex_lt(p + a, p + b) == lex_lt(a, b),
    decreases p.len(),
{
    if p.len() > 0 {
        assert((p + a).drop_first() =~= p.drop_first() + a);
        assert((p + b).drop_first() =~= p.drop_first() + b);
        lemma_lex_prefix(p.drop_first(), a, b);
    } else {
        assert(p + a =~= a);
        assert(p + b =~= b);
    }
}

/// Whether `a` comes strictly before `b`.
pub fn lex_less(a: &Vec<char>, b: &Vec<char>) -> (r: bool)
    ensures
        r == lex_lt(a@, b@),
{
    let mut i: usize = 0;
    assert(a@.skip(0) =~= a@);
    assert(b@.skip(0) =~= b@);
    while i < a.len() && i < b.len()
        invariant
            i <= a.len(),
            i <= b.len(),
            lex_lt(a@, b@) == lex_lt(a@.skip(i as int), b@.skip(i as int)),
        decreases a.len() - i,
    {
        if a[i] != b[i] {
            assert(a@.skip(i as int)[0] == a@[i as int]);
            assert(b@.skip(i as int)[0] == b@[i as int]);
            return a[i] < b[i];
        }
        assert(a@.skip(i as int).drop_first() =~= a@.skip(i + 1));
        assert(b@.skip(i as int).drop_first() =~= b@.skip(i + 1));
        i += 1;
    }
    i < b.len()
}

// ---------- sorted keyed sequences ----------

/// Keys strictly increase along the sequence.
pub open spec fn sorted_keys<V>(s: Seq<(Seq<char>, V)>) -> bool {
    forall|i: int, j: int| 0 <= i < j < s.len() ==> lex_lt(#[trigger] s[i].0, #[trigger] s[j].0)
}

/// The elements strictly increase along the sequence.
pub open spec fn sorted_set(s: Seq<Seq<char>>) -> bool {
    forall|i: int, j: int| 0 <= i < j < s.len() ==> lex_lt(#[trigger] s[i], #[trigger] s[j])
}

/// The map from the keys of a sorted keyed sequence to their values.
pub open spec fn key_map(s: Seq<(Seq<char>, Seq<u8>)>) -> Map<Seq<char>, Seq<u8>> {
    Map::new(|k: Seq<char>| has_key(s, k), |k: Seq<char>| s[key_index(s, k)].1)
}

/// Whether some entry has key `k`.
pub open spec fn has_key(s: Seq<(Seq<char>, Seq<u8>)>, k: Seq<char>) -> bool {
    exists|i: int| 0 <= i < s.len() && s[i].0 == k
}

/// The index of an entry with key `k`.
pub open spec fn key_index(s: Seq<(Seq<char>, Seq<u8>)>, k: Seq<char>) -> int {
    choose|i: int| 0 <= i < s.len() && s[i].0 == k
}

/// In a sorted keyed sequence, the entry at `i` is the one the map finds.
pub proof fn lemma_key_map_index(s: Seq<(Seq<char>, Seq<u8>)>, i: int)
    requires
        sorted_keys(s),
        0 <= i < s.len(),
    ensures
        key_map(s).contains_key(s[i].0),
        key_map(s)[s[i].0] == s[i].1,
{
    let k = s[i].0;
    assert(0 <= i < s.len() && s[i].0 == k);
    assert(has_key(s, k));
    let j = key_index(s, k);
    if j < i {
        assert(lex_lt(s[j].0, s[i].0));
        lemma_lex_irrefl(k);
    } else if j > i {
        assert(lex_lt(s[i].0, s[j].0));
        lemma_lex_irrefl(k);
    }
    assert(j == i);
    assert(key_map(s).contains_key(k));
}

// ---------- segments and normalization ----------

/// The pieces of `s` between `/` characters (as `str::split('/')` gives
/// them: the empty string has one empty piece).
pub open spec fn split_slash(s: Seq<char>) -> Seq<Seq<char>>
    decreases s.len(),
{
    if s.len() == 0 {
        seq![Seq::empty()]
    } else {
        let t = split_slash(s.drop_last());
        if s.last() == '/' {
            t.push(Seq::empty())
        } else {
            t.update(t.len() - 1, t.last().push(s.last()))
        }
    }
}

/// There is always at least one piece.
pub proof fn lemma_split_len(s: Seq<char>)
    ensures
        split_slash(s).len() >= 1,
    decreases s.len(),
{
    if s.len() > 0 {
        lemma_split_len(s.drop_last());
    }
}

/// The segment `.`.
pub open spec fn dot() -> Seq<char> {
    seq!['.']
}

/// The segment `..`.
pub open spec fn dot_dot() -> Seq<char> {
    seq!['.', '.']
}

/// One normalization step: empty and `.` pieces are skipped, `..` pops
/// one segment (never above the root), anything else is pushed.
pub open spec fn norm_step(stack: Seq<Seq<char>>, seg: Seq<char>) -> Seq<Seq<char>> {
    if seg.len() == 0 || seg == dot() {
        stack
    } else if seg == dot_dot() {
        if stack.len() > 0 {
            stack.drop_last()
        } else {
            stack
        }
    } else {
        stack.push(seg)
    }
}

/// The segments left after normalizing a sequence of pieces in order.
pub open spec fn norm_stack(pieces: Seq<Seq<char>>) -> Seq<Seq<char>>
    decreases pieces.len(),
{
    if pieces.len() == 0 {
        Seq::empty()
    } else {
        norm_step(norm_stack(pieces.drop_last()), pieces.last())
    }
}

/// `/a/b/c` for the segments `a`, `b`, `c`; empty for no segments.
pub open spec fn slash_join(segs: Seq<Seq<char>>) -> Seq<char>
    decreases segs.len(),
{
    if segs.len() == 0 {
        Seq::empty()
    } else {
        slash_join(segs.drop_last()).push('/') + segs.last()
    }
}

/// The absolute path of a segment list: `/` for none.
pub open spec fn abs_path(segs: Seq<Seq<char>>) -> Seq<char> {
    if segs.len() == 0 {
        seq!['/']
    } else {
        slash_join(segs)
    }
}

/// The segments of the normalized form of `p`.
pub open spec fn norm_segs(p: Seq<char>) -> Seq<Seq<char>> {
    norm_stack(split_slash(p))
}

/// The normalized form of `p`: `/` followed by its segments joined by
/// `/`, after resolving `.`, `..` and empty pieces.
pub open spec fn norm(p: Seq<char>) -> Seq<char> {
    abs_path(norm_segs(p))
}

/// A segment a normalized path can hold: non-empty, no `/`, not `.` or
/// `..`.
pub open spec fn good_seg(s: Seq<char>) -> bool {
    s.len() > 0 && s != dot() && s != dot_dot() && !s.contains('/')
}

/// Every segment of a normalized path is a good segment.
pub proof fn lemma_norm_good(p: Seq<char>)
    ensures
        forall|i: int| 0 <= i < norm_segs(p).len() ==> good_seg(#[trigger] norm_segs(p)[i]),
{
    lemma_pieces_no_slash(p);
    lemma_stack_good(split_slash(p));
}

proof fn lemma_pieces_no_slash(s: Seq<char>)
    ensures
        forall|i: int| 0 <= i < split_slash(s).len() ==> !(#[trigger] split_slash(s)[i]).contains('/'),
    decreases s.len(),
{
    lemma_split_len(s);
    if s.len() > 0 {
        lemma_pieces_no_slash(s.drop_last());
        lemma_split_len(s.drop_last());
        let t = split_slash(s.drop_last());
        assert forall|i: int| 0 <= i < split_slash(s).len() implies !(#[trigger] split_slash(s)[i]).contains('/') by {
            if s.last() != '/' && i == t.len() - 1 {
                let x = t.last().push(s.last());
                assert(!t[i].contains('/'));
                if x.contains('/') {
                    let k = choose|k: int| 0 <= k < x.len() && x[k] == '/';
                    if k < t.last().len() {
                        assert(t.last()[k] == '/');
                    }
                }
            }
        }
    }
}

proof fn lemma_stack_good(pieces: Seq<Seq<char>>)
    requires
        forall|i: int| 0 <= i < pieces.len() ==> !(#[trigger] pieces[i]).contains('/'),
    ensures
        forall|i: int| 0 <= i < norm_stack(pieces).len() ==> good_seg(#[trigger] norm_stack(pieces)[i]),
    decreases pieces.len(),
{
    if pieces.len() > 0 {
        assert forall|i: int| 0 <= i < pieces.drop_last().len() implies !(#[trigger] pieces.drop_last()[i]).contains('/') by {
            assert(pieces.drop_last()[i] == pieces[i]);
        }
        lemma_stack_good(pieces.drop_last());
        assert(!pieces[pieces.len() - 1].contains('/'));
        let st = norm_stack(pieces.drop_last());
        let seg = pieces.last();
        assert forall|i: int| 0 <= i < norm_stack(pieces).len() implies good_seg(#[trigger] norm_stack(pieces)[i]) by {
            if seg.len() == 0 || seg == dot() {
            } else if seg == dot_dot() {
                if st.len() > 0 {
                    assert(st.drop_last()[i] == st[i]);
                }
            } else {
                if i < st.len() {
                    assert(st.push(seg)[i] == st[i]);
                }
            }
        }
    }
}

/// The views of a vector of character vectors.
pub open spec fn segs_view(v: Seq<Vec<char>>) -> Seq<Seq<char>> {
    v.map_values(|x: Vec<char>| x@)
}

fn dot_check(seg: &Vec<char>) -> (r: u8)
    ensures
        r == 0 <==> (seg@.len() == 0 || seg@ == dot()),
        r == 1 <==> seg@ == dot_dot(),
        r == 2 <==> !(seg@.len() == 0 || seg@ == dot() || seg@ == dot_dot()),
{
    if seg.len() == 0 {
        return 0;
    }
    if seg.len() == 1 && seg[0] == '.' {
        assert(seg@ =~= dot());
        return 0;
    }
    if seg.len() == 2 && seg[0] == '.' && seg[1] == '.' {
        assert(seg@ =~= dot_dot());
        return 1;
    }
    assert(seg@ != dot()) by {
        if seg@ == dot() {
            assert(seg@[0] == '.');
        }
    }
    assert(seg@ != dot_dot()) by {
        if seg@ == dot_dot() {
            assert(seg@[0] == '.' && seg@[1] == '.');
        }
    }
    2
}

fn apply_step(stack: &mut Vec<Vec<char>>, seg: Vec<char>)
    ensures
        segs_view(final(stack)@) == norm_step(segs_view(old(stack)@), seg@),
{
    let k = dot_check(&seg);
    if k == 0 {
    } else if k == 1 {
        if stack.len() > 0 {
            let _ = stack.pop();
            assert(segs_view(stack@) =~= segs_view(old(stack)@).drop_last());
        }
    } else {
        let ghost sv = seg@;
        stack.push(seg);
        assert(segs_view(stack@) =~= segs_view(old(stack)@).push(sv));
    }
}

/// Normalizes a path: its segments and its absolute form (see [`norm`]).
pub fn normalize_segs(path: &str) -> (r: (Vec<Vec<char>>, Vec<char>))
    ensures
        segs_view(r.0@) == norm_segs(path@),
        r.1@ == norm(path@),
{
    let chars = chars_of(path);
    let mut stack: Vec<Vec<char>> = Vec::new();
    let mut seg: Vec<char> = Vec::new();
    let mut i: usize = 0;
    while i < chars.len()
        invariant
            i <= chars.len(),
            split_slash(chars@.take(i as int)).len() >= 1,
            segs_view(stack@) == norm_stack(split_slash(chars@.take(i as int)).drop_last()),
            seg@ == split_slash(chars@.take(i as int)).last(),
        decreases chars.len() - i,
    {
        let ghost before = split_slash(chars@.take(i as int));
        let c = chars[i];
        assert(chars@.take(i + 1).drop_last() =~= chars@.take(i as int));
        assert(chars@.take(i + 1).last() == c);
        if c == '/' {
            let done = seg;
            seg = Vec::new();
            apply_step(&mut stack, done);
            assert(split_slash(chars@.take(i + 1)) == before.push(Seq::empty()));
            assert(before.push(Seq::empty()).drop_last() =~= before);
            assert(before =~= before.drop_last().push(before.last()));
        } else {
            seg.push(c);
            let ghost after = split_slash(chars@.take(i + 1));
            assert(after == before.update(before.len() - 1, before.last().push(c)));
            assert(after.drop_last() =~= before.drop_last());
        }
        i += 1;
    }
    assert(chars@.take(chars.len() as int) =~= path@);
    let ghost pieces = split_slash(path@);
    apply_step(&mut stack, seg);
    assert(pieces =~= pieces.drop_last().push(pieces.last()));
    let out = join_abs(&stack);
    (stack, out)
}

/// Normalizes a path (see [`norm`]): absolute, no empty or `.` segments,
/// `..` removing the segment before it (never above the root), and no
/// trailing slash except for the root itself.
pub fn normalize(path: &str) -> (r: String)
    ensures
        r@ == norm(path@),
{
    let (_segs, key) = normalize_segs(path);
    crate::text::string_of(&key)
}

/// The absolute path of a segment list.
pub fn join_abs(segs: &Vec<Vec<char>>) -> (r: Vec<char>)
    ensures
        r@ == abs_path(segs_view(segs@)),
{
    let mut out: Vec<char> = Vec::new();
    if segs.len() == 0 {
        out.push('/');
        assert(out@ =~= seq!['/']);
        return out;
    }
    let mut i: usize = 0;
    while i < segs.len()
        invariant
            i <= segs.len(),
            out@ == slash_join(segs_view(segs@).take(i as int)),
        decreases segs.len() - i,
    {
        out.push('/');
        let s = &segs[i];
        let mut j: usize = 0;
        let ghost base = out@;
        while j < s.len()
            invariant
                j <= s.len(),
                out@ == base + s@.take(j as int),
            decreases s.len() - j,
        {
            out.push(s[j]);
            j += 1;
            assert(s@.take(j as int) =~= s@.take(j - 1).push(s@[j - 1]));
        }
        assert(s@.take(s.len() as int) =~= s@);
        assert(segs_view(segs@).take(i + 1).drop_last() =~= segs_view(segs@).take(i as int));
        i += 1;
    }
    assert(segs_view(segs@).take(segs.len() as int) =~= segs_view(segs@));
    out
}

/// A non-empty segment list joins to a non-empty path.
pub proof fn lemma_slash_join_len(segs: Seq<Seq<char>>)
    requires
        segs.len() > 0,
    ensures
        slash_join(segs).len() > 0,
{
}

proof fn lemma_split_append(a: Seq<char>, b: Seq<char>)
    requires
        !b.contains('/'),
    ensures
        split_slash(a + b) == split_slash(a).update(split_slash(a).len() - 1, split_slash(a).last() + b),
    decreases b.len(),
{
    lemma_split_len(a);
    if b.len() == 0 {
        assert(a + b =~= a);
        assert(split_slash(a).last() + b =~= split_slash(a).last());
        assert(split_slash(a).update(split_slash(a).len() - 1, split_slash(a).last()) =~= split_slash(a));
    } else {
        let b0 = b.drop_last();
        assert(!b0.contains('/')) by {
            if b0.contains('/') {
                let k = choose|k: int| 0 <= k < b0.len() && b0[k] == '/';
                assert(b[k] == '/');
            }
        }
        lemma_split_append(a, b0);
        assert((a + b).drop_last() =~= a + b0);
        assert((a + b).last() == b.last());
        assert(b.last() != '/') by {
            assert(b[b.len() - 1] == b.last());
        }
        lemma_split_len(a + b0);
        let t = split_slash(a + b0);
        let sa = split_slash(a);
        assert(t.len() == sa.len());
        assert(t.last() == sa.last() + b0);
        assert((sa.last() + b0).push(b.last()) =~= sa.last() + b);
        assert(split_slash(a + b) == t.update(t.len() - 1, t.last().push(b.last())));
        assert(split_slash(a).last() + b0 + seq![b.last()] =~= split_slash(a).last() + b);
        assert(split_slash(a + b) =~= split_slash(a).update(split_slash(a).len() - 1, split_slash(a).last() + b));
    }
}

pub(crate) proof fn lemma_split_join(segs: Seq<Seq<char>>)
    requires
        forall|i: int| 0 <= i < segs.len() ==> !(#[trigger] segs[i]).contains('/'),
    ensures
        split_slash(slash_join(segs)) == seq![Seq::<char>::empty()] + segs,
    decreases segs.len(),
{
    if segs.len() == 0 {
        assert(split_slash(Seq::<char>::empty()) =~= seq![Seq::<char>::empty()]);
        assert(seq![Seq::<char>::empty()] + segs =~= seq![Seq::<char>::empty()]);
    } else {
        let s0 = segs.drop_last();
        assert forall|i: int| 0 <= i < s0.len() implies !(#[trigger] s0[i]).contains('/') by {
            assert(s0[i] == segs[i]);
        }
        lemma_split_join(s0);
        let a = slash_join(s0).push('/');
        assert(a.drop_last() =~= slash_join(s0));
        assert(split_slash(a) == split_slash(slash_join(s0)).push(Seq::empty()));
        assert(!segs.last().contains('/')) by {
            assert(segs[segs.len() - 1] == segs.last());
        }
        lemma_split_append(a, segs.last());
        assert(Seq::<char>::empty() + segs.last() =~= segs.last());
        assert(split_slash(slash_join(segs)) =~= seq![Seq::<char>::empty()] + segs);
    }
}

pub(crate) proof fn lemma_norm_stack_good(segs: Seq<Seq<char>>)
    requires
        forall|i: int| 0 <= i < segs.len() ==> good_seg(#[trigger] segs[i]),
    ensures
        norm_stack(seq![Seq::<char>::empty()] + segs) == segs,
    decreases segs.len(),
{
    let e = seq![Seq::<char>::empty()];
    if segs.len() == 0 {
        assert(e + segs =~= e);
        assert(e.drop_last() =~= Seq::<Seq<char>>::empty());
        assert(norm_stack(Seq::<Seq<char>>::empty()) == Seq::<Seq<char>>::empty());
        assert(e.last() == Seq::<char>::empty());
        assert(norm_stack(e) == norm_step(Seq::<Seq<char>>::empty(), Seq::<char>::empty()));
    } else {
        let s0 = segs.drop_last();
        assert forall|i: int| 0 <= i < s0.len() implies good_seg(#[trigger] s0[i]) by {
            assert(s0[i] == segs[i]);
        }
        lemma_norm_stack_good(s0);
        assert((e + segs).drop_last() =~= e + s0);
        assert((e + segs).last() == segs.last());
        assert(good_seg(segs[segs.len() - 1]));
        assert(norm_stack(e + segs) == norm_step(norm_stack(e + s0), segs.last()));
        assert(norm_step(s0, segs.last()) == s0.push(segs.last()));
        assert(s0.push(segs.last()) =~= segs);
    }
}

/// Normalization is idempotent: a normalized path normalizes to itself.
pub proof fn law_norm_idempotent(p: Seq<char>)
    ensures
        norm(norm(p)) == norm(p),
{
    let segs = norm_segs(p);
    lemma_norm_good(p);
    assert forall|i: int| 0 <= i < segs.len() implies !(#[trigger] segs[i]).contains('/') by {
        assert(good_seg(segs[i]));
    }
    if segs.len() == 0 {
        let r = seq!['/'];
        assert(r.drop_last() =~= Seq::<char>::empty());
        assert(split_slash(r) == split_slash(Seq::<char>::empty()).push(Seq::empty()));
        let pieces = split_slash(r);
        assert(pieces =~= seq![Seq::<char>::empty(), Seq::<char>::empty()]);
        assert(pieces.drop_last() =~= seq![Seq::<char>::empty()]);
        assert(seq![Seq::<char>::empty()].drop_last() =~= Seq::<Seq<char>>::empty());
        let e = seq![Seq::<char>::empty()];
        assert(norm_stack(e) == norm_step(norm_stack(e.drop_last()), e.last()));
        assert(norm_stack(e) =~= Seq::<Seq<char>>::empty());
        assert(norm_stack(pieces) == norm_step(norm_stack(pieces.drop_last()), pieces.last()));
        assert(norm_segs(r) =~= Seq::<Seq<char>>::empty());
    } else {
        lemma_split_join(segs);
        lemma_norm_stack_good(segs);
    }
}

/// A normalized path starts with `/`.
pub proof fn law_norm_absolute(p: Seq<char>)
    ensures
        norm(p).len() > 0,
        norm(p)[0] == '/',
{
    let segs = norm_segs(p);
    if segs.len() > 0 {
        lemma_slash_join_first(segs);
    }
}

pub(crate) proof fn lemma_slash_join_first(segs: Seq<Seq<char>>)
    requires
        segs.len() > 0,
    ensures
        slash_join(segs).len() > 0,
        slash_join(segs)[0] == '/',
    decreases segs.len(),
{
    let s0 = segs.drop_last();
    if segs.len() > 1 {
        lemma_slash_join_first(s0);
        assert((slash_join(s0).push('/') + segs.last())[0] == slash_join(s0)[0]);
    } else {
        assert(s0 =~= Seq::<Seq<char>>::empty());
        assert(slash_join(s0).push('/') =~= seq!['/']);
        assert((seq!['/'] + segs.last())[0] == '/');
    }
}

} // verus!
