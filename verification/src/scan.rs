//! Scanning text for runs of characters: trimming, removing, splitting and
//! joining, each stated over `Seq<char>`.

use vstd::prelude::*;
use crate::text::{CharClass, rows, slice_chars};

verus! {

/// The number of leading characters of `s` that are outside `class`.
pub open spec fn run_len(s: Seq<char>, class: CharClass) -> nat
    decreases s.len(),
{
    if s.len() > 0 && !class.has(s[0]) {
        1 + run_len(s.drop_first(), class)
    } else {
        0
    }
}

/// `s` without its leading characters of `class`.
pub open spec fn trim_start(s: Seq<char>, class: CharClass) -> Seq<char>
    decreases s.len(),
{
    if s.len() > 0 && class.has(s[0]) {
        trim_start(s.drop_first(), class)
    } else {
        s
    }
}

/// `s` without its trailing characters of `class`.
pub open spec fn trim_end(s: Seq<char>, class: CharClass) -> Seq<char>
    decreases s.len(),
{
    if s.len() > 0 && class.has(s.last()) {
        trim_end(s.drop_last(), class)
    } else {
        s
    }
}

/// `s` without its leading and trailing characters of `class`.
pub open spec fn trim(s: Seq<char>, class: CharClass) -> Seq<char> {
    trim_end(trim_start(s, class), class)
}

/// `s` with every character of `class` taken out.
pub open spec fn without(s: Seq<char>, class: CharClass) -> Seq<char>
    decreases s.len(),
{
    if s.len() == 0 {
        s
    } else if class.has(s.last()) {
        without(s.drop_last(), class)
    } else {
        without(s.drop_last(), class).push(s.last())
    }
}

/// The pieces of `s` between the characters of `class`, empty ones included.
/// There is always one piece more than there are separators.
pub open spec fn split(s: Seq<char>, class: CharClass) -> Seq<Seq<char>>
    decreases s.len(),
{
    let n = run_len(s, class);
    if n >= s.len() {
        seq![s]
    } else {
        seq![s.take(n as int)] + split(s.skip(n as int + 1), class)
    }
}

/// The non-empty pieces of `s` between the characters of `class`.
pub open spec fn fields(s: Seq<char>, class: CharClass) -> Seq<Seq<char>>
    decreases s.len(),
{
    let n = run_len(s, class);
    if s.len() == 0 {
        Seq::empty()
    } else if n == 0 {
        fields(s.drop_first(), class)
    } else if n >= s.len() {
        seq![s]
    } else {
        seq![s.take(n as int)] + fields(s.skip(n as int + 1), class)
    }
}

/// The parts in order, with `sep` between each two neighbours.
pub open spec fn join(parts: Seq<Seq<char>>, sep: char) -> Seq<char>
    decreases parts.len(),
{
    if parts.len() == 0 {
        Seq::empty()
    } else if parts.len() == 1 {
        parts[0]
    } else {
        join(parts.drop_last(), sep) + seq![sep] + parts.last()
    }
}

/// A non-empty text with no character of `class` in it.
pub open spec fn is_word(w: Seq<char>, class: CharClass) -> bool {
    w.len() > 0 && forall|k: int| 0 <= k < w.len() ==> !class.has(#[trigger] w[k])
}

/// What `run_len` counts: a prefix free of `class` that ends at the first
/// character of `class`, or at the end of the text.
pub proof fn lemma_run_len(s: Seq<char>, class: CharClass)
    ensures
        run_len(s, class) <= s.len(),
        forall|k: int| 0 <= k < run_len(s, class) ==> !class.has(#[trigger] s[k]),
        run_len(s, class) < s.len() ==> class.has(s[run_len(s, class) as int]),
    decreases s.len(),
{
    if s.len() > 0 && !class.has(s[0]) {
        let t = s.drop_first();
        lemma_run_len(t, class);
        assert forall|k: int| 0 <= k < run_len(s, class) implies !class.has(#[trigger] s[k]) by {
            if k > 0 {
                assert(s[k] == t[k - 1]);
            }
        }
        if run_len(s, class) < s.len() {
            assert(s[run_len(s, class) as int] == t[run_len(t, class) as int]);
        }
    }
}

/// A prefix of length `n` that is free of `class` and ends at a character of
/// `class`, or at the end of the text, is the run that `run_len` counts.
pub proof fn lemma_run_len_is(s: Seq<char>, class: CharClass, n: nat)
    requires
        n <= s.len(),
        forall|k: int| 0 <= k < n ==> !class.has(#[trigger] s[k]),
        n < s.len() ==> class.has(s[n as int]),
    ensures
        run_len(s, class) == n,
    decreases n,
{
    if n > 0 {
        let t = s.drop_first();
        assert forall|k: int| 0 <= k < n - 1 implies !class.has(#[trigger] t[k]) by {
            assert(t[k] == s[k + 1]);
        }
        if n - 1 < t.len() {
            assert(t[n - 1] == s[n as int]);
        }
        assert(!class.has(s[0]));
        lemma_run_len_is(t, class, (n - 1) as nat);
    }
}

/// Strips the characters of `class` from both ends of `s`.
pub fn trim_chars(s: &Vec<char>, class: CharClass) -> (r: Vec<char>)
    ensures
        r@ == trim(s@, class),
{
    let n: usize = s.len();
    let mut a: usize = 0;
    assert(s@.skip(0) =~= s@);
    while a < n && class.contains(s[a])
        invariant
            a <= n,
            n == s.len(),
            trim_start(s@, class) == trim_start(s@.skip(a as int), class),
        decreases n - a,
    {
        assert(s@.skip(a as int).drop_first() =~= s@.skip(a + 1));
        a += 1;
    }
    assert(trim_start(s@, class) == s@.skip(a as int));
    let mut b: usize = n;
    assert(s@.subrange(a as int, n as int) =~= s@.skip(a as int));
    while b > a && class.contains(s[b - 1])
        invariant
            a <= b <= n,
            n == s.len(),
            trim(s@, class) == trim_end(s@.subrange(a as int, b as int), class),
        decreases b,
    {
        assert(s@.subrange(a as int, b as int).drop_last() =~= s@.subrange(a as int, b - 1));
        b -= 1;
    }
    slice_chars(s, a, b)
}

/// Takes every character of `class` out of `s`.
pub fn remove_chars(s: &Vec<char>, class: CharClass) -> (r: Vec<char>)
    ensures
        r@ == without(s@, class),
{
    let mut r: Vec<char> = Vec::new();
    let mut i: usize = 0;
    while i < s.len()
        invariant
            i <= s.len(),
            r@ == without(s@.take(i as int), class),
        decreases s.len() - i,
    {
        assert(s@.take(i + 1).drop_last() =~= s@.take(i as int));
        if !class.contains(s[i]) {
            r.push(s[i]);
        }
        i += 1;
    }
    assert(s@.take(s.len() as int) =~= s@);
    r
}

/// Cuts `s` at every character of `class`, keeping empty pieces.
pub fn split_chars(s: &Vec<char>, class: CharClass) -> (r: Vec<Vec<char>>)
    ensures
        rows(r@) == split(s@, class),
{
    let n: usize = s.len();
    let mut out: Vec<Vec<char>> = Vec::new();
    let mut start: usize = 0;
    let mut i: usize = 0;
    assert(s@.skip(0) =~= s@);
    assert(rows(out@) + split(s@, class) =~= split(s@, class));
    while i < n
        invariant
            start <= i <= n,
            n == s.len(),
            forall|k: int| start <= k < i ==> !class.has(#[trigger] s@[k]),
            split(s@, class) == rows(out@) + split(s@.skip(start as int), class),
        decreases n - i,
    {
        if class.contains(s[i]) {
            let piece = slice_chars(s, start, i);
            proof {
                let rest = s@.skip(start as int);
                assert forall|k: int| 0 <= k < i - start implies !class.has(#[trigger] rest[k]) by {
                    assert(rest[k] == s@[start + k]);
                }
                assert(rest[i - start] == s@[i as int]);
                lemma_run_len_is(rest, class, (i - start) as nat);
                assert(rest.take(i - start) =~= piece@);
                assert(rest.skip(i - start + 1) =~= s@.skip(i + 1));
                assert(rows(out@.push(piece)) =~= rows(out@).push(piece@));
                assert(rows(out@).push(piece@) + split(s@.skip(i + 1), class) =~= rows(out@) + (
                seq![piece@] + split(s@.skip(i + 1), class)));
            }
            out.push(piece);
            start = i + 1;
        }
        i += 1;
    }
    let piece = slice_chars(s, start, n);
    proof {
        let rest = s@.skip(start as int);
        assert forall|k: int| 0 <= k < n - start implies !class.has(#[trigger] rest[k]) by {
            assert(rest[k] == s@[start + k]);
        }
        lemma_run_len_is(rest, class, (n - start) as nat);
        assert(rest =~= piece@);
        assert(rows(out@.push(piece)) =~= rows(out@).push(piece@));
        assert(rows(out@).push(piece@) =~= rows(out@) + seq![piece@]);
    }
    out.push(piece);
    out
}

/// Cuts `s` at every character of `class`, dropping empty pieces.
pub fn split_fields(s: &Vec<char>, class: CharClass) -> (r: Vec<Vec<char>>)
    ensures
        rows(r@) == fields(s@, class),
{
    let n: usize = s.len();
    let mut out: Vec<Vec<char>> = Vec::new();
    let mut start: usize = 0;
    let mut i: usize = 0;
    assert(s@.skip(0) =~= s@);
    assert(rows(out@) + fields(s@, class) =~= fields(s@, class));
    while i < n
        invariant
            start <= i <= n,
            n == s.len(),
            forall|k: int| start <= k < i ==> !class.has(#[trigger] s@[k]),
            fields(s@, class) == rows(out@) + fields(s@.skip(start as int), class),
        decreases n - i,
    {
        if class.contains(s[i]) {
            proof {
                let rest = s@.skip(start as int);
                assert forall|k: int| 0 <= k < i - start implies !class.has(#[trigger] rest[k]) by {
                    assert(rest[k] == s@[start + k]);
                }
                assert(rest[i - start] == s@[i as int]);
                lemma_run_len_is(rest, class, (i - start) as nat);
                assert(rest.skip(i - start + 1) =~= s@.skip(i + 1));
                assert(rest.drop_first() =~= s@.skip(start + 1));
            }
            if i > start {
                let piece = slice_chars(s, start, i);
                proof {
                    let rest = s@.skip(start as int);
                    assert(rest.take(i - start) =~= piece@);
                    assert(rows(out@.push(piece)) =~= rows(out@).push(piece@));
                    assert(rows(out@).push(piece@) + fields(s@.skip(i + 1), class) =~= rows(out@)
                        + (seq![piece@] + fields(s@.skip(i + 1), class)));
                }
                out.push(piece);
            }
            start = i + 1;
        }
        i += 1;
    }
    if n > start {
        let piece = slice_chars(s, start, n);
        proof {
            let rest = s@.skip(start as int);
            assert forall|k: int| 0 <= k < n - start implies !class.has(#[trigger] rest[k]) by {
                assert(rest[k] == s@[start + k]);
            }
            lemma_run_len_is(rest, class, (n - start) as nat);
            assert(rest =~= piece@);
            assert(rows(out@.push(piece)) =~= rows(out@).push(piece@));
            assert(rows(out@).push(piece@) =~= rows(out@) + seq![piece@]);
        }
        out.push(piece);
    } else {
        assert(rows(out@) + Seq::<Seq<char>>::empty() =~= rows(out@));
    }
    out
}

/// Joins `parts[from..]` with `sep` between each two neighbours.
pub fn join_rows(parts: &Vec<Vec<char>>, from: usize, sep: char) -> (r: Vec<char>)
    requires
        from <= parts.len(),
    ensures
        r@ == join(rows(parts@).skip(from as int), sep),
{
    let mut r: Vec<char> = Vec::new();
    if from >= parts.len() {
        assert(rows(parts@).skip(from as int).len() == 0);
        return r;
    }
    let ghost all = rows(parts@).skip(from as int);
    let mut i: usize = from;
    while i < parts.len()
        invariant
            from <= i <= parts.len(),
            from < parts.len(),
            all == rows(parts@).skip(from as int),
            r@ == join(all.take(i - from), sep),
        decreases parts.len() - i,
    {
        if i > from {
            r.push(sep);
        }
        let part = &parts[i];
        let ghost before = r@;
        let mut j: usize = 0;
        while j < part.len()
            invariant
                j <= part.len(),
                r@ == before + part@.take(j as int),
            decreases part.len() - j,
        {
            r.push(part[j]);
            assert(part@.take(j + 1) =~= part@.take(j as int).push(part@[j as int]));
            j += 1;
        }
        proof {
            assert(part@.take(part.len() as int) =~= part@);
            let next = all.take(i - from + 1);
            assert(next.drop_last() =~= all.take(i - from));
            assert(next.last() == part@);
            if i > from {
                assert(r@ =~= join(all.take(i - from), sep) + seq![sep] + part@);
            } else {
                assert(r@ =~= part@);
            }
        }
        i += 1;
    }
    assert(all.take(parts.len() - from) =~= all);
    r
}

} // verus!
