//! Laws that relate splitting into fields and joining with a separator.

use vstd::prelude::*;
use crate::text::CharClass;
use crate::classify::{is_summary, stripped, summary_filter, words};
use crate::scan::{
    fields, is_word, join, lemma_run_len, lemma_run_len_is, run_len, split, trim, trim_end,
    trim_start,
};

verus! {

/// Every part is a word of `class`.
pub open spec fn all_words(parts: Seq<Seq<char>>, class: CharClass) -> bool {
    forall|i: int| 0 <= i < parts.len() ==> is_word(#[trigger] parts[i], class)
}

/// Every field of a text is a word: it is not empty and holds no separator.
pub proof fn lemma_fields_are_words(s: Seq<char>, class: CharClass)
    ensures
        all_words(fields(s, class), class),
    decreases s.len(),
{
    let n = run_len(s, class);
    lemma_run_len(s, class);
    if s.len() == 0 {
    } else if n == 0 {
        lemma_fields_are_words(s.drop_first(), class);
    } else if n >= s.len() {
        assert(is_word(s, class));
    } else {
        let head = s.take(n as int);
        let tail = fields(s.skip(n as int + 1), class);
        lemma_fields_are_words(s.skip(n as int + 1), class);
        assert forall|k: int| 0 <= k < head.len() implies !class.has(#[trigger] head[k]) by {
            assert(head[k] == s[k]);
        }
        assert(is_word(head, class));
        assert forall|i: int| 0 <= i < fields(s, class).len() implies is_word(
            #[trigger] fields(s, class)[i],
            class,
        ) by {
            if i > 0 {
                assert(fields(s, class)[i] == tail[i - 1]);
            }
        }
    }
}

/// A word is its own single field.
pub proof fn lemma_fields_of_word(w: Seq<char>, class: CharClass)
    requires
        is_word(w, class),
    ensures
        fields(w, class) == seq![w],
{
    lemma_run_len_is(w, class, w.len());
}

/// A word followed by a separator is the first field of the text, and the
/// remaining fields are those of what comes after the separator.
pub proof fn lemma_fields_after_word(
    w: Seq<char>,
    sep: char,
    rest: Seq<char>,
    class: CharClass,
)
    requires
        is_word(w, class),
        class.has(sep),
    ensures
        fields(w + seq![sep] + rest, class) == seq![w] + fields(rest, class),
{
    let s = w + seq![sep] + rest;
    assert forall|k: int| 0 <= k < w.len() implies !class.has(#[trigger] s[k]) by {
        assert(s[k] == w[k]);
    }
    assert(s[w.len() as int] == sep);
    lemma_run_len_is(s, class, w.len());
    assert(s.take(w.len() as int) =~= w);
    assert(s.skip(w.len() as int + 1) =~= rest);
}

/// A joined text starts with its first part and a separator.
pub proof fn lemma_join_front(parts: Seq<Seq<char>>, sep: char)
    requires
        parts.len() >= 2,
    ensures
        join(parts, sep) == parts[0] + seq![sep] + join(parts.drop_first(), sep),
    decreases parts.len(),
{
    let init = parts.drop_last();
    let tail = parts.drop_first();
    if parts.len() == 2 {
        assert(init =~= seq![parts[0]]);
        assert(tail =~= seq![parts[1]]);
        assert(join(init, sep) == parts[0]);
        assert(join(tail, sep) == parts[1]);
    } else {
        lemma_join_front(init, sep);
        assert(init.drop_first() =~= tail.drop_last());
        assert(init[0] == parts[0]);
        assert(tail.last() == parts.last());
        assert(join(parts, sep) =~= parts[0] + seq![sep] + (join(tail.drop_last(), sep) + seq![sep]
            + tail.last()));
    }
}

/// Splitting undoes joining: the fields of words joined by a separator of the
/// class are those words.
pub proof fn lemma_fields_of_join(parts: Seq<Seq<char>>, sep: char, class: CharClass)
    requires
        all_words(parts, class),
        class.has(sep),
    ensures
        fields(join(parts, sep), class) == parts,
    decreases parts.len(),
{
    if parts.len() == 0 {
        assert(fields(join(parts, sep), class) =~= parts);
    } else if parts.len() == 1 {
        lemma_fields_of_word(parts[0], class);
        assert(seq![parts[0]] =~= parts);
    } else {
        let tail = parts.drop_first();
        assert forall|i: int| 0 <= i < tail.len() implies is_word(#[trigger] tail[i], class) by {
            assert(tail[i] == parts[i + 1]);
        }
        lemma_join_front(parts, sep);
        lemma_fields_after_word(parts[0], sep, join(tail, sep), class);
        lemma_fields_of_join(tail, sep, class);
        assert(seq![parts[0]] + tail =~= parts);
    }
}

/// Cutting a text that was put together around a separator: the pieces are
/// those of the part before it, then those of the part after it.
pub proof fn lemma_split_concat(a: Seq<char>, sep: char, b: Seq<char>, class: CharClass)
    requires
        class.has(sep),
    ensures
        split(a + seq![sep] + b, class) == split(a, class) + split(b, class),
    decreases a.len(),
{
    let s = a + seq![sep] + b;
    let n = run_len(a, class);
    lemma_run_len(a, class);
    assert forall|k: int| 0 <= k < n implies !class.has(#[trigger] s[k]) by {
        assert(s[k] == a[k]);
    }
    if n >= a.len() {
        assert(s[a.len() as int] == sep);
        lemma_run_len_is(s, class, a.len());
        assert(s.take(a.len() as int) =~= a);
        assert(s.skip(a.len() as int + 1) =~= b);
    } else {
        assert(s[n as int] == a[n as int]);
        lemma_run_len_is(s, class, n);
        assert(s.take(n as int) =~= a.take(n as int));
        assert(s.skip(n as int + 1) =~= a.skip(n as int + 1) + seq![sep] + b);
        lemma_split_concat(a.skip(n as int + 1), sep, b, class);
        assert(seq![a.take(n as int)] + (split(a.skip(n as int + 1), class) + split(b, class))
            =~= (seq![a.take(n as int)] + split(a.skip(n as int + 1), class)) + split(b, class));
    }
}

/// The fields of a text that was put together around a separator are
/// those of the part before it, then those of the part after it.
pub proof fn lemma_fields_concat(a: Seq<char>, sep: char, b: Seq<char>, class: CharClass)
    requires
        class.has(sep),
    ensures
        fields(a + seq![sep] + b, class) == fields(a, class) + fields(b, class),
    decreases a.len(),
{
    let s = a + seq![sep] + b;
    let n = run_len(a, class);
    lemma_run_len(a, class);
    assert forall|k: int| 0 <= k < n implies !class.has(#[trigger] s[k]) by {
        assert(s[k] == a[k]);
    }
    if a.len() == 0 {
        lemma_run_len_is(s, class, 0);
        assert(s.drop_first() =~= b);
        assert(fields(a, class) + fields(b, class) =~= fields(b, class));
    } else if n == 0 {
        assert(s[0] == a[0]);
        lemma_run_len_is(s, class, 0);
        assert(s.drop_first() =~= a.drop_first() + seq![sep] + b);
        lemma_fields_concat(a.drop_first(), sep, b, class);
    } else if n >= a.len() {
        assert(s[a.len() as int] == sep);
        lemma_run_len_is(s, class, a.len());
        assert(s.take(a.len() as int) =~= a);
        assert(s.skip(a.len() as int + 1) =~= b);
    } else {
        assert(s[n as int] == a[n as int]);
        lemma_run_len_is(s, class, n);
        assert(s.take(n as int) =~= a.take(n as int));
        assert(s.skip(n as int + 1) =~= a.skip(n as int + 1) + seq![sep] + b);
        lemma_fields_concat(a.skip(n as int + 1), sep, b, class);
        assert(seq![a.take(n as int)] + (fields(a.skip(n as int + 1), class) + fields(b, class))
            =~= (seq![a.take(n as int)] + fields(a.skip(n as int + 1), class)) + fields(
            b,
            class,
        ));
    }
}

/// Stripping separators from the ends of a text does not change its fields.
pub proof fn lemma_fields_of_trimmed(s: Seq<char>, class: CharClass)
    ensures
        fields(trim(s, class), class) == fields(s, class),
{
    lemma_fields_of_trim_start(s, class);
    lemma_fields_of_trim_end(trim_start(s, class), class);
}

/// Stripping leading separators does not change the fields.
proof fn lemma_fields_of_trim_start(s: Seq<char>, class: CharClass)
    ensures
        fields(trim_start(s, class), class) == fields(s, class),
    decreases s.len(),
{
    if s.len() > 0 && class.has(s[0]) {
        lemma_run_len_is(s, class, 0);
        lemma_fields_of_trim_start(s.drop_first(), class);
    }
}

/// Stripping trailing separators does not change the fields.
proof fn lemma_fields_of_trim_end(s: Seq<char>, class: CharClass)
    ensures
        fields(trim_end(s, class), class) == fields(s, class),
    decreases s.len(),
{
    if s.len() > 0 && class.has(s.last()) {
        let init = s.drop_last();
        lemma_fields_of_trim_end(init, class);
        lemma_fields_concat(init, s.last(), Seq::empty(), class);
        assert(init + seq![s.last()] + Seq::<char>::empty() =~= s);
        assert(fields(init, class) + fields(Seq::<char>::empty(), class) =~= fields(init, class));
    }
}

/// The words of a line are those of the stripped line.
pub proof fn lemma_words_of_stripped(line: Seq<char>)
    ensures
        words(stripped(line)) == words(line),
{
    lemma_fields_of_trimmed(line, CharClass::Whitespace);
}

/// A listing row can be put together again from what was read out of it.
/// Writing a flag word, the name, a pad signature and the description with
/// single spaces between them gives a line whose words are those three and
/// then the words that followed the pad signature in the row. With the
/// row's own flag word and pad signature, the line has the row's words.
pub proof fn lemma_summary_rejoins(line: Seq<char>, flags: Seq<char>, pads: Seq<char>)
    requires
        is_summary(stripped(line)),
        is_word(flags, CharClass::Whitespace),
        is_word(pads, CharClass::Whitespace),
    ensures
        words(
            flags + seq![' '] + summary_filter(words(line)).name + seq![' '] + pads + seq![' ']
                + summary_filter(words(line)).description,
        ) == seq![flags, words(line)[1], pads] + words(line).skip(3),
        flags == words(line)[0] && pads == words(line)[2] ==> words(
            flags + seq![' '] + summary_filter(words(line)).name + seq![' '] + pads + seq![' ']
                + summary_filter(words(line)).description,
        ) == words(line),
{
    let class = CharClass::Whitespace;
    lemma_words_of_stripped(line);
    let w = words(line);
    let name = w[1];
    let tail = w.skip(3);
    let description = join(tail, ' ');
    lemma_fields_are_words(line, class);
    assert(is_word(name, class));
    assert forall|i: int| 0 <= i < tail.len() implies is_word(#[trigger] tail[i], class) by {
        assert(tail[i] == w[i + 3]);
    }
    lemma_fields_of_join(tail, ' ', class);
    let third = pads + seq![' '] + description;
    let second = name + seq![' '] + third;
    let whole = flags + seq![' '] + second;
    lemma_fields_after_word(pads, ' ', description, class);
    lemma_fields_after_word(name, ' ', third, class);
    lemma_fields_after_word(flags, ' ', second, class);
    assert(whole =~= flags + seq![' '] + name + seq![' '] + pads + seq![' '] + description);
    assert(seq![flags] + (seq![name] + (seq![pads] + tail)) =~= seq![flags, name, pads] + tail);
    if flags == w[0] && pads == w[2] {
        assert(seq![flags, name, pads] + tail =~= w);
    }
}

} // verus!
