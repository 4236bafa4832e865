//! Character-level helpers for the textual forms used in storage and requests.

use vstd::prelude::*;
use vstd::string::StrSliceExecFns;

verus! {

/// Folds an ASCII upper-case letter to lower case; every other character maps to itself.
pub open spec fn fold(c: char) -> char {
    if 'A' <= c && c <= 'Z' {
        ((c as u8) + 32) as char
    } else {
        c
    }
}

/// Two texts are the same up to the case of their ASCII letters.
pub open spec fn same_ignoring_case(a: Seq<char>, b: Seq<char>) -> bool {
    &&& a.len() == b.len()
    &&& forall|i: int| 0 <= i < a.len() ==> fold(#[trigger] a[i]) == fold(b[i])
}

/// The pieces of `s` that lie between occurrences of `sep`. A text without `sep` is
/// one piece, the empty text included; a trailing `sep` leaves an empty last piece.
pub open spec fn split(s: Seq<char>, sep: char) -> Seq<Seq<char>>
    decreases s.len(),
{
    if s.len() == 0 {
        seq![Seq::<char>::empty()]
    } else {
        let init = split(s.drop_last(), sep);
        if s.last() == sep {
            init.push(Seq::<char>::empty())
        } else {
            init.drop_last().push(init.last().push(s.last()))
        }
    }
}

/// The texts of `parts` in order, with `sep` between each two neighbours.
pub open spec fn join(parts: Seq<Seq<char>>, sep: Seq<char>) -> Seq<char>
    decreases parts.len(),
{
    if parts.len() == 0 {
        Seq::<char>::empty()
    } else if parts.len() == 1 {
        parts[0]
    } else {
        join(parts.drop_last(), sep) + sep + parts.last()
    }
}

/// Splitting never yields an empty list, no piece holds the separator, and joining
/// the pieces with the separator gives the text back.
pub proof fn split_then_join(s: Seq<char>, sep: char)
    ensures
        split(s, sep).len() >= 1,
        forall|k: int| 0 <= k < split(s, sep).len() ==> !(#[trigger] split(s, sep)[k]).contains(sep),
        join(split(s, sep), seq![sep]) == s,
    decreases s.len(),
{
    if s.len() == 0 {
        assert(split(s, sep)[0] =~= Seq::<char>::empty());
        assert(join(split(s, sep), seq![sep]) =~= s);
    } else {
        let init = split(s.drop_last(), sep);
        split_then_join(s.drop_last(), sep);
        let c = s.last();
        if c == sep {
            let now = init.push(Seq::<char>::empty());
            assert(now.drop_last() =~= init);
            assert(join(now, seq![sep]) =~= s);
            assert forall|k: int| 0 <= k < now.len() implies !(#[trigger] now[k]).contains(sep) by {
                if k < init.len() {
                    assert(now[k] == init[k]);
                }
            }
        } else {
            let last = init.last().push(c);
            let now = init.drop_last().push(last);
            assert(now.drop_last() =~= init.drop_last());
            if init.len() == 1 {
                assert(now.len() == 1 && now[0] == last);
                assert(s =~= s.drop_last().push(c));
            } else {
                assert(now.last() == last);
                assert(s =~= s.drop_last().push(c));
                assert(join(now, seq![sep]) =~= s);
            }
            assert forall|k: int| 0 <= k < now.len() implies !(#[trigger] now[k]).contains(sep) by {
                if k < init.len() - 1 {
                    assert(now[k] == init[k]);
                } else {
                    assert(!init[init.len() - 1].contains(sep));
                    assert forall|j: int| 0 <= j < last.len() implies last[j] != sep by {
                        if j < last.len() - 1 {
                            assert(init.last()[j] == last[j]);
                            assert(init.last().contains(last[j]));
                        }
                    }
                }
            }
        }
    }
}

/// A text without the separator is a single piece.
pub proof fn split_without_separator(s: Seq<char>, sep: char)
    requires
        !s.contains(sep),
    ensures
        split(s, sep) == seq![s],
    decreases s.len(),
{
    if s.len() == 0 {
        assert(s =~= Seq::<char>::empty());
    } else {
        let init = s.drop_last();
        assert forall|i: int| 0 <= i < init.len() implies init[i] != sep by {
            assert(s[i] == init[i]);
            assert(s.contains(s[i]));
        }
        split_without_separator(init, sep);
        assert(s.contains(s.last()));
        assert(init.push(s.last()) =~= s);
        assert(seq![init].last() == init);
        assert(seq![init].drop_last() =~= Seq::<Seq<char>>::empty());
        assert(Seq::<Seq<char>>::empty().push(s) =~= seq![s]);
    }
}

/// Behind a separator, a text without the separator is one more piece.
pub proof fn split_behind_separator(a: Seq<char>, b: Seq<char>, sep: char)
    requires
        !b.contains(sep),
    ensures
        split(a + seq![sep] + b, sep) == split(a, sep).push(b),
    decreases b.len(),
{
    let whole = a + seq![sep] + b;
    if b.len() == 0 {
        assert(whole.drop_last() =~= a);
        assert(whole.last() == sep);
        assert(b =~= Seq::<char>::empty());
    } else {
        let shorter = b.drop_last();
        assert forall|i: int| 0 <= i < shorter.len() implies shorter[i] != sep by {
            assert(b[i] == shorter[i]);
            assert(b.contains(b[i]));
        }
        split_behind_separator(a, shorter, sep);
        assert(whole.drop_last() =~= a + seq![sep] + shorter);
        assert(whole.last() == b.last());
        assert(b.contains(b.last()));
        let init = split(a, sep).push(shorter);
        assert(init.drop_last() =~= split(a, sep));
        assert(shorter.push(b.last()) =~= b);
    }
}

/// Joining pieces that hold no separator and splitting the result gives the pieces
/// back.
pub proof fn join_then_split(parts: Seq<Seq<char>>, sep: char)
    requires
        parts.len() >= 1,
        forall|k: int| 0 <= k < parts.len() ==> !(#[trigger] parts[k]).contains(sep),
    ensures
        split(join(parts, seq![sep]), sep) == parts,
    decreases parts.len(),
{
    if parts.len() == 1 {
        split_without_separator(parts[0], sep);
        assert(seq![parts[0]] =~= parts);
    } else {
        let init = parts.drop_last();
        assert forall|k: int| 0 <= k < init.len() implies !(#[trigger] init[k]).contains(sep) by {
            assert(init[k] == parts[k]);
        }
        join_then_split(init, sep);
        split_behind_separator(join(init, seq![sep]), parts.last(), sep);
        assert(init.push(parts.last()) =~= parts);
    }
}

/// The characters of `s`, in order.
pub fn chars_of(s: &str) -> (r: Vec<char>)
    ensures
        r@ == s@,
{
    let mut out: Vec<char> = Vec::new();
    for c in it: s.chars()
        invariant
            out@ == it.seq().take(it.index() as int),
            it.seq() == s@,
    {
        out.push(c);
    }
    out
}

/// Folds one character as [`fold`] does.
pub fn fold_char(c: char) -> (r: char)
    ensures
        r == fold(c),
{
    if 'A' <= c && c <= 'Z' {
        ((c as u8) + 32) as char
    } else {
        c
    }
}

/// Compares two texts up to the case of their ASCII letters.
pub fn eq_ignoring_case(a: &Vec<char>, b: &Vec<char>) -> (r: bool)
    ensures
        r == same_ignoring_case(a@, b@),
{
    if a.len() != b.len() {
        return false;
    }
    let mut i: usize = 0;
    while i < a.len()
        invariant
            a.len() == b.len(),
            i <= a.len(),
            forall|j: int| 0 <= j < i ==> fold(#[trigger] a@[j]) == fold(b@[j]),
        decreases a.len() - i,
    {
        if fold_char(a[i]) != fold_char(b[i]) {
            return false;
        }
        i += 1;
    }
    true
}

/// Whether two texts are the same, character by character.
pub fn same_text(a: &str, b: &str) -> (r: bool)
    ensures
        r == (a@ == b@),
{
    let left = chars_of(a);
    let right = chars_of(b);
    if left.len() != right.len() {
        return false;
    }
    let mut i: usize = 0;
    while i < left.len()
        invariant
            left@ == a@,
            right@ == b@,
            left.len() == right.len(),
            i <= left.len(),
            forall|j: int| 0 <= j < i ==> left@[j] == right@[j],
        decreases left.len() - i,
    {
        if left[i] != right[i] {
            return false;
        }
        i += 1;
    }
    assert(left@ =~= right@);
    true
}

/// The pieces of a list that are not empty, in order.
pub open spec fn filled(pieces: Seq<Seq<char>>) -> Seq<Seq<char>> {
    pieces.filter(|piece: Seq<char>| piece.len() > 0)
}

/// The pieces of `text` between occurrences of `sep`, as [`split`] defines them.
pub fn split_text(text: &str, sep: char) -> (r: Vec<String>)
    ensures
        r@.map_values(|piece: String| piece@) == split(text@, sep),
{
    let chars = chars_of(text);
    let mut out: Vec<String> = Vec::new();
    let mut start: usize = 0;
    let mut i: usize = 0;
    proof {
        assert(chars@.take(0) =~= Seq::<char>::empty());
        assert(chars@.subrange(0, 0) =~= Seq::<char>::empty());
        assert(out@.map_values(|piece: String| piece@).push(chars@.subrange(0, 0)) =~= split(
            chars@.take(0),
            sep,
        ));
    }
    while i < chars.len()
        invariant
            chars@ == text@,
            start <= i <= chars.len(),
            out@.map_values(|piece: String| piece@).push(chars@.subrange(start as int, i as int)) == split(
                chars@.take(i as int),
                sep,
            ),
        decreases chars.len() - i,
    {
        let ghost done = out@.map_values(|piece: String| piece@);
        let ghost piece = chars@.subrange(start as int, i as int);
        proof {
            assert(chars@.take(i + 1).drop_last() =~= chars@.take(i as int));
            assert(done.push(piece).drop_last() =~= done);
        }
        if chars[i] == sep {
            out.push(text.substring_char(start, i).to_owned());
            start = i + 1;
            proof {
                assert(out@.map_values(|piece: String| piece@) =~= done.push(piece));
                assert(chars@.subrange(start as int, i + 1) =~= Seq::<char>::empty());
            }
        } else {
            proof {
                assert(chars@.subrange(start as int, i + 1) =~= piece.push(chars@[i as int]));
            }
        }
        i += 1;
    }
    let ghost done = out@.map_values(|piece: String| piece@);
    out.push(text.substring_char(start, i).to_owned());
    proof {
        assert(chars@.take(chars.len() as int) =~= chars@);
        assert(out@.map_values(|piece: String| piece@) =~= done.push(chars@.subrange(start as int, i as int)));
    }
    out
}

/// The entries of a comma-separated list: the pieces between the commas, without
/// the empty ones.
pub fn listed(text: &str) -> (r: Vec<String>)
    ensures
        r@.map_values(|piece: String| piece@) == filled(split(text@, ',')),
{
    let pieces = split_text(text, ',');
    let ghost texts = pieces@.map_values(|piece: String| piece@);
    let mut out: Vec<String> = Vec::new();
    let mut i: usize = 0;
    proof {
        reveal(Seq::filter);
        assert(out@.map_values(|piece: String| piece@) =~= filled(texts.take(0)));
    }
    while i < pieces.len()
        invariant
            i <= pieces.len(),
            texts == pieces@.map_values(|piece: String| piece@),
            out@.map_values(|piece: String| piece@) == filled(texts.take(i as int)),
        decreases pieces.len() - i,
    {
        let ghost kept = out@.map_values(|piece: String| piece@);
        proof {
            reveal(Seq::filter);
            assert(texts.take(i + 1).drop_last() =~= texts.take(i as int));
            assert(texts.take(i + 1).last() == pieces@[i as int]@);
        }
        if pieces[i].as_str().unicode_len() > 0 {
            out.push(pieces[i].clone());
            proof {
                assert(out@.map_values(|piece: String| piece@) =~= kept.push(pieces@[i as int]@));
            }
        }
        i += 1;
    }
    proof {
        assert(texts.take(pieces.len() as int) =~= texts);
    }
    out
}

} // verus!
