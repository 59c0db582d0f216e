//! Strings as sequences of characters: joining, cutting and searching,
//! as the names, messages and key names of the crate need them.

use vstd::prelude::*;
use vstd::string::*;

verus! {

/// The views of the strings of `v`, in order.
pub open spec fn views(v: Seq<String>) -> Seq<Seq<char>> {
    Seq::new(v.len(), |i: int| v[i]@)
}

/// The parts, in order, with `sep` between each two neighbours.
pub open spec fn join(parts: Seq<Seq<char>>, sep: Seq<char>) -> Seq<char>
    decreases parts.len(),
{
    if parts.len() == 0 {
        Seq::empty()
    } else if parts.len() == 1 {
        parts[0]
    } else {
        join(parts.drop_last(), sep) + sep + parts.last()
    }
}

/// The pieces of `s` between occurrences of `sep`; never empty.
pub open spec fn split(s: Seq<char>, sep: char) -> Seq<Seq<char>>
    decreases s.len(),
{
    if s.len() == 0 {
        seq![Seq::empty()]
    } else {
        let before = split(s.drop_last(), sep);
        if s.last() == sep {
            before.push(Seq::empty())
        } else {
            before.drop_last().push(before.last().push(s.last()))
        }
    }
}

/// `s` with every occurrence of `pat` taken out, scanning from the left.
pub open spec fn without(s: Seq<char>, pat: Seq<char>) -> Seq<char>
    decreases s.len(),
{
    if pat.len() == 0 || s.len() < pat.len() {
        s
    } else if s.subrange(0, pat.len() as int) == pat {
        without(s.subrange(pat.len() as int, s.len() as int), pat)
    } else {
        seq![s[0]] + without(s.subrange(1, s.len() as int), pat)
    }
}

/// The first place in `names` where `name` stands, or the length of
/// `names` where it stands nowhere.
pub open spec fn index_of(names: Seq<Seq<char>>, name: Seq<char>) -> int
    decreases names.len(),
{
    if names.len() == 0 || names[0] == name {
        0
    } else {
        1 + index_of(names.drop_first(), name)
    }
}

/// What `str::to_uppercase` makes of a string.
pub uninterp spec fn uppercase(s: Seq<char>) -> Seq<char>;

/// `str::to_uppercase`: the upper-case form of `s` by the rules of Unicode.
/// The result is a function of the characters of `s` alone.
#[verifier::external_body]
pub(crate) fn to_uppercase(s: &str) -> (upper: String)
    ensures
        upper@ == uppercase(s@),
{
    s.to_uppercase()
}

/// Whether two strings hold the same characters.
pub fn string_eq(a: &str, b: &str) -> (equal: bool)
    ensures
        equal == (a@ == b@),
{
    let n = a.unicode_len();
    if n != b.unicode_len() {
        return false;
    }
    let mut i: usize = 0;
    while i < n
        invariant
            n == a@.len(),
            n == b@.len(),
            i <= n,
            forall|k: int| 0 <= k < i ==> a@[k] == b@[k],
        decreases n - i,
    {
        if a.get_char(i) != b.get_char(i) {
            return false;
        }
        i = i + 1;
    }
    proof {
        assert(a@ =~= b@);
    }
    true
}

/// Joins the strings of `parts` with `sep` between them.
pub fn join_strings(parts: &Vec<String>, sep: &str) -> (s: String)
    ensures
        s@ == join(views(parts@), sep@),
{
    let mut out = String::new();
    let mut i: usize = 0;
    while i < parts.len()
        invariant
            i <= parts.len(),
            out@ == join(views(parts@).subrange(0, i as int), sep@),
        decreases parts.len() - i,
    {
        proof {
            let all = views(parts@);
            let upto = all.subrange(0, i + 1);
            assert(upto.drop_last() =~= all.subrange(0, i as int));
            assert(upto.last() == parts@[i as int]@);
            if i == 0 {
                assert(join(upto, sep@) == parts@[0]@);
                assert(out@ =~= Seq::<char>::empty());
            }
        }
        if i > 0 {
            out.append(sep);
        }
        out.append(parts[i].as_str());
        i = i + 1;
    }
    proof {
        assert(views(parts@).subrange(0, i as int) =~= views(parts@));
    }
    out
}

/// Cuts `s` at every `sep`.
pub fn split_at(s: &str, sep: char) -> (parts: Vec<String>)
    ensures
        views(parts@) == split(s@, sep),
{
    let n = s.unicode_len();
    let mut parts: Vec<String> = Vec::new();
    let mut start: usize = 0;
    let mut i: usize = 0;
    proof {
        assert(s@.subrange(0, 0) =~= Seq::<char>::empty());
        assert(views(parts@).push(s@.subrange(0, 0)) =~= seq![Seq::<char>::empty()]);
    }
    while i < n
        invariant
            n == s@.len(),
            start <= i <= n,
            split(s@.subrange(0, i as int), sep) == views(parts@).push(
                s@.subrange(start as int, i as int),
            ),
        decreases n - i,
    {
        let c = s.get_char(i);
        proof {
            let upto = s@.subrange(0, i + 1);
            assert(upto.drop_last() =~= s@.subrange(0, i as int));
            assert(upto.last() == c);
            let before = split(s@.subrange(0, i as int), sep);
            let piece = s@.subrange(start as int, i as int);
            assert(before.last() == piece);
            assert(before.drop_last() =~= views(parts@));
            assert(piece.push(c) =~= s@.subrange(start as int, i + 1));
        }
        if c == sep {
            let piece = String::from_str(s.substring_char(start, i));
            proof {
                assert(views(parts@.push(piece)) =~= views(parts@).push(piece@));
                assert(s@.subrange(i + 1, i + 1) =~= Seq::<char>::empty());
            }
            parts.push(piece);
            start = i + 1;
        }
        i = i + 1;
    }
    let piece = String::from_str(s.substring_char(start, n));
    proof {
        assert(views(parts@.push(piece)) =~= views(parts@).push(piece@));
        assert(s@.subrange(0, n as int) =~= s@);
    }
    parts.push(piece);
    parts
}

/// Whether `pat` stands in `s` at character `at`.
fn matches_at(s: &str, len: usize, at: usize, pat: &str) -> (found: bool)
    requires
        len == s@.len(),
        at + pat@.len() <= s@.len(),
    ensures
        found == (s@.subrange(at as int, at + pat@.len()) == pat@),
{
    let m = pat.unicode_len();
    let mut j: usize = 0;
    while j < m
        invariant
            m == pat@.len(),
            len == s@.len(),
            at + m <= s@.len(),
            j <= m,
            s@.subrange(at as int, at + j) == pat@.subrange(0, j as int),
        decreases m - j,
    {
        if s.get_char(at + j) != pat.get_char(j) {
            proof {
                let window = s@.subrange(at as int, at + m);
                assert(window[j as int] != pat@[j as int]);
            }
            return false;
        }
        proof {
            assert(s@.subrange(at as int, at + j + 1) =~= s@.subrange(at as int, at + j).push(
                s@[at + j],
            ));
            assert(pat@.subrange(0, j + 1) =~= pat@.subrange(0, j as int).push(pat@[j as int]));
        }
        j = j + 1;
    }
    proof {
        assert(pat@.subrange(0, m as int) =~= pat@);
    }
    true
}

/// Takes every occurrence of `pat` out of `s`, scanning from the left.
pub fn remove_all(s: &str, pat: &str) -> (out: String)
    ensures
        out@ == without(s@, pat@),
{
    let n = s.unicode_len();
    let m = pat.unicode_len();
    if m == 0 {
        return String::from_str(s);
    }
    let mut out = String::new();
    let mut i: usize = 0;
    proof {
        assert(s@.subrange(0, n as int) =~= s@);
        assert(out@ + without(s@, pat@) =~= without(s@, pat@));
    }
    while i < n
        invariant
            n == s@.len(),
            m == pat@.len(),
            m > 0,
            i <= n,
            without(s@, pat@) == out@ + without(s@.subrange(i as int, n as int), pat@),
        decreases n - i,
    {
        let ghost rest = s@.subrange(i as int, n as int);
        if n - i < m {
            proof {
                assert(without(rest, pat@) == rest);
                assert(without(s@.subrange(n as int, n as int), pat@) =~= Seq::<char>::empty());
                assert(out@ + rest + Seq::<char>::empty() =~= out@ + rest);
            }
            out.append(s.substring_char(i, n));
            i = n;
        } else if matches_at(s, n, i, pat) {
            proof {
                assert(rest.subrange(0, m as int) =~= s@.subrange(i as int, i + m));
                assert(rest.subrange(m as int, rest.len() as int) =~= s@.subrange(
                    i + m,
                    n as int,
                ));
            }
            i = i + m;
        } else {
            proof {
                assert(rest.subrange(0, m as int) =~= s@.subrange(i as int, i + m));
                assert(rest.subrange(1, rest.len() as int) =~= s@.subrange(i + 1, n as int));
                assert(s@.subrange(i as int, i + 1) =~= seq![rest[0]]);
                assert(out@ + (seq![rest[0]] + without(s@.subrange(i + 1, n as int), pat@))
                    =~= (out@ + seq![rest[0]]) + without(s@.subrange(i + 1, n as int), pat@));
            }
            out.append(s.substring_char(i, i + 1));
            i = i + 1;
        }
    }
    proof {
        assert(without(s@.subrange(n as int, n as int), pat@) =~= Seq::<char>::empty());
        assert(out@ + Seq::<char>::empty() =~= out@);
    }
    out
}

/// `index_of` is the place `at` when `name` stands there and nowhere before.
pub proof fn lemma_index_of_is(names: Seq<Seq<char>>, name: Seq<char>, at: int)
    requires
        0 <= at <= names.len(),
        forall|k: int| 0 <= k < at ==> names[k] != name,
        at == names.len() || names[at] == name,
    ensures
        index_of(names, name) == at,
    decreases at,
{
    if at > 0 {
        let rest = names.drop_first();
        assert forall|k: int| 0 <= k < at - 1 implies rest[k] != name by {
            assert(rest[k] == names[k + 1]);
        }
        lemma_index_of_is(rest, name, at - 1);
    }
}

/// `index_of` points at the first occurrence of `name`, if there is one.
pub proof fn lemma_index_of(names: Seq<Seq<char>>, name: Seq<char>)
    ensures
        0 <= index_of(names, name) <= names.len(),
        index_of(names, name) < names.len() ==> names[index_of(names, name)] == name,
        forall|k: int| 0 <= k < index_of(names, name) ==> names[k] != name,
    decreases names.len(),
{
    if names.len() == 0 || names[0] == name {
    } else {
        let rest = names.drop_first();
        lemma_index_of(rest, name);
        assert forall|k: int| 0 <= k < index_of(names, name) implies names[k] != name by {
            if k > 0 {
                assert(rest[k - 1] == names[k]);
            }
        }
    }
}

/// A string is cut into at least one piece.
pub proof fn lemma_split_nonempty(s: Seq<char>, sep: char)
    ensures
        split(s, sep).len() >= 1,
    decreases s.len(),
{
    if s.len() > 0 {
        lemma_split_nonempty(s.drop_last(), sep);
    }
}

/// Characters behind a string that hold no separator lengthen its last
/// piece.
pub proof fn lemma_split_append(a: Seq<char>, b: Seq<char>, sep: char)
    requires
        !b.contains(sep),
    ensures
        split(a + b, sep) == split(a, sep).drop_last().push(split(a, sep).last() + b),
    decreases b.len(),
{
    let pieces = split(a, sep);
    lemma_split_nonempty(a, sep);
    if b.len() == 0 {
        assert(a + b =~= a);
        assert(pieces.last() + b =~= pieces.last());
        assert(pieces.drop_last().push(pieces.last()) =~= pieces);
    } else {
        let front = b.drop_last();
        assert(!front.contains(sep)) by {
            if front.contains(sep) {
                let k = choose|k: int| 0 <= k < front.len() && front[k] == sep;
                assert(b[k] == sep);
            }
        }
        assert(b.last() != sep) by {
            assert(b[b.len() - 1] == b.last());
        }
        lemma_split_append(a, front, sep);
        assert((a + b).drop_last() =~= a + front);
        assert((a + b).last() == b.last());
        assert((pieces.last() + front).push(b.last()) =~= pieces.last() + b);
        lemma_split_nonempty(a + front, sep);
    }
}

/// Cutting at the separator what was joined with it gives the parts back,
/// when there is at least one part and none holds the separator.
pub proof fn lemma_split_join(parts: Seq<Seq<char>>, sep: char)
    requires
        parts.len() >= 1,
        forall|i: int| 0 <= i < parts.len() ==> !(#[trigger] parts[i]).contains(sep),
    ensures
        split(join(parts, seq![sep]), sep) == parts,
    decreases parts.len(),
{
    if parts.len() == 1 {
        let empty = Seq::<char>::empty();
        lemma_split_append(empty, parts[0], sep);
        assert(empty + parts[0] =~= parts[0]);
        assert(split(empty, sep) == seq![empty]);
        assert(seq![empty].drop_last().push(seq![empty].last() + parts[0]) =~= parts);
    } else {
        let front = parts.drop_last();
        assert forall|i: int| 0 <= i < front.len() implies !(#[trigger] front[i]).contains(
            sep,
        ) by {
            assert(front[i] == parts[i]);
        }
        lemma_split_join(front, sep);
        let joined = join(front, seq![sep]);
        let cut = joined + seq![sep];
        assert(cut.drop_last() =~= joined);
        assert(cut.last() == sep);
        assert(split(cut, sep) == front.push(Seq::<char>::empty()));
        lemma_split_append(cut, parts.last(), sep);
        assert(Seq::<char>::empty() + parts.last() =~= parts.last());
        assert(front.push(Seq::<char>::empty()).drop_last() =~= front);
        assert(front.push(parts.last()) =~= parts);
    }
}

} // verus!
