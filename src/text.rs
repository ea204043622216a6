//! Splitting text into pieces, as `str::split` does, with exact contracts.
use vstd::prelude::*;
use vstd::string::*;

verus! {

/// The pieces of `s` between the occurrences of `c`, in order; `n`
/// occurrences give `n + 1` pieces, empty ones included.
pub open spec fn split_on_char(s: Seq<char>, c: char) -> Seq<Seq<char>>
    decreases s.len(),
{
    if s.len() == 0 {
        seq![Seq::empty()]
    } else {
        let init = split_on_char(s.drop_last(), c);
        if s.last() == c {
            init.push(Seq::empty())
        } else {
            init.update(init.len() - 1, init.last().push(s.last()))
        }
    }
}

/// Whether the two characters `-` and `>` end `s`.
pub open spec fn ends_with_arrow(s: Seq<char>) -> bool {
    s.len() >= 2 && s[s.len() - 2] == '-' && s[s.len() - 1] == '>'
}

/// The pieces of `s` between the occurrences of the separator `->`. The
/// separator cannot overlap itself, so its occurrences are the same whether
/// they are searched from the front or from the back.
pub open spec fn split_on_arrow(s: Seq<char>) -> Seq<Seq<char>>
    decreases s.len(),
{
    if s.len() == 0 {
        seq![Seq::empty()]
    } else if ends_with_arrow(s) {
        split_on_arrow(s.take(s.len() - 2)).push(Seq::empty())
    } else {
        let init = split_on_arrow(s.drop_last());
        init.update(init.len() - 1, init.last().push(s.last()))
    }
}

pub proof fn lemma_split_on_char_len(s: Seq<char>, c: char)
    ensures
        split_on_char(s, c).len() >= 1,
    decreases s.len(),
{
    if s.len() > 0 {
        lemma_split_on_char_len(s.drop_last(), c);
    }
}

/// No piece of a split holds the separator.
pub proof fn lemma_split_on_char_pieces(s: Seq<char>, c: char)
    ensures
        forall|i: int|
            0 <= i < split_on_char(s, c).len() ==> !(#[trigger] split_on_char(s, c)[i]).contains(c),
    decreases s.len(),
{
    if s.len() > 0 {
        lemma_split_on_char_pieces(s.drop_last(), c);
        lemma_split_on_char_len(s.drop_last(), c);
        let init = split_on_char(s.drop_last(), c);
        if s.last() != c {
            let last = init.last().push(s.last());
            assert forall|j: int| 0 <= j < last.len() implies last[j] != c by {
                if j < init.last().len() {
                    assert(!init[init.len() - 1].contains(c));
                    assert(last[j] == init.last()[j]);
                }
            }
        }
    }
}

/// The views of a sequence of strings.
pub open spec fn views(v: Seq<String>) -> Seq<Seq<char>> {
    v.map_values(|p: String| p@)
}

/// Splits `s` at each occurrence of `c`.
pub fn split_char(s: &str, c: char) -> (r: Vec<String>)
    ensures
        views(r@) == split_on_char(s@, c),
{
    let n = s.unicode_len();
    let mut parts: Vec<String> = Vec::new();
    let mut start: usize = 0;
    let mut i: usize = 0;
    proof {
        assert(views(parts@) =~= Seq::<Seq<char>>::empty());
        assert(s@.subrange(0, 0) =~= Seq::<char>::empty());
        assert(views(parts@).push(s@.subrange(0, 0)) =~= seq![Seq::<char>::empty()]);
        assert(s@.take(0) =~= Seq::<char>::empty());
    }
    while i < n
        invariant
            n == s@.len(),
            start <= i <= n,
            views(parts@).push(s@.subrange(start as int, i as int)) == split_on_char(
                s@.take(i as int),
                c,
            ),
        decreases n - i,
    {
        let ch = s.get_char(i);
        proof {
            assert(s@.take(i + 1).drop_last() =~= s@.take(i as int));
            assert(s@.subrange(start as int, i + 1) =~= s@.subrange(start as int, i as int).push(
                ch,
            ));
        }
        if ch == c {
            let piece = String::from_str(s.substring_char(start, i));
            proof {
                assert(views(parts@.push(piece)) =~= views(parts@).push(piece@));
                assert(s@.subrange(i + 1, i + 1) =~= Seq::<char>::empty());
            }
            parts.push(piece);
            start = i + 1;
        } else {
            proof {
                let init = views(parts@).push(s@.subrange(start as int, i as int));
                assert(init.update(init.len() - 1, init.last().push(ch)) =~= views(parts@).push(
                    s@.subrange(start as int, i + 1),
                ));
            }
        }
        i = i + 1;
    }
    let piece = String::from_str(s.substring_char(start, n));
    proof {
        assert(s@.take(n as int) =~= s@);
        assert(views(parts@.push(piece)) =~= views(parts@).push(piece@));
    }
    parts.push(piece);
    parts
}

/// Splits `s` at each occurrence of `->`.
pub fn split_arrow(s: &str) -> (r: Vec<String>)
    ensures
        views(r@) == split_on_arrow(s@),
{
    let n = s.unicode_len();
    let mut parts: Vec<String> = Vec::new();
    let mut start: usize = 0;
    let mut i: usize = 0;
    proof {
        assert(views(parts@) =~= Seq::<Seq<char>>::empty());
        assert(s@.subrange(0, 0) =~= Seq::<char>::empty());
        assert(views(parts@).push(s@.subrange(0, 0)) =~= seq![Seq::<char>::empty()]);
        assert(s@.take(0) =~= Seq::<char>::empty());
    }
    while i < n
        invariant
            n == s@.len(),
            start <= i <= n,
            0 < i < n ==> !(s@[i - 1] == '-' && s@[i as int] == '>'),
            views(parts@).push(s@.subrange(start as int, i as int)) == split_on_arrow(
                s@.take(i as int),
            ),
        decreases n - i,
    {
        let ch = s.get_char(i);
        if ch == '-' && i + 1 < n && s.get_char(i + 1) == '>' {
            let piece = String::from_str(s.substring_char(start, i));
            proof {
                let t = s@.take(i + 2);
                assert(ends_with_arrow(t));
                assert(t.take(t.len() - 2) =~= s@.take(i as int));
                assert(views(parts@.push(piece)) =~= views(parts@).push(piece@));
                assert(s@.subrange(i + 2, i + 2) =~= Seq::<char>::empty());
            }
            parts.push(piece);
            start = i + 2;
            i = i + 2;
        } else {
            proof {
                let t = s@.take(i + 1);
                assert(!ends_with_arrow(t));
                assert(t.drop_last() =~= s@.take(i as int));
                assert(s@.subrange(start as int, i + 1) =~= s@.subrange(
                    start as int,
                    i as int,
                ).push(ch));
                let init = views(parts@).push(s@.subrange(start as int, i as int));
                assert(init.update(init.len() - 1, init.last().push(ch)) =~= views(parts@).push(
                    s@.subrange(start as int, i + 1),
                ));
            }
            i = i + 1;
        }
    }
    let piece = String::from_str(s.substring_char(start, n));
    proof {
        assert(s@.take(n as int) =~= s@);
        assert(views(parts@.push(piece)) =~= views(parts@).push(piece@));
    }
    parts.push(piece);
    parts
}

/// Whether two strings hold the same characters.
pub fn same_text(a: &str, b: &str) -> (r: bool)
    ensures
        r == (a@ == b@),
{
    let n = a.unicode_len();
    if n != b.unicode_len() {
        return false;
    }
    let mut i: usize = 0;
    while i < n
        invariant
            n == a@.len() == b@.len(),
            i <= n,
            a@.take(i as int) == b@.take(i as int),
        decreases n - i,
    {
        if a.get_char(i) != b.get_char(i) {
            return false;
        }
        proof {
            assert(a@.take(i + 1) =~= a@.take(i as int).push(a@[i as int]));
            assert(b@.take(i + 1) =~= b@.take(i as int).push(b@[i as int]));
        }
        i = i + 1;
    }
    proof {
        assert(a@.take(n as int) =~= a@);
        assert(b@.take(n as int) =~= b@);
    }
    true
}

} // verus!
