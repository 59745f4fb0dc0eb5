//! Character-level helpers on strings: splitting, prefixes, comparison.
use vstd::prelude::*;

verus! {

/// The pieces of `s` between occurrences of `sep`, read left to right:
/// splitting `"a.b"` at `.` gives `["a", "b"]`, `""` gives `[""]` and `"a."`
/// gives `["a", ""]`.
pub open spec fn split_on(s: Seq<char>, sep: char) -> Seq<Seq<char>>
    decreases s.len(),
{
    if s.len() == 0 {
        seq![Seq::<char>::empty()]
    } else {
        let init = split_on(s.drop_last(), sep);
        if s.last() == sep {
            init.push(Seq::<char>::empty())
        } else {
            init.update(init.len() - 1, init.last().push(s.last()))
        }
    }
}

pub open spec fn strings_view(v: Seq<String>) -> Seq<Seq<char>> {
    v.map_values(|s: String| s@)
}

pub open spec fn strs_view(v: Seq<&str>) -> Seq<Seq<char>> {
    v.map_values(|s: &str| s@)
}

pub proof fn lemma_split_nonempty(s: Seq<char>, sep: char)
    ensures
        split_on(s, sep).len() >= 1,
    decreases s.len(),
{
    if s.len() > 0 {
        lemma_split_nonempty(s.drop_last(), sep);
    }
}

/// Splits `s` at every occurrence of `sep`.
pub fn split(s: &str, sep: char) -> (r: Vec<String>)
    ensures
        strings_view(r@) == split_on(s@, sep),
{
    let n = s.unicode_len();
    let mut done: Vec<String> = Vec::new();
    let mut start: usize = 0;
    let mut i: usize = 0;
    assert(s@.take(0) =~= Seq::<char>::empty());
    assert(strings_view(done@).push(s@.subrange(0, 0)) =~= split_on(s@.take(0), sep));
    while i < n
        invariant
            n == s@.len(),
            start <= i <= n,
            strings_view(done@).push(s@.subrange(start as int, i as int)) == split_on(
                s@.take(i as int),
                sep,
            ),
        decreases n - i,
    {
        let c = s.get_char(i);
        let ghost prev = split_on(s@.take(i as int), sep);
        let ghost before = strings_view(done@);
        proof {
            lemma_split_nonempty(s@.take(i as int), sep);
            assert(s@.take(i + 1).drop_last() =~= s@.take(i as int));
            assert(s@.take(i + 1).last() == c);
            assert(s@.subrange(start as int, i + 1) =~= s@.subrange(start as int, i as int).push(c));
            if c == sep {
                assert(split_on(s@.take(i + 1), sep) == prev.push(Seq::<char>::empty()));
            } else {
                assert(split_on(s@.take(i + 1), sep) == prev.update(
                    prev.len() - 1,
                    prev.last().push(c),
                ));
                assert(prev.update(prev.len() - 1, prev.last().push(c)) =~= before.push(
                    s@.subrange(start as int, i + 1),
                ));
            }
        }
        if c == sep {
            let piece = String::from_str(s.substring_char(start, i));
            proof {
                assert(strings_view(done@.push(piece)) =~= strings_view(done@).push(piece@));
            }
            done.push(piece);
            start = i + 1;
        }
        i = i + 1;
        if c == sep {
            assert(s@.subrange(start as int, i as int) =~= Seq::<char>::empty());
        }
        assert(strings_view(done@).push(s@.subrange(start as int, i as int)) =~= split_on(
            s@.take(i as int),
            sep,
        ));
    }
    assert(s@.take(n as int) == s@);
    let last = String::from_str(s.substring_char(start, n));
    proof {
        assert(strings_view(done@.push(last)) =~= strings_view(done@).push(last@));
    }
    done.push(last);
    done
}

/// Converts each borrowed string into an owned one.
pub fn to_strings(items: &Vec<&str>) -> (r: Vec<String>)
    ensures
        strings_view(r@) == strs_view(items@),
{
    let mut r: Vec<String> = Vec::new();
    let mut i: usize = 0;
    while i < items.len()
        invariant
            i <= items.len(),
            strings_view(r@) == strs_view(items@.take(i as int)),
        decreases items.len() - i,
    {
        let item = String::from_str(items[i]);
        proof {
            assert(items@.take(i + 1) =~= items@.take(i as int).push(items@[i as int]));
            assert(strs_view(items@.take(i + 1)) =~= strs_view(items@.take(i as int)).push(item@));
            assert(strings_view(r@.push(item)) =~= strings_view(r@).push(item@));
        }
        r.push(item);
        i = i + 1;
    }
    assert(items@.take(i as int) =~= items@);
    r
}

/// Whether two texts hold the same characters.
pub fn same_text(a: &str, b: &str) -> (r: bool)
    ensures
        r == (a@ == b@),
{
    String::from_str(a) == String::from_str(b)
}

/// Whether `s` begins with `prefix`.
pub fn starts_with(s: &str, prefix: &str) -> (r: bool)
    ensures
        r == (prefix@.len() <= s@.len() && s@.take(prefix@.len() as int) == prefix@),
{
    let n = s.unicode_len();
    let m = prefix.unicode_len();
    if m > n {
        return false;
    }
    let mut i: usize = 0;
    while i < m
        invariant
            n == s@.len(),
            m == prefix@.len(),
            m <= n,
            i <= m,
            s@.take(i as int) == prefix@.take(i as int),
        decreases m - i,
    {
        if s.get_char(i) != prefix.get_char(i) {
            assert(s@.take(m as int)[i as int] != prefix@[i as int]);
            return false;
        }
        assert(s@.take(i + 1) =~= s@.take(i as int).push(s@[i as int]));
        assert(prefix@.take(i + 1) =~= prefix@.take(i as int).push(prefix@[i as int]));
        i = i + 1;
    }
    assert(prefix@.take(m as int) =~= prefix@);
    true
}

} // verus!
