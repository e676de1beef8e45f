//! Character-sequence helpers shared by the path and name logic.

use vstd::prelude::*;

verus! {

/// The elements of `parts` joined by `sep`.
pub open spec fn seq_join(parts: Seq<Seq<char>>, sep: Seq<char>) -> Seq<char>
    decreases parts.len(),
{
    if parts.len() == 0 {
        Seq::empty()
    } else if parts.len() == 1 {
        parts[0]
    } else {
        seq_join(parts.drop_last(), sep) + sep + parts.last()
    }
}

/// The views of a vector of strings.
pub open spec fn string_views(v: Seq<String>) -> Seq<Seq<char>> {
    v.map_values(|s: String| s@)
}

/// How many times `c` occurs in `s`.
pub open spec fn count_char(s: Seq<char>, c: char) -> nat
    decreases s.len(),
{
    if s.len() == 0 {
        0
    } else {
        count_char(s.drop_last(), c) + if s.last() == c {
            1nat
        } else {
            0nat
        }
    }
}

proof fn lemma_count_concat(a: Seq<char>, b: Seq<char>, c: char)
    ensures
        count_char(a + b, c) == count_char(a, c) + count_char(b, c),
    decreases b.len(),
{
    if b.len() == 0 {
        assert(a + b =~= a);
    } else {
        assert((a + b).drop_last() =~= a + b.drop_last());
        lemma_count_concat(a, b.drop_last(), c);
    }
}

proof fn lemma_count_absent(s: Seq<char>, c: char)
    requires
        !s.contains(c),
    ensures
        count_char(s, c) == 0,
    decreases s.len(),
{
    if s.len() > 0 {
        assert(!s.drop_last().contains(c)) by {
            if s.drop_last().contains(c) {
                let i = choose|i: int| 0 <= i < s.drop_last().len() && s.drop_last()[i] == c;
                assert(s[i] == c);
            }
        }
        lemma_count_absent(s.drop_last(), c);
        assert(s[s.len() - 1] != c);
    }
}

/// Joining non-empty names that hold no `/` gives a non-empty path that
/// neither starts nor ends with `/` and holds exactly one `/` between each
/// two names.
pub proof fn lemma_join_shape(parts: Seq<Seq<char>>)
    requires
        parts.len() > 0,
        forall|i: int|
            0 <= i < parts.len() ==> (#[trigger] parts[i]).len() > 0 && !parts[i].contains('/'),
    ensures
        seq_join(parts, seq!['/']).len() > 0,
        seq_join(parts, seq!['/'])[0] != '/',
        seq_join(parts, seq!['/']).last() != '/',
        count_char(seq_join(parts, seq!['/']), '/') == parts.len() - 1,
    decreases parts.len(),
{
    let j = seq_join(parts, seq!['/']);
    let last = parts.last();
    assert(last == parts[parts.len() - 1]);
    assert(last[last.len() - 1] != '/');
    if parts.len() == 1 {
        assert(parts[0][0] != '/');
        lemma_count_absent(parts[0], '/');
    } else {
        let p = parts.drop_last();
        assert forall|i: int| 0 <= i < p.len() implies (#[trigger] p[i]).len() > 0
            && !p[i].contains('/') by {
            assert(p[i] == parts[i]);
        }
        lemma_join_shape(p);
        let jp = seq_join(p, seq!['/']);
        assert(j == jp + seq!['/'] + last);
        assert(j[0] == jp[0]);
        lemma_count_concat(jp + seq!['/'], last, '/');
        lemma_count_concat(jp, seq!['/'], '/');
        lemma_count_absent(last, '/');
        assert(count_char(seq!['/'], '/') == 1) by {
            let one = seq!['/'];
            assert(one.len() == 1);
            assert(one.last() == '/');
            assert(one.drop_last() =~= Seq::<char>::empty());
            assert(count_char(one.drop_last(), '/') == 0);
        }
    }
}

/// Compares two string slices.
///
/// Calls `<str as PartialEq>::eq`; the contract claims that it returns
/// whether the two slices hold the same characters.
#[verifier::external_body]
pub(crate) fn str_eq(a: &str, b: &str) -> (r: bool)
    ensures
        r == (a@ == b@),
{
    a == b
}

/// Joins `parts` with `/`.
pub fn join_with_slash(parts: &Vec<String>) -> (r: String)
    ensures
        r@ == seq_join(string_views(parts@), seq!['/']),
{
    let mut r = String::new();
    let ghost views = string_views(parts@);
    let n = parts.len();
    let mut i: usize = 0;
    proof {
        reveal_strlit("/");
    }
    while i < n
        invariant
            n == parts@.len(),
            views == string_views(parts@),
            i <= n,
            r@ == seq_join(views.take(i as int), seq!['/']),
            "/"@ == seq!['/'],
        decreases n - i,
    {
        if i != 0 {
            r.append("/");
        }
        r.append(parts[i].as_str());
        proof {
            assert(views.take((i + 1) as int).drop_last() =~= views.take(i as int));
            if i == 0 {
                assert(views.take(1) =~= seq![views[0]]);
            }
        }
        i = i + 1;
    }
    proof {
        assert(views.take(n as int) =~= views);
    }
    r
}

} // verus!
