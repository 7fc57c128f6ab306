use vstd::prelude::*;
use vstd::string::StrSliceExecFns;
use vstd::string::StringExecFns;

verus! {

/// `parts` glued together with `sep` between neighbours.
pub open spec fn join_with(parts: Seq<Seq<char>>, sep: char) -> Seq<char>
    decreases parts.len(),
{
    if parts.len() == 0 {
        Seq::empty()
    } else if parts.len() == 1 {
        parts[0]
    } else {
        join_with(parts.drop_last(), sep) + seq![sep] + parts.last()
    }
}

/// `s` holds no `c`.
pub open spec fn free_of(s: Seq<char>, c: char) -> bool {
    forall|i: int| 0 <= i < s.len() ==> s[i] != c
}

/// The pieces of `s` between its commas, as `str::split(',')` gives them:
/// never empty, no piece holds a comma, and joining them with commas gives
/// `s` back.
pub open spec fn is_comma_split(s: Seq<char>, parts: Seq<Seq<char>>) -> bool {
    &&& parts.len() >= 1
    &&& join_with(parts, ',') == s
    &&& forall|i: int| 0 <= i < parts.len() ==> free_of(#[trigger] parts[i], ',')
}

proof fn lemma_join_push(parts: Seq<Seq<char>>, last: Seq<char>, sep: char)
    requires
        parts.len() >= 1,
    ensures
        join_with(parts.push(last), sep) == join_with(parts, sep) + seq![sep] + last,
{
    assert(parts.push(last).drop_last() =~= parts);
}

proof fn lemma_join_extend_last(parts: Seq<Seq<char>>, last: Seq<char>, c: char, sep: char)
    ensures
        join_with(parts.push(last.push(c)), sep) == join_with(parts.push(last), sep).push(c),
{
    if parts.len() == 0 {
        assert(parts.push(last.push(c))[0] == last.push(c));
        assert(parts.push(last)[0] == last);
    } else {
        lemma_join_push(parts, last.push(c), sep);
        lemma_join_push(parts, last, sep);
        assert(join_with(parts, sep) + seq![sep] + last.push(c) =~= (join_with(parts, sep)
            + seq![sep] + last).push(c));
    }
}

/// Splits `s` at every comma, as `str::split(',')` does.
pub fn split_commas(s: &str) -> (parts: Vec<String>)
    ensures
        is_comma_split(s@, parts.deep_view()),
{
    let n = s.unicode_len();
    let mut parts: Vec<String> = Vec::new();
    let mut start: usize = 0;
    let mut i: usize = 0;
    while i < n
        invariant
            n == s@.len(),
            start <= i <= n,
            join_with(parts.deep_view().push(s@.subrange(start as int, i as int)), ',')
                == s@.subrange(0, i as int),
            forall|j: int| 0 <= j < parts.len() ==> free_of(#[trigger] parts.deep_view()[j], ','),
            free_of(s@.subrange(start as int, i as int), ','),
        decreases n - i,
    {
        let c = s.get_char(i);
        let ghost before = parts.deep_view();
        if c == ',' {
            let part = String::from_str(s.substring_char(start, i));
            parts.push(part);
            proof {
                assert(parts.deep_view() =~= before.push(s@.subrange(start as int, i as int)));
                lemma_join_push(parts.deep_view(), Seq::empty(), ',');
                assert(s@.subrange(i + 1, i + 1) =~= Seq::<char>::empty());
                assert(s@.subrange(0, i + 1) =~= s@.subrange(0, i as int) + seq![','] + Seq::<
                    char,
                >::empty());
            }
            start = i + 1;
        } else {
            proof {
                lemma_join_extend_last(before, s@.subrange(start as int, i as int), c, ',');
                assert(s@.subrange(start as int, i + 1) =~= s@.subrange(start as int, i as int).push(c));
                assert(s@.subrange(0, i + 1) =~= s@.subrange(0, i as int).push(c));
            }
        }
        i += 1;
    }
    let ghost before = parts.deep_view();
    let last = String::from_str(s.substring_char(start, n));
    parts.push(last);
    proof {
        assert(parts.deep_view() =~= before.push(s@.subrange(start as int, n as int)));
        assert(s@.subrange(0, n as int) =~= s@);
    }
    parts
}

} // verus!

verus! {

/// Whether two strings hold the same characters.
pub fn same_text(a: &str, b: &str) -> (r: bool)
    ensures
        r == (a@ == b@),
{
    let n = a.unicode_len();
    let m = b.unicode_len();
    if n != m {
        return false;
    }
    let mut i: usize = 0;
    while i < n
        invariant
            n == a@.len(),
            m == b@.len(),
            n == m,
            i <= n,
            a@.subrange(0, i as int) == b@.subrange(0, i as int),
        decreases n - i,
    {
        if a.get_char(i) != b.get_char(i) {
            assert(a@[i as int] != b@[i as int]);
            return false;
        }
        assert(a@.subrange(0, i + 1) =~= a@.subrange(0, i as int).push(a@[i as int]));
        assert(b@.subrange(0, i + 1) =~= b@.subrange(0, i as int).push(b@[i as int]));
        i += 1;
    }
    assert(a@ =~= a@.subrange(0, n as int));
    assert(b@ =~= b@.subrange(0, n as int));
    true
}

/// A comma split of `s` with more than one piece ends with the text after
/// the last comma of `s`.
proof fn lemma_split_last(s: Seq<char>, parts: Seq<Seq<char>>)
    requires
        is_comma_split(s, parts),
        parts.len() > 1,
    ensures
        s == join_with(parts.drop_last(), ',') + seq![','] + parts.last(),
        is_comma_split(join_with(parts.drop_last(), ','), parts.drop_last()),
        free_of(parts.last(), ','),
{
    assert(parts.last() == parts[parts.len() - 1]);
    assert forall|i: int| 0 <= i < parts.drop_last().len() implies free_of(
        #[trigger] parts.drop_last()[i],
        ',',
    ) by {
        assert(parts.drop_last()[i] == parts[i]);
    }
}

/// Splitting a text at its commas has one outcome only: the pieces are
/// determined by the text. So [`split_commas`] undoes joining comma-free
/// pieces with commas.
pub proof fn lemma_comma_split_unique(s: Seq<char>, p1: Seq<Seq<char>>, p2: Seq<Seq<char>>)
    requires
        is_comma_split(s, p1),
        is_comma_split(s, p2),
    ensures
        p1 == p2,
    decreases p1.len(),
{
    if p1.len() == 1 && p2.len() == 1 {
        assert(p1 =~= p2);
    } else if p1.len() == 1 {
        lemma_split_last(s, p2);
        let j = join_with(p2.drop_last(), ',');
        assert(s[j.len() as int] == ',');
        assert(free_of(p1[0], ','));
        assert(false);
    } else if p2.len() == 1 {
        lemma_split_last(s, p1);
        let j = join_with(p1.drop_last(), ',');
        assert(s[j.len() as int] == ',');
        assert(free_of(p2[0], ','));
        assert(false);
    } else {
        lemma_split_last(s, p1);
        lemma_split_last(s, p2);
        let j1 = join_with(p1.drop_last(), ',');
        let j2 = join_with(p2.drop_last(), ',');
        let l1 = p1.last();
        let l2 = p2.last();
        assert(s.len() == j1.len() + 1 + l1.len());
        assert(s.len() == j2.len() + 1 + l2.len());
        if l1.len() < l2.len() {
            assert(s[j1.len() as int] == ',');
            assert(j1.len() > j2.len());
            let k = j1.len() - j2.len() - 1;
            assert(0 <= k < l2.len());
            assert((j2 + seq![','] + l2)[j1.len() as int] == l2[k]);
            assert(l2[k] == s[j1.len() as int]);
            assert(false);
        } else if l2.len() < l1.len() {
            assert(s[j2.len() as int] == ',');
            assert(j2.len() > j1.len());
            let k = j2.len() - j1.len() - 1;
            assert(0 <= k < l1.len());
            assert((j1 + seq![','] + l1)[j2.len() as int] == l1[k]);
            assert(l1[k] == s[j2.len() as int]);
            assert(false);
        }
        assert(j1.len() == j2.len());
        assert(j1 =~= s.subrange(0, j1.len() as int));
        assert(j2 =~= s.subrange(0, j2.len() as int));
        assert(l1 =~= s.subrange((j1.len() + 1) as int, s.len() as int));
        assert(l2 =~= s.subrange((j2.len() + 1) as int, s.len() as int));
        lemma_comma_split_unique(j1, p1.drop_last(), p2.drop_last());
        assert(p1 =~= p2.drop_last().push(l2));
        assert(p2 =~= p2.drop_last().push(l2));
    }
}

} // verus!
