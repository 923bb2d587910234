use vstd::prelude::*;

verus! {

/// Unicode white space: the characters that separate fields in reports.
pub open spec fn is_space(c: char) -> bool {
    ('\t' <= c && c <= '\r') || c == ' ' || c == '\u{85}' || c == '\u{A0}' || c == '\u{1680}'
        || ('\u{2000}' <= c && c <= '\u{200A}') || c == '\u{2028}' || c == '\u{2029}'
        || c == '\u{202F}' || c == '\u{205F}' || c == '\u{3000}'
}

/// The maximal runs of non-whitespace characters of `s`, in order.
pub open spec fn tokens(s: Seq<char>) -> Seq<Seq<char>>
    decreases s.len(),
{
    if s.len() == 0 {
        seq![]
    } else {
        let t = tokens(s.drop_last());
        let c = s.last();
        if is_space(c) {
            t
        } else if s.len() >= 2 && !is_space(s[s.len() - 2]) {
            t.update(t.len() - 1, t.last().push(c))
        } else {
            t.push(seq![c])
        }
    }
}

/// The pieces of `s` between occurrences of `sep`; there is always at least one.
pub open spec fn split_on(s: Seq<char>, sep: char) -> Seq<Seq<char>>
    decreases s.len(),
{
    if s.len() == 0 {
        seq![seq![]]
    } else {
        let p = split_on(s.drop_last(), sep);
        if s.last() == sep {
            p.push(seq![])
        } else {
            p.update(p.len() - 1, p.last().push(s.last()))
        }
    }
}

pub proof fn lemma_split_nonempty(s: Seq<char>, sep: char)
    ensures
        split_on(s, sep).len() >= 1,
    decreases s.len(),
{
    if s.len() > 0 {
        lemma_split_nonempty(s.drop_last(), sep);
    }
}

/// `part` occurs in `s` starting at index `i`.
pub open spec fn occurs_at(s: Seq<char>, part: Seq<char>, i: int) -> bool {
    0 <= i && i + part.len() <= s.len() && s.subrange(i, i + part.len()) == part
}

/// `part` occurs somewhere in `s`.
pub open spec fn contains(s: Seq<char>, part: Seq<char>) -> bool {
    exists|i: int| occurs_at(s, part, i)
}

/// Spans that cut `s` into exactly the pieces `pieces`.
pub open spec fn spans_give(s: Seq<char>, spans: Seq<(usize, usize)>, pieces: Seq<Seq<char>>) -> bool {
    &&& spans.len() == pieces.len()
    &&& forall|k: int| #![trigger spans[k]] 0 <= k < spans.len() ==> spans[k].0 <= spans[k].1 <= s.len()
    &&& forall|k: int|
        0 <= k < spans.len() ==> #[trigger] s.subrange(spans[k].0 as int, spans[k].1 as int)
            == pieces[k]
}

/// The characters of `s`, in order.
pub fn chars_of(s: &str) -> (r: Vec<char>)
    ensures
        r@ == s@,
{
    let mut r: Vec<char> = Vec::new();
    for c in it: s.chars()
        invariant
            r@ == it.seq().take(it.index() as int),
    {
        r.push(c);
    }
    assert(r@ =~= s@);
    r
}

/// Whether `c` is whitespace in the sense of `is_space`.
pub fn char_is_space(c: char) -> (r: bool)
    ensures
        r == is_space(c),
{
    ('\t' <= c && c <= '\r') || c == ' ' || c == '\u{85}' || c == '\u{A0}' || c == '\u{1680}'
        || ('\u{2000}' <= c && c <= '\u{200A}') || c == '\u{2028}' || c == '\u{2029}'
        || c == '\u{202F}' || c == '\u{205F}' || c == '\u{3000}'
}

/// The positions of the whitespace-separated tokens of `s`.
pub fn token_spans(s: &Vec<char>) -> (r: Vec<(usize, usize)>)
    ensures
        spans_give(s@, r@, tokens(s@)),
{
    let n = s.len();
    let mut r: Vec<(usize, usize)> = Vec::new();
    let mut start: usize = 0;
    let mut in_word = false;
    let mut i: usize = 0;
    while i < n
        invariant
            n == s.len(),
            i <= n,
            start <= i,
            in_word ==> i > 0 && !is_space(s@[i - 1]),
            !in_word ==> (i == 0 || is_space(s@[i - 1])),
            tokens(s@.take(i as int)).len() == r.len() + (if in_word { 1int } else { 0 }),
            forall|k: int| #![trigger r[k]] 0 <= k < r.len() ==> r[k].0 <= r[k].1 <= i,
            forall|k: int|
                0 <= k < r.len() ==> #[trigger] s@.subrange(r[k].0 as int, r[k].1 as int)
                    == tokens(s@.take(i as int))[k],
            in_word ==> tokens(s@.take(i as int)).last() == s@.subrange(start as int, i as int),
        decreases n - i,
    {
        let c = s[i];
        let ghost cur = s@.take(i + 1);
        let ghost t_old = tokens(s@.take(i as int));
        let ghost r_old = r@;
        assert(cur.drop_last() =~= s@.take(i as int));
        assert(cur.last() == c);
        assert(i >= 1 ==> cur[i - 1] == s@[i - 1]);
        if char_is_space(c) {
            assert(tokens(cur) == t_old);
            if in_word {
                r.push((start, i));
                in_word = false;
                assert(forall|k: int| 0 <= k < r_old.len() ==> r@[k] == r_old[k]);
                assert forall|k: int| #![trigger r[k]] 0 <= k < r.len() implies r[k].0 <= r[k].1 <= i by {
                    if k < r_old.len() {
                        assert(r_old[k].0 <= r_old[k].1 <= i);
                    }
                }
            }
        } else if in_word {
            assert(s@.subrange(start as int, i + 1) =~= s@.subrange(start as int, i as int).push(c));
            assert(tokens(cur) == t_old.update(t_old.len() - 1, t_old.last().push(c)));
        } else {
            start = i;
            in_word = true;
            assert(s@.subrange(i as int, i + 1) =~= seq![c]);
            assert(tokens(cur) == t_old.push(seq![c]));
        }
        i = i + 1;
        proof {
            let t = tokens(s@.take(i as int));
            assert(cur == s@.take(i as int));
            assert(t.len() == r.len() + (if in_word { 1int } else { 0 }));
            assert(forall|k: int| #![trigger r[k]] 0 <= k < r.len() ==> r[k].0 <= r[k].1 <= i);
            assert(forall|k: int|
                0 <= k < r.len() ==> #[trigger] s@.subrange(r[k].0 as int, r[k].1 as int) == t[k]);
        }
    }
    if in_word {
        r.push((start, n));
    }
    assert(s@.take(n as int) =~= s@);
    r
}

/// The positions of the pieces of `s` between occurrences of `sep`.
pub fn split_spans(s: &Vec<char>, sep: char) -> (r: Vec<(usize, usize)>)
    ensures
        spans_give(s@, r@, split_on(s@, sep)),
{
    let n = s.len();
    let mut r: Vec<(usize, usize)> = Vec::new();
    let mut start: usize = 0;
    let mut i: usize = 0;
    assert(s@.subrange(0, 0) =~= Seq::<char>::empty());
    while i < n
        invariant
            n == s.len(),
            i <= n,
            start <= i,
            ({
                let p = split_on(s@.take(i as int), sep);
                &&& p.len() == r.len() + 1
                &&& forall|k: int| #![trigger r[k]] 0 <= k < r.len() ==> r[k].0 <= r[k].1 <= i
                &&& forall|k: int|
                    0 <= k < r.len() ==> #[trigger] s@.subrange(r[k].0 as int, r[k].1 as int)
                        == p[k]
                &&& p.last() == s@.subrange(start as int, i as int)
            }),
        decreases n - i,
    {
        let c = s[i];
        let ghost cur = s@.take(i + 1);
        let ghost p_old = split_on(s@.take(i as int), sep);
        let ghost r_old = r@;
        assert(cur.drop_last() =~= s@.take(i as int));
        assert(cur.last() == c);
        if c == sep {
            r.push((start, i));
            assert(forall|k: int| 0 <= k < r_old.len() ==> r@[k] == r_old[k]);
            assert(split_on(cur, sep) == p_old.push(seq![]));
            assert(s@.subrange(r@[r_old.len() as int].0 as int, r@[r_old.len() as int].1 as int)
                == split_on(cur, sep)[r_old.len() as int]);
            start = i + 1;
            assert(s@.subrange(start as int, start as int) =~= Seq::<char>::empty());
        } else {
            assert(s@.subrange(start as int, i + 1) =~= s@.subrange(start as int, i as int).push(c));
            assert(split_on(cur, sep) == p_old.update(p_old.len() - 1, p_old.last().push(c)));
            assert(forall|k: int| 0 <= k < r.len() ==> split_on(cur, sep)[k] == p_old[k]);
        }
        i = i + 1;
        proof {
            let p = split_on(s@.take(i as int), sep);
            assert(cur == s@.take(i as int));
            assert(p.len() == r.len() + 1);
            assert(forall|k: int| #![trigger r[k]] 0 <= k < r.len() ==> r[k].0 <= r[k].1 <= i);
            assert(forall|k: int|
                0 <= k < r.len() ==> #[trigger] s@.subrange(r[k].0 as int, r[k].1 as int) == p[k]);
            assert(p.last() == s@.subrange(start as int, i as int));
        }
    }
    r.push((start, n));
    assert(s@.take(n as int) =~= s@);
    r
}

/// Whether `part` occurs in `s`.
pub fn contains_chars(s: &Vec<char>, part: &Vec<char>) -> (r: bool)
    ensures
        r == contains(s@, part@),
{
    let n = s.len();
    let m = part.len();
    if m > n {
        return false;
    }
    let mut i: usize = 0;
    while i <= n - m
        invariant
            n == s.len(),
            m == part.len(),
            m <= n,
            i <= n - m + 1,
            forall|j: int| 0 <= j < i ==> !occurs_at(s@, part@, j),
        decreases n - m + 1 - i,
    {
        let mut k: usize = 0;
        let mut same = true;
        while k < m
            invariant
                n == s.len(),
                m == part.len(),
                i + m <= n,
                k <= m,
                same == (forall|q: int| 0 <= q < k ==> s@[i + q] == part@[q]),
            decreases m - k,
        {
            if s[i + k] != part[k] {
                same = false;
            }
            k = k + 1;
        }
        if same {
            assert(s@.subrange(i as int, i + m) =~= part@);
            assert(occurs_at(s@, part@, i as int));
            return true;
        }
        assert(!occurs_at(s@, part@, i as int)) by {
            let q = choose|q: int| 0 <= q < m && s@[i + q] != part@[q];
            assert(s@.subrange(i as int, i + m)[q] == s@[i + q]);
        }
        i = i + 1;
    }
    assert forall|j: int| !occurs_at(s@, part@, j) by {
        if 0 <= j && j + m <= n {
            assert(j < i);
        }
    }
    false
}

/// `s` begins with `prefix`.
pub open spec fn starts_with(s: Seq<char>, prefix: Seq<char>) -> bool {
    prefix.len() <= s.len() && s.take(prefix.len() as int) == prefix
}

/// Whether `s` begins with `prefix`.
pub fn starts_with_chars(s: &Vec<char>, prefix: &Vec<char>) -> (r: bool)
    ensures
        r == starts_with(s@, prefix@),
{
    if prefix.len() > s.len() {
        return false;
    }
    let mut k: usize = 0;
    while k < prefix.len()
        invariant
            prefix.len() <= s.len(),
            k <= prefix.len(),
            forall|q: int| 0 <= q < k ==> s@[q] == prefix@[q],
        decreases prefix.len() - k,
    {
        if s[k] != prefix[k] {
            assert(s@.take(prefix.len() as int)[k as int] == s@[k as int]);
            return false;
        }
        k = k + 1;
    }
    assert(s@.take(prefix.len() as int) =~= prefix@);
    true
}

/// A copy of `s[lo..hi]`.
pub fn slice_chars(s: &Vec<char>, lo: usize, hi: usize) -> (r: Vec<char>)
    requires
        lo <= hi <= s.len(),
    ensures
        r@ == s@.subrange(lo as int, hi as int),
{
    let mut r: Vec<char> = Vec::new();
    let mut k = lo;
    while k < hi
        invariant
            lo <= k <= hi <= s.len(),
            r@ == s@.subrange(lo as int, k as int),
        decreases hi - k,
    {
        r.push(s[k]);
        k = k + 1;
        assert(r@ =~= s@.subrange(lo as int, k as int));
    }
    r
}

/// A copy of the characters of `s` from `lo` up to `hi`.
pub fn substring(s: &str, lo: usize, hi: usize) -> (r: String)
    requires
        lo <= hi <= s@.len(),
    ensures
        r@ == s@.subrange(lo as int, hi as int),
{
    String::from_str(s.substring_char(lo, hi))
}

} // verus!
