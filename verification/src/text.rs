//! Plain text as sequences of characters: searching for a literal, replacing
//! it, and cutting a text in two.

use vstd::prelude::*;

verus! {

/// `needle` stands in `hay` starting at index `at`.
pub open spec fn occurs_at(hay: Seq<char>, needle: Seq<char>, at: int) -> bool {
    &&& 0 <= at
    &&& at + needle.len() <= hay.len()
    &&& hay.subrange(at, at + needle.len()) == needle
}

/// `needle` stands somewhere in `hay`.
pub open spec fn has_substring(hay: Seq<char>, needle: Seq<char>) -> bool {
    exists|at: int| occurs_at(hay, needle, at)
}

/// `hay` ends with `suffix`.
pub open spec fn has_suffix(hay: Seq<char>, suffix: Seq<char>) -> bool {
    suffix.len() <= hay.len() && occurs_at(hay, suffix, hay.len() - suffix.len())
}

/// The least index from `from` on at which `hay` holds `c`, or the length of
/// `hay` where it holds none.
pub open spec fn first_index_from(hay: Seq<char>, c: char, from: int) -> int
    decreases hay.len() - from,
{
    if from < 0 || from >= hay.len() {
        hay.len() as int
    } else if hay[from] == c {
        from
    } else {
        first_index_from(hay, c, from + 1)
    }
}

/// The index of the first `c` in `hay`, or the length of `hay` where it holds
/// none.
pub open spec fn first_index(hay: Seq<char>, c: char) -> int {
    first_index_from(hay, c, 0)
}

/// The number of characters of `hay` up to and including its last `c`, which
/// is 0 where it holds none, looking only at the first `upto` characters.
pub open spec fn after_last_upto(hay: Seq<char>, c: char, upto: int) -> int
    decreases upto,
{
    if upto <= 0 || upto > hay.len() {
        0
    } else if hay[upto - 1] == c {
        upto
    } else {
        after_last_upto(hay, c, upto - 1)
    }
}

/// What follows the last `c` in `hay`: the whole of `hay` where it holds none.
pub open spec fn last_segment(hay: Seq<char>, c: char) -> Seq<char> {
    hay.skip(after_last_upto(hay, c, hay.len() as int))
}

/// `hay` from index `from` on, with every occurrence of the non-empty
/// `needle` replaced by `with`, found from left to right and never
/// overlapping.
pub open spec fn replaced_from(
    hay: Seq<char>,
    needle: Seq<char>,
    with: Seq<char>,
    from: int,
) -> Seq<char>
    decreases hay.len() - from,
{
    if from < 0 || from >= hay.len() || needle.len() == 0 {
        Seq::empty()
    } else if occurs_at(hay, needle, from) {
        with + replaced_from(hay, needle, with, from + needle.len())
    } else {
        seq![hay[from]] + replaced_from(hay, needle, with, from + 1)
    }
}

/// `hay` with every occurrence of `needle` replaced by `with`, found from left
/// to right and never overlapping. An empty `needle` occurs nowhere.
pub open spec fn replaced(hay: Seq<char>, needle: Seq<char>, with: Seq<char>) -> Seq<char> {
    if needle.len() == 0 {
        hay
    } else {
        replaced_from(hay, needle, with, 0)
    }
}

/// Calls `String::push`. Trusted: the character is appended and nothing else
/// changes.
#[verifier::external_body]
fn push_char(s: &mut String, c: char)
    ensures
        final(s)@ == old(s)@.push(c),
{
    s.push(c)
}

/// The characters of `s`, in order.
pub fn chars_of(s: &str) -> (v: Vec<char>)
    ensures
        v@ == s@,
{
    let mut v: Vec<char> = Vec::new();
    for c in it: s.chars()
        invariant
            v@ == it.seq().take(it.index() as int),
    {
        v.push(c);
    }
    v
}

/// The text made of the characters of `v`, in order.
pub fn string_of(v: &Vec<char>) -> (s: String)
    ensures
        s@ == v@,
{
    let mut s = String::new();
    let mut i: usize = 0;
    while i < v.len()
        invariant
            i <= v.len(),
            s@ == v@.take(i as int),
        decreases v.len() - i,
    {
        push_char(&mut s, v[i]);
        i += 1;
    }
    s
}

/// Appends the characters of `tail` to `out`.
pub fn append(out: &mut Vec<char>, tail: &Vec<char>)
    ensures
        final(out)@ == old(out)@ + tail@,
{
    let mut k: usize = 0;
    while k < tail.len()
        invariant
            k <= tail.len(),
            out@ == old(out)@ + tail@.take(k as int),
        decreases tail.len() - k,
    {
        out.push(tail[k]);
        k += 1;
    }
}

/// The characters of `hay` from index `from` up to, not including, `to`.
pub fn slice(hay: &Vec<char>, from: usize, to: usize) -> (r: Vec<char>)
    requires
        from <= to <= hay.len(),
    ensures
        r@ == hay@.subrange(from as int, to as int),
{
    let mut r: Vec<char> = Vec::new();
    let mut k: usize = from;
    while k < to
        invariant
            from <= k <= to,
            to <= hay.len(),
            r@ == hay@.subrange(from as int, k as int),
        decreases to - k,
    {
        r.push(hay[k]);
        k += 1;
    }
    r
}

/// Tells whether `needle` stands in `hay` at index `at`.
pub fn matches_at(hay: &Vec<char>, needle: &Vec<char>, at: usize) -> (r: bool)
    ensures
        r == occurs_at(hay@, needle@, at as int),
{
    if needle.len() > hay.len() || at > hay.len() - needle.len() {
        return false;
    }
    let mut k: usize = 0;
    while k < needle.len()
        invariant
            k <= needle.len(),
            at + needle.len() <= hay.len(),
            forall|j: int| 0 <= j < k ==> hay@[at + j] == needle@[j],
        decreases needle.len() - k,
    {
        if hay[at + k] != needle[k] {
            assert(hay@.subrange(at as int, at + needle@.len())[k as int] == hay@[at + k]);
            return false;
        }
        k += 1;
    }
    assert(hay@.subrange(at as int, at + needle@.len()) =~= needle@);
    true
}

/// The first index from `from` on at which `needle` stands in `hay`.
pub fn find_from(hay: &Vec<char>, needle: &Vec<char>, from: usize) -> (r: Option<usize>)
    ensures
        match r {
            Some(at) => {
                &&& from <= at
                &&& occurs_at(hay@, needle@, at as int)
                &&& forall|j: int| from <= j < at ==> !occurs_at(hay@, needle@, j)
            },
            None => forall|j: int| from <= j ==> !occurs_at(hay@, needle@, j),
        },
{
    if needle.len() > hay.len() {
        return None;
    }
    let last: usize = hay.len() - needle.len();
    let mut i: usize = from;
    while i <= last
        invariant
            from <= i,
            last == hay.len() - needle.len(),
            forall|j: int| from <= j < i ==> !occurs_at(hay@, needle@, j),
        decreases last + 1 - i,
    {
        if matches_at(hay, needle, i) {
            return Some(i);
        }
        if i == last {
            return None;
        }
        i += 1;
    }
    None
}

/// Tells whether `needle` stands somewhere in `hay`.
pub fn contains(hay: &Vec<char>, needle: &Vec<char>) -> (r: bool)
    ensures
        r == has_substring(hay@, needle@),
{
    find_from(hay, needle, 0).is_some()
}

/// Tells whether `hay` ends with `suffix`.
pub fn ends_with(hay: &Vec<char>, suffix: &Vec<char>) -> (r: bool)
    ensures
        r == has_suffix(hay@, suffix@),
{
    suffix.len() <= hay.len() && matches_at(hay, suffix, hay.len() - suffix.len())
}

/// The index of the first `c` in `hay`.
pub fn position(hay: &Vec<char>, c: char) -> (r: Option<usize>)
    ensures
        match r {
            Some(at) => at < hay.len() && at == first_index(hay@, c),
            None => first_index(hay@, c) == hay.len(),
        },
{
    let mut i: usize = 0;
    while i < hay.len()
        invariant
            i <= hay.len(),
            first_index(hay@, c) == first_index_from(hay@, c, i as int),
        decreases hay.len() - i,
    {
        if hay[i] == c {
            return Some(i);
        }
        i += 1;
    }
    None
}

/// What follows the last `c` in `hay`.
pub fn after_last(hay: &Vec<char>, c: char) -> (r: Vec<char>)
    ensures
        r@ == last_segment(hay@, c),
{
    let mut upto: usize = hay.len();
    while upto > 0 && hay[upto - 1] != c
        invariant
            upto <= hay.len(),
            after_last_upto(hay@, c, hay.len() as int) == after_last_upto(hay@, c, upto as int),
        decreases upto,
    {
        upto -= 1;
    }
    slice(hay, upto, hay.len())
}

/// `hay` with every occurrence of `needle` replaced by `with`.
pub fn replace(hay: &Vec<char>, needle: &Vec<char>, with: &Vec<char>) -> (r: Vec<char>)
    ensures
        r@ == replaced(hay@, needle@, with@),
{
    if needle.len() == 0 {
        return slice(hay, 0, hay.len());
    }
    let mut out: Vec<char> = Vec::new();
    let mut i: usize = 0;
    while i < hay.len()
        invariant
            i <= hay.len(),
            needle.len() > 0,
            out@ + replaced_from(hay@, needle@, with@, i as int) == replaced_from(
                hay@,
                needle@,
                with@,
                0,
            ),
        decreases hay.len() - i,
    {
        let ghost before = out@;
        let ghost rest = replaced_from(hay@, needle@, with@, i as int);
        if matches_at(hay, needle, i) {
            append(&mut out, with);
            i += needle.len();
            assert(before + rest =~= out@ + replaced_from(hay@, needle@, with@, i as int));
        } else {
            out.push(hay[i]);
            i += 1;
            assert(before + rest =~= out@ + replaced_from(hay@, needle@, with@, i as int));
        }
    }
    assert(out@ + Seq::<char>::empty() =~= out@);
    out
}

/// The first index from `from` on lies in `hay` or at its end; it holds `c`
/// where it lies in `hay`, and no index between holds `c`.
pub proof fn lemma_first_index(hay: Seq<char>, c: char, from: int)
    requires
        0 <= from <= hay.len(),
    ensures
        from <= first_index_from(hay, c, from) <= hay.len(),
        first_index_from(hay, c, from) < hay.len() ==> hay[first_index_from(hay, c, from)] == c,
        forall|k: int| from <= k < first_index_from(hay, c, from) ==> hay[k] != c,
    decreases hay.len() - from,
{
    if from < hay.len() && hay[from] != c {
        lemma_first_index(hay, c, from + 1);
    }
}

/// Where `needle` stands in `hay`, `with` stands in what replacing gives.
pub proof fn lemma_replaced_holds_replacement(
    hay: Seq<char>,
    needle: Seq<char>,
    with: Seq<char>,
)
    requires
        needle.len() > 0,
        has_substring(hay, needle),
    ensures
        has_substring(replaced(hay, needle, with), with),
{
    let at = choose|at: int| occurs_at(hay, needle, at);
    lemma_replaced_from_holds_replacement(hay, needle, with, 0, at);
}

proof fn lemma_replaced_from_holds_replacement(
    hay: Seq<char>,
    needle: Seq<char>,
    with: Seq<char>,
    from: int,
    at: int,
)
    requires
        needle.len() > 0,
        0 <= from <= at,
        occurs_at(hay, needle, at),
    ensures
        has_substring(replaced_from(hay, needle, with, from), with),
    decreases hay.len() - from,
{
    let whole = replaced_from(hay, needle, with, from);
    if occurs_at(hay, needle, from) {
        assert(whole.subrange(0, with.len() as int) =~= with);
        assert(occurs_at(whole, with, 0));
    } else {
        let next = replaced_from(hay, needle, with, from + 1);
        lemma_replaced_from_holds_replacement(hay, needle, with, from + 1, at);
        let k = choose|k: int| occurs_at(next, with, k);
        assert(whole.subrange(k + 1, k + 1 + with.len()) =~= next.subrange(k, k + with.len()));
        assert(occurs_at(whole, with, k + 1));
    }
}

} // verus!
