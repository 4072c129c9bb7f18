//! The order of names, which is the order of their bytes in UTF-8, and a
//! stable sort by name.

use vstd::prelude::*;
use vstd::utf8::{decode_utf8, encode_utf8, encode_utf8_decode_utf8};

verus! {

/// `a` from index `from` on comes before `b` from that index on, or equals
/// it, byte by byte; a text comes before those that it begins.
pub open spec fn bytes_le_from(a: Seq<u8>, b: Seq<u8>, from: int) -> bool
    decreases a.len() - from,
{
    if from < 0 || from >= a.len() {
        true
    } else if from >= b.len() {
        false
    } else if a[from] != b[from] {
        a[from] < b[from]
    } else {
        bytes_le_from(a, b, from + 1)
    }
}

/// The order of texts: that of their bytes in UTF-8, compared from the left.
pub open spec fn text_le(a: Seq<char>, b: Seq<char>) -> bool {
    bytes_le_from(encode_utf8(a), encode_utf8(b), 0)
}

/// Something that has a name to be sorted by.
pub trait Named {
    /// The name.
    spec fn name(&self) -> Seq<char>;

    /// The name, as text.
    fn name_text(&self) -> (r: &str)
        ensures
            r@ == self.name(),
    ;
}

/// The key by which named items are sorted: their name.
pub open spec fn by_name<T: Named>() -> spec_fn(T) -> Seq<char> {
    |item: T| item.name()
}

/// `s` is in the order of its keys.
pub open spec fn ordered_by<T>(s: Seq<T>, key: spec_fn(T) -> Seq<char>) -> bool {
    forall|i: int, j: int| 0 <= i < j < s.len() ==> text_le(#[trigger] key(s[i]), #[trigger] key(s[j]))
}

/// No two items of `s` have the same key.
pub open spec fn distinct_by<T>(s: Seq<T>, key: spec_fn(T) -> Seq<char>) -> bool {
    forall|i: int, j: int| 0 <= i < j < s.len() ==> #[trigger] key(s[i]) != #[trigger] key(s[j])
}

/// The least index from `from` on whose item's key `x`'s key does not come
/// after, or the length of `s` where there is none.
pub open spec fn insertion_point<T>(
    s: Seq<T>,
    key: spec_fn(T) -> Seq<char>,
    x: T,
    from: int,
) -> int
    decreases s.len() - from,
{
    if from < 0 || from >= s.len() {
        s.len() as int
    } else if text_le(key(x), key(s[from])) {
        from
    } else {
        insertion_point(s, key, x, from + 1)
    }
}

/// `s` with `x` put in before the first item whose key `x`'s key does not
/// come after.
pub open spec fn inserted<T>(s: Seq<T>, key: spec_fn(T) -> Seq<char>, x: T) -> Seq<T> {
    s.insert(insertion_point(s, key, x, 0), x)
}

/// `s` sorted by key; items of the same key keep their order.
pub open spec fn sorted_by<T>(s: Seq<T>, key: spec_fn(T) -> Seq<char>) -> Seq<T>
    decreases s.len(),
{
    if s.len() == 0 {
        s
    } else {
        inserted(sorted_by(s.drop_first(), key), key, s[0])
    }
}

/// Tells whether `a` does not come after `b`.
pub fn precedes(a: &str, b: &str) -> (r: bool)
    ensures
        r == text_le(a@, b@),
{
    let x = a.as_bytes();
    let y = b.as_bytes();
    let mut i: usize = 0;
    while i < x.len()
        invariant
            i <= x.len(),
            x@ == encode_utf8(a@),
            y@ == encode_utf8(b@),
            text_le(a@, b@) == bytes_le_from(x@, y@, i as int),
        decreases x.len() - i,
    {
        if i >= y.len() {
            return false;
        }
        if x[i] != y[i] {
            return x[i] < y[i];
        }
        i += 1;
    }
    true
}

/// Puts `x` into `items` before the first item whose name `x`'s name does not
/// come after.
pub fn insert_by_name<T: Named>(items: &mut Vec<T>, x: T)
    ensures
        final(items)@ == inserted(old(items)@, by_name::<T>(), x),
{
    let mut at: usize = 0;
    while at < items.len() && !precedes(x.name_text(), items[at].name_text())
        invariant
            at <= items.len(),
            items@ == old(items)@,
            insertion_point(items@, by_name::<T>(), x, 0) == insertion_point(
                items@,
                by_name::<T>(),
                x,
                at as int,
            ),
        decreases items.len() - at,
    {
        at += 1;
    }
    items.insert(at, x);
}

/// Sorts `items` by name; items of the same name keep their order.
pub fn sort_by_name<T: Named>(items: Vec<T>) -> (r: Vec<T>)
    ensures
        r@ == sorted_by(items@, by_name::<T>()),
{
    let mut items = items;
    let ghost all = items@;
    let mut out: Vec<T> = Vec::new();
    while items.len() > 0
        invariant
            items@ == all.take(items@.len() as int),
            items@.len() <= all.len(),
            out@ == sorted_by(all.skip(items@.len() as int), by_name::<T>()),
        decreases items.len(),
    {
        let ghost n = items@.len() as int;
        let x = items.pop().unwrap();
        proof {
            assert(x == all[n - 1]);
            assert(all.skip(n - 1).drop_first() =~= all.skip(n));
            assert(all.skip(n - 1)[0] == all[n - 1]);
            assert(items@ =~= all.take(n - 1));
        }
        insert_by_name(&mut out, x);
    }
    assert(all.skip(0) =~= all);
    out
}

/// Of two byte sequences, one does not come after the other.
pub proof fn lemma_bytes_le_total(a: Seq<u8>, b: Seq<u8>, from: int)
    ensures
        bytes_le_from(a, b, from) || bytes_le_from(b, a, from),
    decreases a.len() - from,
{
    if 0 <= from < a.len() && from < b.len() && a[from] == b[from] {
        lemma_bytes_le_total(a, b, from + 1);
    }
}

/// The order of byte sequences is transitive.
pub proof fn lemma_bytes_le_transitive(a: Seq<u8>, b: Seq<u8>, c: Seq<u8>, from: int)
    requires
        bytes_le_from(a, b, from),
        bytes_le_from(b, c, from),
    ensures
        bytes_le_from(a, c, from),
    decreases a.len() - from,
{
    if 0 <= from < a.len() && a[from] == b[from] && b[from] == c[from] {
        lemma_bytes_le_transitive(a, b, c, from + 1);
    }
}

/// Two byte sequences that agree up to `from`, and of which neither comes
/// after the other from there on, are equal.
pub proof fn lemma_bytes_le_antisymmetric(a: Seq<u8>, b: Seq<u8>, from: int)
    requires
        0 <= from,
        bytes_le_from(a, b, from),
        bytes_le_from(b, a, from),
        from <= a.len(),
        from <= b.len(),
        a.take(from) == b.take(from),
    ensures
        a == b,
    decreases a.len() - from,
{
    if from < a.len() {
        assert(a.take(from + 1) =~= a.take(from).push(a[from]));
        assert(b.take(from + 1) =~= b.take(from).push(b[from]));
        lemma_bytes_le_antisymmetric(a, b, from + 1);
    } else {
        assert(a.take(from) =~= a);
        assert(b.take(from) =~= b);
    }
}

/// Of two texts, one does not come after the other.
pub proof fn lemma_text_le_total(a: Seq<char>, b: Seq<char>)
    ensures
        text_le(a, b) || text_le(b, a),
{
    lemma_bytes_le_total(encode_utf8(a), encode_utf8(b), 0);
}

/// The order of texts is transitive.
pub proof fn lemma_text_le_transitive(a: Seq<char>, b: Seq<char>, c: Seq<char>)
    requires
        text_le(a, b),
        text_le(b, c),
    ensures
        text_le(a, c),
{
    lemma_bytes_le_transitive(encode_utf8(a), encode_utf8(b), encode_utf8(c), 0);
}

/// Two texts of which neither comes after the other are equal.
pub proof fn lemma_text_le_antisymmetric(a: Seq<char>, b: Seq<char>)
    requires
        text_le(a, b),
        text_le(b, a),
    ensures
        a == b,
{
    let x = encode_utf8(a);
    let y = encode_utf8(b);
    assert(x.take(0) =~= y.take(0));
    lemma_bytes_le_antisymmetric(x, y, 0);
    encode_utf8_decode_utf8(a);
    encode_utf8_decode_utf8(b);
    assert(decode_utf8(x) == a);
    assert(decode_utf8(y) == b);
}

/// The insertion point lies in the sequence, or at its end; the items before
/// it come strictly before `x`, the item at it does not.
pub proof fn lemma_insertion_point<T>(s: Seq<T>, key: spec_fn(T) -> Seq<char>, x: T, from: int)
    requires
        0 <= from <= s.len(),
    ensures
        from <= insertion_point(s, key, x, from) <= s.len(),
        forall|k: int|
            from <= k < insertion_point(s, key, x, from) ==> !text_le(key(x), #[trigger] key(s[k])),
        insertion_point(s, key, x, from) < s.len() ==> text_le(
            key(x),
            key(s[insertion_point(s, key, x, from)]),
        ),
    decreases s.len() - from,
{
    if from < s.len() && !text_le(key(x), key(s[from])) {
        lemma_insertion_point(s, key, x, from + 1);
    }
}

/// Putting an item into a sequence that is in order leaves it in order.
pub proof fn lemma_inserted_is_ordered<T>(s: Seq<T>, key: spec_fn(T) -> Seq<char>, x: T)
    requires
        ordered_by(s, key),
    ensures
        ordered_by(inserted(s, key, x), key),
{
    let at = insertion_point(s, key, x, 0);
    let r = inserted(s, key, x);
    lemma_insertion_point(s, key, x, 0);
    assert forall|i: int, j: int| 0 <= i < j < r.len() implies text_le(
        #[trigger] key(r[i]),
        #[trigger] key(r[j]),
    ) by {
        if j < at {
            assert(r[i] == s[i] && r[j] == s[j]);
        } else if j == at {
            assert(r[i] == s[i]);
            lemma_text_le_total(key(x), key(s[i]));
        } else if i < at {
            assert(r[i] == s[i] && r[j] == s[j - 1]);
        } else if i == at {
            assert(r[j] == s[j - 1]);
            if j - 1 > at {
                lemma_text_le_transitive(key(x), key(s[at]), key(s[j - 1]));
            }
        } else {
            assert(r[i] == s[i - 1] && r[j] == s[j - 1]);
        }
    }
}

/// What sorting gives is in the order of its keys.
pub proof fn lemma_sorted_is_ordered<T>(s: Seq<T>, key: spec_fn(T) -> Seq<char>)
    ensures
        ordered_by(sorted_by(s, key), key),
    decreases s.len(),
{
    if s.len() > 0 {
        lemma_sorted_is_ordered(s.drop_first(), key);
        lemma_inserted_is_ordered(sorted_by(s.drop_first(), key), key, s[0]);
    }
}

/// Sorting keeps every item, as often as it occurred.
pub proof fn lemma_sorted_is_permutation<T>(s: Seq<T>, key: spec_fn(T) -> Seq<char>)
    ensures
        sorted_by(s, key).to_multiset() == s.to_multiset(),
        sorted_by(s, key).len() == s.len(),
    decreases s.len(),
{
    if s.len() > 0 {
        let rest = sorted_by(s.drop_first(), key);
        lemma_sorted_is_permutation(s.drop_first(), key);
        lemma_insertion_point(rest, key, s[0], 0);
        vstd::seq_lib::to_multiset_insert(rest, insertion_point(rest, key, s[0], 0), s[0]);
        vstd::seq_lib::to_multiset_insert(s.drop_first(), 0, s[0]);
        assert(s.drop_first().insert(0, s[0]) =~= s);
    }
}

/// Sorting and then mapping each item gives what mapping and then sorting
/// gives, where the mapping keeps the keys.
pub proof fn lemma_sorted_commutes_with_map<A, B>(
    s: Seq<A>,
    key: spec_fn(A) -> Seq<char>,
    f: spec_fn(A) -> B,
    image_key: spec_fn(B) -> Seq<char>,
)
    requires
        forall|a: A| #[trigger] image_key(f(a)) == key(a),
    ensures
        sorted_by(s, key).map_values(f) == sorted_by(s.map_values(f), image_key),
    decreases s.len(),
{
    if s.len() > 0 {
        let rest = sorted_by(s.drop_first(), key);
        lemma_sorted_commutes_with_map(s.drop_first(), key, f, image_key);
        assert(s.map_values(f).drop_first() =~= s.drop_first().map_values(f));
        lemma_insertion_point_commutes_with_map(rest, key, f, image_key, s[0], 0);
        lemma_insertion_point(rest, key, s[0], 0);
        assert(inserted(rest, key, s[0]).map_values(f) =~= inserted(
            rest.map_values(f),
            image_key,
            f(s[0]),
        ));
    } else {
        assert(s.map_values(f) =~= Seq::<B>::empty());
        assert(sorted_by(s, key).map_values(f) =~= Seq::<B>::empty());
    }
}

/// What one of two sequences of the same items holds, the other holds too.
proof fn lemma_same_items<T>(a: Seq<T>, b: Seq<T>, x: T)
    requires
        a.to_multiset() == b.to_multiset(),
        0 <= a.len(),
        a.contains(x),
    ensures
        b.contains(x),
{
    vstd::seq_lib::to_multiset_contains(a, x);
    vstd::seq_lib::to_multiset_contains(b, x);
}

/// Items with distinct keys are distinct, and stay so in any other order.
pub proof fn lemma_distinct_in_any_order<T>(a: Seq<T>, b: Seq<T>, key: spec_fn(T) -> Seq<char>)
    requires
        distinct_by(a, key),
        a.to_multiset() == b.to_multiset(),
    ensures
        distinct_by(b, key),
{
    assert(a.no_duplicates()) by {
        assert forall|i: int, j: int| 0 <= i < a.len() && 0 <= j < a.len() && i != j implies a[i]
            != a[j] by {
            if i < j {
                assert(key(a[i]) != key(a[j]));
            } else {
                assert(key(a[j]) != key(a[i]));
            }
        }
    }
    a.lemma_multiset_has_no_duplicates();
    b.lemma_multiset_has_no_duplicates_conv();
    assert forall|i: int, j: int| 0 <= i < j < b.len() implies #[trigger] key(b[i]) != #[trigger] key(
        b[j],
    ) by {
        lemma_same_items(b, a, b[i]);
        lemma_same_items(b, a, b[j]);
        let p = choose|p: int| 0 <= p < a.len() && a[p] == b[i];
        let q = choose|q: int| 0 <= q < a.len() && a[q] == b[j];
        assert(b[i] != b[j]);
        if p < q {
            assert(key(a[p]) != key(a[q]));
        } else {
            assert(key(a[q]) != key(a[p]));
        }
    }
}

/// Two sequences in order that hold the same items, all of distinct keys, are
/// the same sequence.
pub proof fn lemma_order_is_unique<T>(a: Seq<T>, b: Seq<T>, key: spec_fn(T) -> Seq<char>)
    requires
        ordered_by(a, key),
        ordered_by(b, key),
        distinct_by(a, key),
        a.to_multiset() == b.to_multiset(),
    ensures
        a == b,
    decreases a.len(),
{
    vstd::seq_lib::to_multiset_len(a);
    vstd::seq_lib::to_multiset_len(b);
    if a.len() == 0 {
        assert(a =~= b);
    } else {
        lemma_same_items(a, b, a[0]);
        lemma_same_items(b, a, b[0]);
        let k = choose|k: int| 0 <= k < b.len() && b[k] == a[0];
        let m = choose|m: int| 0 <= m < a.len() && a[m] == b[0];
        if m > 0 && k > 0 {
            assert(text_le(key(a[0]), key(a[m])));
            assert(text_le(key(b[0]), key(b[k])));
            lemma_text_le_antisymmetric(key(a[0]), key(b[0]));
            assert(key(a[0]) != key(a[m]));
        }
        assert(a[0] == b[0]);
        let x = a.drop_first();
        let y = b.drop_first();
        assert(x =~= a.remove(0));
        assert(y =~= b.remove(0));
        vstd::seq_lib::to_multiset_remove(a, 0);
        vstd::seq_lib::to_multiset_remove(b, 0);
        assert(x.to_multiset() == y.to_multiset());
        assert forall|i: int, j: int| 0 <= i < j < x.len() implies text_le(
            #[trigger] key(x[i]),
            #[trigger] key(x[j]),
        ) by {
            assert(x[i] == a[i + 1] && x[j] == a[j + 1]);
        }
        assert forall|i: int, j: int| 0 <= i < j < y.len() implies text_le(
            #[trigger] key(y[i]),
            #[trigger] key(y[j]),
        ) by {
            assert(y[i] == b[i + 1] && y[j] == b[j + 1]);
        }
        assert forall|i: int, j: int| 0 <= i < j < x.len() implies #[trigger] key(x[i])
            != #[trigger] key(x[j]) by {
            assert(x[i] == a[i + 1] && x[j] == a[j + 1]);
        }
        lemma_order_is_unique(x, y, key);
        assert(a =~= seq![a[0]] + x);
        assert(b =~= seq![b[0]] + y);
    }
}

/// Sorting does not depend on the order in which the items are given, where
/// no two of them have the same key.
pub proof fn lemma_sorted_ignores_given_order<T>(
    a: Seq<T>,
    b: Seq<T>,
    key: spec_fn(T) -> Seq<char>,
)
    requires
        distinct_by(a, key),
        a.to_multiset() == b.to_multiset(),
    ensures
        sorted_by(a, key) == sorted_by(b, key),
{
    lemma_sorted_is_ordered(a, key);
    lemma_sorted_is_ordered(b, key);
    lemma_sorted_is_permutation(a, key);
    lemma_sorted_is_permutation(b, key);
    lemma_distinct_in_any_order(a, sorted_by(a, key), key);
    lemma_order_is_unique(sorted_by(a, key), sorted_by(b, key), key);
}

proof fn lemma_insertion_point_commutes_with_map<A, B>(
    s: Seq<A>,
    key: spec_fn(A) -> Seq<char>,
    f: spec_fn(A) -> B,
    image_key: spec_fn(B) -> Seq<char>,
    x: A,
    from: int,
)
    requires
        forall|a: A| #[trigger] image_key(f(a)) == key(a),
        0 <= from,
    ensures
        insertion_point(s, key, x, from) == insertion_point(
            s.map_values(f),
            image_key,
            f(x),
            from,
        ),
    decreases s.len() - from,
{
    if from < s.len() {
        assert(s.map_values(f)[from] == f(s[from]));
        if !text_le(key(x), key(s[from])) {
            lemma_insertion_point_commutes_with_map(s, key, f, image_key, x, from + 1);
        }
    }
}

} // verus!
