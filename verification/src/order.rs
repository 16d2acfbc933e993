use vstd::prelude::*;
use vstd::multiset::Multiset;

verus! {

broadcast use vstd::seq_lib::group_to_multiset_ensures;

/// One embedding of an embeddings-endpoint response, tagged with the
/// position (in the request's batch) of the text it belongs to.
pub struct IndexedEmbedding<T> {
    pub index: usize,
    pub embedding: T,
}

/// Inserts `x` into `s` before the first element whose index is not smaller
/// than `x`'s (so after every element with a smaller index).
pub open spec fn insert_by_index<T>(s: Seq<IndexedEmbedding<T>>, x: IndexedEmbedding<T>) -> Seq<
    IndexedEmbedding<T>,
>
    decreases s.len(),
{
    if s.len() == 0 {
        seq![x]
    } else if x.index <= s[0].index {
        seq![x] + s
    } else {
        seq![s[0]] + insert_by_index(s.drop_first(), x)
    }
}

/// The stable sort of `s` by index: elements in increasing order of index,
/// elements with equal indices in the order they have in `s`.
pub open spec fn sort_by_index<T>(s: Seq<IndexedEmbedding<T>>) -> Seq<IndexedEmbedding<T>>
    decreases s.len(),
{
    if s.len() == 0 {
        Seq::empty()
    } else {
        insert_by_index(sort_by_index(s.drop_first()), s[0])
    }
}

/// The embeddings of `s`, in the stable order of their indices.
pub open spec fn embeddings_in_index_order<T>(s: Seq<IndexedEmbedding<T>>) -> Seq<T> {
    sort_by_index(s).map_values(|d: IndexedEmbedding<T>| d.embedding)
}

/// `s` is in nondecreasing order of index.
pub open spec fn sorted_by_index<T>(s: Seq<IndexedEmbedding<T>>) -> bool {
    forall|i: int, j: int| 0 <= i < j < s.len() ==> s[i].index <= s[j].index
}

/// No two elements of `s` carry the same index.
pub open spec fn indices_distinct<T>(s: Seq<IndexedEmbedding<T>>) -> bool {
    forall|i: int, j: int| 0 <= i < s.len() && 0 <= j < s.len() && i != j ==> s[i].index != s[j].index
}

proof fn lemma_insert_at<T>(s: Seq<IndexedEmbedding<T>>, x: IndexedEmbedding<T>, i: int)
    requires
        0 <= i <= s.len(),
        forall|m: int| 0 <= m < i ==> s[m].index < x.index,
        i == s.len() || x.index <= s[i].index,
    ensures
        s.insert(i, x) == insert_by_index(s, x),
    decreases i,
{
    if i == 0 {
        assert(s.insert(0, x) =~= seq![x] + s);
    } else {
        lemma_insert_at(s.drop_first(), x, i - 1);
        assert(s.insert(i, x) =~= seq![s[0]] + s.drop_first().insert(i - 1, x));
    }
}

proof fn lemma_insert_len_and_multiset<T>(s: Seq<IndexedEmbedding<T>>, x: IndexedEmbedding<T>)
    ensures
        insert_by_index(s, x).len() == s.len() + 1,
        insert_by_index(s, x).to_multiset() == s.to_multiset().insert(x),
    decreases s.len(),
{
    broadcast use vstd::seq_lib::to_multiset_insert;

    if s.len() == 0 {
        assert(insert_by_index(s, x) =~= s.insert(0, x));
    } else if x.index <= s[0].index {
        assert(insert_by_index(s, x) =~= s.insert(0, x));
    } else {
        lemma_insert_len_and_multiset(s.drop_first(), x);
        let t = s.drop_first();
        assert(s =~= seq![s[0]] + t);
        vstd::seq_lib::lemma_multiset_commutative(seq![s[0]], t);
        vstd::seq_lib::lemma_multiset_commutative(seq![s[0]], insert_by_index(t, x));
        assert(seq![s[0]].to_multiset() =~= Multiset::empty().insert(s[0])) by {
            assert(seq![s[0]] =~= Seq::<IndexedEmbedding<T>>::empty().push(s[0]));
        }
        assert(insert_by_index(s, x).to_multiset() =~= s.to_multiset().insert(x));
    }
}

proof fn lemma_insert_sorted<T>(s: Seq<IndexedEmbedding<T>>, x: IndexedEmbedding<T>)
    requires
        sorted_by_index(s),
    ensures
        sorted_by_index(insert_by_index(s, x)),
        forall|k: int|
            0 <= k < insert_by_index(s, x).len() ==> (#[trigger] insert_by_index(s, x)[k] == x
                || s.contains(insert_by_index(s, x)[k])),
    decreases s.len(),
{
    if s.len() == 0 {
    } else if x.index <= s[0].index {
        let r = insert_by_index(s, x);
        assert forall|k: int| 0 < k < r.len() implies r[k] == s[k - 1] by {}
    } else {
        let t = s.drop_first();
        lemma_insert_sorted(t, x);
        lemma_insert_len_and_multiset(t, x);
        let r = insert_by_index(s, x);
        let rt = insert_by_index(t, x);
        assert forall|k: int| 0 < k < r.len() implies r[k] == rt[k - 1] by {}
        assert forall|k: int| 0 <= k < rt.len() implies s[0].index <= #[trigger] rt[k].index by {
            if rt[k] != x {
                assert(t.contains(rt[k]));
                let m: int = choose|m: int| 0 <= m < t.len() && t[m] == rt[k];
                assert(t[m] == s[m + 1]);
            }
        }
        assert forall|k: int| 0 <= k < r.len() implies (#[trigger] r[k] == x || s.contains(r[k])) by {
            if k == 0 {
                assert(s[0] == r[0]);
            } else if rt[k - 1] != x {
                let m: int = choose|m: int| 0 <= m < t.len() && t[m] == rt[k - 1];
                assert(s[m + 1] == r[k]);
            }
        }
    }
}

proof fn lemma_sort_len_multiset_sorted<T>(s: Seq<IndexedEmbedding<T>>)
    ensures
        sort_by_index(s).len() == s.len(),
        sort_by_index(s).to_multiset() == s.to_multiset(),
        sorted_by_index(sort_by_index(s)),
    decreases s.len(),
{
    if s.len() == 0 {
        assert(s.to_multiset() =~= Multiset::empty());
        assert(sort_by_index(s).to_multiset() =~= Multiset::empty());
    } else {
        let t = s.drop_first();
        lemma_sort_len_multiset_sorted(t);
        lemma_insert_len_and_multiset(sort_by_index(t), s[0]);
        lemma_insert_sorted(sort_by_index(t), s[0]);
        assert(s =~= seq![s[0]] + t);
        vstd::seq_lib::lemma_multiset_commutative(seq![s[0]], t);
        assert(seq![s[0]].to_multiset() =~= Multiset::empty().insert(s[0])) by {
            assert(seq![s[0]] =~= Seq::<IndexedEmbedding<T>>::empty().push(s[0]));
        }
        assert(sort_by_index(s).to_multiset() =~= s.to_multiset());
    }
}

/// The reordered response is in nondecreasing order of index, and holds
/// exactly the data of the response (same elements, each as many times).
pub proof fn law_order_is_sorted_permutation<T>(s: Seq<IndexedEmbedding<T>>)
    ensures
        sorted_by_index(sort_by_index(s)),
        sort_by_index(s).to_multiset() == s.to_multiset(),
        sort_by_index(s).len() == s.len(),
        embeddings_in_index_order(s).len() == s.len(),
{
    lemma_sort_len_multiset_sorted(s);
}

/// The elements carrying index `k`.
pub open spec fn has_index<T>(k: usize) -> spec_fn(IndexedEmbedding<T>) -> bool {
    |d: IndexedEmbedding<T>| d.index == k
}

proof fn lemma_filter_single<T>(e: IndexedEmbedding<T>, k: usize)
    ensures
        seq![e].filter(has_index(k)) == (if e.index == k {
            seq![e]
        } else {
            Seq::<IndexedEmbedding<T>>::empty()
        }),
{
    reveal_with_fuel(Seq::filter, 2);
    assert(seq![e].drop_last() =~= Seq::<IndexedEmbedding<T>>::empty());
    assert(Seq::<IndexedEmbedding<T>>::empty().push(e) =~= seq![e]);
}

proof fn lemma_insert_filter<T>(u: Seq<IndexedEmbedding<T>>, x: IndexedEmbedding<T>, k: usize)
    ensures
        insert_by_index(u, x).filter(has_index(k)) == seq![x].filter(has_index(k)) + u.filter(
            has_index(k),
        ),
    decreases u.len(),
{
    broadcast use Seq::filter_distributes_over_add;

    lemma_filter_single(x, k);
    if u.len() == 0 {
        reveal_with_fuel(Seq::filter, 1);
        assert(seq![x] + u =~= seq![x]);
        assert(seq![x].filter(has_index(k)) + u.filter(has_index(k)) =~= seq![x].filter(
            has_index(k),
        ));
    } else if x.index <= u[0].index {
    } else {
        let rest = u.drop_first();
        lemma_insert_filter(rest, x, k);
        lemma_filter_single(u[0], k);
        assert(u =~= seq![u[0]] + rest);
        assert(insert_by_index(u, x).filter(has_index(k)) =~= seq![x].filter(has_index(k))
            + u.filter(has_index(k)));
    }
}

/// The reordering is stable: the elements carrying any one index come out
/// in the order they had in the response.
pub proof fn law_order_is_stable<T>(s: Seq<IndexedEmbedding<T>>, k: usize)
    ensures
        sort_by_index(s).filter(has_index(k)) == s.filter(has_index(k)),
    decreases s.len(),
{
    broadcast use Seq::filter_distributes_over_add;

    if s.len() == 0 {
        reveal_with_fuel(Seq::filter, 1);
    } else {
        let t = s.drop_first();
        law_order_is_stable(t, k);
        lemma_insert_filter(sort_by_index(t), s[0], k);
        assert(s =~= seq![s[0]] + t);
    }
}

/// Every embedding in the reordered result is the embedding of some element
/// of the response.
pub proof fn law_order_keeps_only_response_embeddings<T>(s: Seq<IndexedEmbedding<T>>)
    ensures
        forall|k: int|
            0 <= k < embeddings_in_index_order(s).len() ==> exists|j: int|
                0 <= j < s.len() && #[trigger] embeddings_in_index_order(s)[k] == s[j].embedding,
{
    lemma_sort_len_multiset_sorted(s);
    let o = sort_by_index(s);
    assert forall|k: int| 0 <= k < embeddings_in_index_order(s).len() implies exists|j: int|
        0 <= j < s.len() && #[trigger] embeddings_in_index_order(s)[k] == s[j].embedding by {
        assert(o.contains(o[k]));
        assert(s.to_multiset().count(o[k]) > 0);
        assert(s.contains(o[k]));
        let j: int = choose|j: int| 0 <= j < s.len() && s[j] == o[k];
        assert(embeddings_in_index_order(s)[k] == s[j].embedding);
    }
}

proof fn lemma_count_at_most_one<T>(s: Seq<IndexedEmbedding<T>>)
    requires
        indices_distinct(s),
    ensures
        forall|x: IndexedEmbedding<T>| s.to_multiset().count(x) <= 1,
    decreases s.len(),
{
    if s.len() == 0 {
        assert(s.to_multiset() =~= Multiset::empty());
    } else {
        let t = s.drop_last();
        assert(indices_distinct(t));
        lemma_count_at_most_one(t);
        assert(s =~= t.push(s.last()));
        assert forall|x: IndexedEmbedding<T>| s.to_multiset().count(x) <= 1 by {
            if x == s.last() {
                if t.contains(x) {
                    let m: int = choose|m: int| 0 <= m < t.len() && t[m] == x;
                    assert(s[m].index == s[s.len() - 1].index);
                }
                assert(t.to_multiset().count(x) == 0);
            }
        }
    }
}

proof fn lemma_two_copies<T>(o: Seq<IndexedEmbedding<T>>, a: int, b: int)
    requires
        0 <= a < o.len(),
        0 <= b < o.len(),
        a != b,
        o[a] == o[b],
    ensures
        o.to_multiset().count(o[a]) >= 2,
{
    let r = o.remove(a);
    let bb: int = if b < a { b } else { b - 1 };
    assert(r[bb] == o[b]);
    assert(r.contains(o[a]));
    assert(r.to_multiset().count(o[a]) >= 1);
}

/// When the response's indices are exactly the positions `0..n` of an
/// `n`-text batch (each once), the reordered embeddings line up with the
/// batch: the embedding tagged with index `i` ends up at position `i`.
pub proof fn law_order_places_each_embedding_at_its_index<T>(s: Seq<IndexedEmbedding<T>>)
    requires
        indices_distinct(s),
        forall|j: int| 0 <= j < s.len() ==> #[trigger] s[j].index < s.len(),
    ensures
        embeddings_in_index_order(s).len() == s.len(),
        forall|j: int|
            0 <= j < s.len() ==> embeddings_in_index_order(s)[#[trigger] s[j].index as int]
                == s[j].embedding,
{
    lemma_sort_len_multiset_sorted(s);
    lemma_count_at_most_one(s);
    let o = sort_by_index(s);
    let n: nat = s.len();
    // every element of `o` comes from `s`, so its index is below `n`
    assert forall|k: int| 0 <= k < n implies #[trigger] o[k].index < n by {
        assert(o.contains(o[k]));
        assert(s.to_multiset().count(o[k]) > 0);
        assert(s.contains(o[k]));
        let j: int = choose|j: int| 0 <= j < n && s[j] == o[k];
        assert(s[j].index < n);
    }
    // indices in `o` are distinct
    assert forall|a: int, b: int| 0 <= a < b < n implies o[a].index < o[b].index by {
        if o[a].index == o[b].index {
            if o[a] == o[b] {
                lemma_two_copies(o, a, b);
            } else {
                assert(o.contains(o[a]) && o.contains(o[b]));
                assert(s.to_multiset().count(o[a]) > 0 && s.to_multiset().count(o[b]) > 0);
                assert(s.contains(o[a]) && s.contains(o[b]));
                let ja: int = choose|j: int| 0 <= j < n && s[j] == o[a];
                let jb: int = choose|j: int| 0 <= j < n && s[j] == o[b];
                assert(ja != jb);
            }
        }
    }
    lemma_strict_indices_are_positions(o);
    assert forall|j: int| 0 <= j < n implies embeddings_in_index_order(s)[#[trigger] s[j].index as int]
        == s[j].embedding by {
        assert(s.contains(s[j]));
        assert(o.to_multiset().count(s[j]) > 0);
        assert(o.contains(s[j]));
        let k: int = choose|k: int| 0 <= k < n && o[k] == s[j];
        assert(o[k].index == k);
    }
}

proof fn lemma_strict_indices_are_positions<T>(o: Seq<IndexedEmbedding<T>>)
    requires
        forall|k: int| 0 <= k < o.len() ==> #[trigger] o[k].index < o.len(),
        forall|a: int, b: int| 0 <= a < b < o.len() ==> o[a].index < o[b].index,
    ensures
        forall|k: int| 0 <= k < o.len() ==> #[trigger] o[k].index == k,
{
    let n: nat = o.len();
    assert forall|k: int| 0 <= k < n implies #[trigger] o[k].index >= k by {
        lemma_index_lower_bound(o, k);
    }
    assert forall|k: int| 0 <= k < n implies #[trigger] o[k].index <= k by {
        lemma_index_upper_bound(o, k);
    }
}

proof fn lemma_index_lower_bound<T>(o: Seq<IndexedEmbedding<T>>, k: int)
    requires
        0 <= k < o.len(),
        forall|a: int, b: int| 0 <= a < b < o.len() ==> o[a].index < o[b].index,
    ensures
        o[k].index >= k,
    decreases k,
{
    if k > 0 {
        lemma_index_lower_bound(o, k - 1);
    }
}

proof fn lemma_index_upper_bound<T>(o: Seq<IndexedEmbedding<T>>, k: int)
    requires
        0 <= k < o.len(),
        forall|m: int| 0 <= m < o.len() ==> #[trigger] o[m].index < o.len(),
        forall|a: int, b: int| 0 <= a < b < o.len() ==> o[a].index < o[b].index,
    ensures
        o[k].index <= k,
    decreases o.len() - k,
{
    if k < o.len() - 1 {
        lemma_index_upper_bound(o, k + 1);
    } else {
        assert(o[k].index < o.len());
    }
}

/// Puts the embeddings of a response in the order of the batch's texts:
/// a stable sort by index, keeping only the embeddings.
pub fn order_by_index<T>(data: Vec<IndexedEmbedding<T>>) -> (out: Vec<T>)
    ensures
        out@ == embeddings_in_index_order(data@),
{
    let ghost orig = data@;
    let mut data = data;
    let mut acc: Vec<IndexedEmbedding<T>> = Vec::new();
    assert(orig.skip(orig.len() as int) =~= Seq::<IndexedEmbedding<T>>::empty());
    assert(orig.take(orig.len() as int) =~= orig);
    while data.len() > 0
        invariant
            data@.len() <= orig.len(),
            data@ == orig.take(data@.len() as int),
            acc@ == sort_by_index(orig.skip(data@.len() as int)),
        decreases data@.len(),
    {
        let ghost n: int = data@.len() as int;
        let x = data.pop().unwrap();
        assert(x == orig[n - 1]);
        assert(data@ =~= orig.take(n - 1));
        let mut i: usize = 0;
        while i < acc.len() && acc[i].index < x.index
            invariant
                i <= acc@.len(),
                forall|m: int| 0 <= m < i ==> acc@[m].index < x.index,
            decreases acc@.len() - i,
        {
            i += 1;
        }
        proof {
            lemma_insert_at(acc@, x, i as int);
            assert(orig.skip(n - 1).drop_first() =~= orig.skip(n as int));
            assert(orig.skip(n - 1)[0] == x);
        }
        acc.insert(i, x);
    }
    let ghost sorted = acc@;
    let mut out: Vec<T> = Vec::new();
    assert(sorted.skip(0) =~= sorted);
    while acc.len() > 0
        invariant
            out@.len() + acc@.len() == sorted.len(),
            acc@ == sorted.skip(out@.len() as int),
            out@ =~= sorted.take(out@.len() as int).map_values(|d: IndexedEmbedding<T>| d.embedding),
        decreases acc@.len(),
    {
        let ghost k: int = out@.len() as int;
        let d = acc.remove(0);
        assert(d == sorted[k]);
        out.push(d.embedding);
        assert(acc@ =~= sorted.skip(k + 1));
        assert(sorted.take(k + 1).map_values(|d: IndexedEmbedding<T>| d.embedding) =~= sorted.take(k).map_values(|d: IndexedEmbedding<T>| d.embedding).push(sorted[k].embedding));
    }
    assert(sorted.take(sorted.len() as int) =~= sorted);
    out
}

} // verus!
