use vstd::prelude::*;

verus! {

/// Filtering keeps exactly the elements that satisfy the predicate, and keeps
/// a duplicate-free sequence duplicate-free.
pub proof fn lemma_filter_members<A>(s: Seq<A>, p: spec_fn(A) -> bool)
    ensures
        forall|x: A| #[trigger] s.filter(p).contains(x) <==> s.contains(x) && p(x),
        s.no_duplicates() ==> s.filter(p).no_duplicates(),
    decreases s.len(),
{
    broadcast use vstd::seq_lib::group_filter_ensures;

    assert forall|x: A| #[trigger] s.filter(p).contains(x) <==> s.contains(x) && p(x) by {
        if s.filter(p).contains(x) {
            let i = choose|i: int| 0 <= i < s.filter(p).len() && s.filter(p)[i] == x;
            s.lemma_filter_pred(p, i);
            s.lemma_filter_contains_rev(p, x);
        }
        if s.contains(x) && p(x) {
            let i = choose|i: int| 0 <= i < s.len() && s[i] == x;
            s.lemma_filter_contains(p, i);
        }
    }
    if s.len() > 0 && s.no_duplicates() {
        reveal(Seq::filter);
        let rest = s.drop_last();
        lemma_filter_members(rest, p);
        assert(rest.no_duplicates()) by {
            assert forall|i: int, j: int| 0 <= i < rest.len() && 0 <= j < rest.len() && i != j
                implies rest[i] != rest[j] by {
                assert(rest[i] == s[i]);
                assert(rest[j] == s[j]);
            }
        }
        if p(s.last()) {
            let sub = rest.filter(p);
            assert(!rest.contains(s.last())) by {
                if rest.contains(s.last()) {
                    let i = choose|i: int| 0 <= i < rest.len() && rest[i] == s.last();
                    assert(s[i] == s[s.len() - 1]);
                }
            }
            assert(!sub.contains(s.last()));
            lemma_push_members(sub, s.last());
        }
    }
}

/// A push adds exactly its element to the members of a sequence.
pub proof fn lemma_push_members<A>(s: Seq<A>, a: A)
    ensures
        forall|x: A| #[trigger] s.push(a).contains(x) <==> s.contains(x) || x == a,
        s.no_duplicates() && !s.contains(a) ==> s.push(a).no_duplicates(),
{
    assert forall|x: A| #[trigger] s.push(a).contains(x) <==> s.contains(x) || x == a by {
        if s.contains(x) {
            let i = choose|i: int| 0 <= i < s.len() && s[i] == x;
            assert(s.push(a)[i] == x);
        }
        if x == a {
            assert(s.push(a)[s.len() as int] == x);
        }
        if s.push(a).contains(x) && x != a {
            let i = choose|i: int| 0 <= i < s.push(a).len() && s.push(a)[i] == x;
            assert(s[i] == x);
        }
    }
    if s.no_duplicates() && !s.contains(a) {
        assert forall|i: int, j: int|
            0 <= i < s.push(a).len() && 0 <= j < s.push(a).len() && i != j
            implies s.push(a)[i] != s.push(a)[j] by {
            if i == s.len() as int {
                assert(s.contains(s[j]));
            } else if j == s.len() as int {
                assert(s.contains(s[i]));
            }
        }
    }
}


/// Filtering with a predicate that every element satisfies changes nothing.
pub proof fn lemma_filter_all<A>(s: Seq<A>, p: spec_fn(A) -> bool)
    requires
        forall|i: int| 0 <= i < s.len() ==> p(#[trigger] s[i]),
    ensures
        s.filter(p) == s,
    decreases s.len(),
{
    reveal(Seq::filter);
    if s.len() > 0 {
        let rest = s.drop_last();
        assert forall|i: int| 0 <= i < rest.len() implies p(#[trigger] rest[i]) by {
            assert(rest[i] == s[i]);
        }
        lemma_filter_all(rest, p);
        assert(p(s[s.len() - 1]));
        assert(rest.push(s.last()) =~= s);
    }
}

/// Filtering out the single element that fails the predicate removes it.
pub proof fn lemma_filter_one<A>(s: Seq<A>, p: spec_fn(A) -> bool, j: int)
    requires
        0 <= j < s.len(),
        !p(s[j]),
        forall|i: int| 0 <= i < s.len() && i != j ==> p(#[trigger] s[i]),
    ensures
        s.filter(p) == s.remove(j),
    decreases s.len(),
{
    reveal(Seq::filter);
    let rest = s.drop_last();
    if j == s.len() - 1 {
        assert forall|i: int| 0 <= i < rest.len() implies p(#[trigger] rest[i]) by {
            assert(rest[i] == s[i]);
        }
        lemma_filter_all(rest, p);
        assert(rest =~= s.remove(j));
    } else {
        assert forall|i: int| 0 <= i < rest.len() && i != j implies p(#[trigger] rest[i]) by {
            assert(rest[i] == s[i]);
        }
        assert(rest[j] == s[j]);
        lemma_filter_one(rest, p, j);
        assert(p(s[s.len() - 1]));
        assert(rest.remove(j).push(s.last()) =~= s.remove(j));
    }
}

} // verus!
