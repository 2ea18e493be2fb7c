//! The headline filter: trim candidates, drop one-word fragments and
//! denylisted boilerplate, keep everything else in input order; with proofs
//! that the filter preserves order and is idempotent.

use vstd::prelude::*;
use crate::text::lemma_trimmed_idempotent;
use crate::text::str_eq;
use crate::text::trim_str;
use crate::text::trimmed;
use crate::text::word_count;
use crate::text::word_count_str;

verus! {

/// Exact-match boilerplate strings that are never headlines.
pub open spec fn deny_listed(s: Seq<char>) -> bool {
    s == "Connections Companion"@ || s == "Spelling Bee"@ || s == "The Crossword"@ || s
        == "Read full edition"@
}

/// A trimmed candidate survives the filter: more than one word, and not an
/// exact denylist match.
pub open spec fn keeps(h: Seq<char>) -> bool {
    word_count(h) > 1 && !deny_listed(h)
}

/// What the filter yields: every candidate trimmed, those that [`keeps`]
/// rejects removed, the rest in input order.
pub open spec fn spec_filter(cs: Seq<Seq<char>>) -> Seq<Seq<char>>
    decreases cs.len(),
{
    if cs.len() == 0 {
        Seq::empty()
    } else {
        let rest = spec_filter(cs.drop_last());
        let h = trimmed(cs.last());
        if keeps(h) {
            rest.push(h)
        } else {
            rest
        }
    }
}

/// Every candidate trimmed, nothing dropped.
pub open spec fn trim_all(cs: Seq<Seq<char>>) -> Seq<Seq<char>>
    decreases cs.len(),
{
    if cs.len() == 0 {
        Seq::empty()
    } else {
        trim_all(cs.drop_last()).push(trimmed(cs.last()))
    }
}

/// `a` can be read off `b` left to right, skipping elements of `b` but
/// never reordering.
pub open spec fn is_subsequence_of(a: Seq<Seq<char>>, b: Seq<Seq<char>>) -> bool
    decreases a.len() + b.len(),
{
    if a.len() == 0 {
        true
    } else if b.len() == 0 {
        false
    } else {
        (a.last() == b.last() && is_subsequence_of(a.drop_last(), b.drop_last()))
            || is_subsequence_of(a, b.drop_last())
    }
}

/// The views of a sequence of strings.
pub open spec fn views_of(v: Seq<String>) -> Seq<Seq<char>> {
    Seq::new(v.len(), |i: int| v[i]@)
}

proof fn lemma_filter_push(cs: Seq<Seq<char>>, c: Seq<char>)
    ensures
        spec_filter(cs.push(c)) == (if keeps(trimmed(c)) {
            spec_filter(cs).push(trimmed(c))
        } else {
            spec_filter(cs)
        }),
{
    assert(cs.push(c).drop_last() =~= cs);
    assert(cs.push(c).last() == c);
}

proof fn lemma_subseq_grows_right(a: Seq<Seq<char>>, b: Seq<Seq<char>>, x: Seq<char>)
    requires
        is_subsequence_of(a, b),
    ensures
        is_subsequence_of(a, b.push(x)),
{
    assert(b.push(x).drop_last() =~= b);
}

proof fn lemma_subseq_extend_both(a: Seq<Seq<char>>, b: Seq<Seq<char>>, x: Seq<char>)
    requires
        is_subsequence_of(a, b),
    ensures
        is_subsequence_of(a.push(x), b.push(x)),
{
    assert(a.push(x).drop_last() =~= a);
    assert(b.push(x).drop_last() =~= b);
}

/// Filtering a single candidate drops it exactly when its trimmed form has
/// at most one word or is denylisted; otherwise it yields that trimmed form.
pub proof fn lemma_filter_singleton(c: Seq<char>)
    ensures
        spec_filter(seq![c]).len() == 0 <==> (word_count(trimmed(c)) <= 1 || deny_listed(
            trimmed(c),
        )),
        spec_filter(seq![c]).len() != 0 ==> spec_filter(seq![c]) == seq![trimmed(c)],
{
    assert(seq![c].drop_last() =~= Seq::<Seq<char>>::empty());
    assert(spec_filter(Seq::<Seq<char>>::empty()) =~= Seq::<Seq<char>>::empty());
    assert(seq![c].last() == c);
    if keeps(trimmed(c)) {
        assert(spec_filter(seq![c]) =~= seq![trimmed(c)]);
    }
}

/// The filter is order-preserving: its output is a subsequence of the
/// trimmed input, in the same relative order.
pub proof fn lemma_filter_order_preserving(cs: Seq<Seq<char>>)
    ensures
        is_subsequence_of(spec_filter(cs), trim_all(cs)),
    decreases cs.len(),
{
    if cs.len() > 0 {
        let cs0 = cs.drop_last();
        lemma_filter_order_preserving(cs0);
        let h = trimmed(cs.last());
        if keeps(h) {
            lemma_subseq_extend_both(spec_filter(cs0), trim_all(cs0), h);
        } else {
            lemma_subseq_grows_right(spec_filter(cs0), trim_all(cs0), h);
        }
    }
}

/// On candidates that are already trimmed, the filter's output is a
/// subsequence of the input itself.
pub proof fn lemma_filter_subsequence_of_trimmed_input(cs: Seq<Seq<char>>)
    requires
        forall|i: int| 0 <= i < cs.len() ==> trimmed(#[trigger] cs[i]) == cs[i],
    ensures
        is_subsequence_of(spec_filter(cs), cs),
{
    lemma_filter_order_preserving(cs);
    lemma_trim_all_identity(cs);
}

proof fn lemma_trim_all_identity(cs: Seq<Seq<char>>)
    requires
        forall|i: int| 0 <= i < cs.len() ==> trimmed(#[trigger] cs[i]) == cs[i],
    ensures
        trim_all(cs) == cs,
    decreases cs.len(),
{
    if cs.len() > 0 {
        lemma_trim_all_identity(cs.drop_last());
        assert(trim_all(cs) =~= cs);
    }
}

/// Every element the filter keeps is trimmed and survives the test again.
proof fn lemma_filter_elements(cs: Seq<Seq<char>>)
    ensures
        forall|i: int|
            0 <= i < spec_filter(cs).len() ==> trimmed(#[trigger] spec_filter(cs)[i])
                == spec_filter(cs)[i] && keeps(spec_filter(cs)[i]),
    decreases cs.len(),
{
    if cs.len() > 0 {
        let rest = spec_filter(cs.drop_last());
        let h = trimmed(cs.last());
        lemma_filter_elements(cs.drop_last());
        lemma_trimmed_idempotent(cs.last());
        assert forall|i: int|
            0 <= i < spec_filter(cs).len() implies trimmed(#[trigger] spec_filter(cs)[i])
            == spec_filter(cs)[i] && keeps(spec_filter(cs)[i]) by {
            if keeps(h) {
                assert(spec_filter(cs) == rest.push(h));
                if i < rest.len() {
                    assert(spec_filter(cs)[i] == rest[i]);
                } else {
                    assert(spec_filter(cs)[i] == h);
                }
            } else {
                assert(spec_filter(cs) == rest);
            }
        }
    }
}

proof fn lemma_filter_identity(ds: Seq<Seq<char>>)
    requires
        forall|i: int|
            0 <= i < ds.len() ==> trimmed(#[trigger] ds[i]) == ds[i] && keeps(ds[i]),
    ensures
        spec_filter(ds) == ds,
    decreases ds.len(),
{
    if ds.len() > 0 {
        lemma_filter_identity(ds.drop_last());
        assert(spec_filter(ds) =~= ds);
    }
}

/// The filter is idempotent: filtering an already-filtered sequence yields
/// the identical sequence.
pub proof fn lemma_filter_idempotent(cs: Seq<Seq<char>>)
    ensures
        spec_filter(spec_filter(cs)) == spec_filter(cs),
{
    lemma_filter_elements(cs);
    lemma_filter_identity(spec_filter(cs));
}

fn is_denied(t: &String) -> (r: bool)
    ensures
        r == deny_listed(t@),
{
    str_eq(t.as_str(), "Connections Companion") || str_eq(t.as_str(), "Spelling Bee") || str_eq(
        t.as_str(),
        "The Crossword",
    ) || str_eq(t.as_str(), "Read full edition")
}

/// Run the headline filter over raw candidates.
pub fn filter_headlines(candidates: &Vec<String>) -> (r: Vec<String>)
    ensures
        views_of(r@) == spec_filter(views_of(candidates@)),
{
    let mut out: Vec<String> = Vec::new();
    let mut i: usize = 0;
    proof {
        assert(views_of(candidates@.take(0)) =~= Seq::<Seq<char>>::empty());
        assert(views_of(out@) =~= Seq::<Seq<char>>::empty());
    }
    while i < candidates.len()
        invariant
            i <= candidates@.len(),
            views_of(out@) == spec_filter(views_of(candidates@.take(i as int))),
        decreases candidates@.len() - i,
    {
        let t = trim_str(candidates[i].as_str());
        let wc = word_count_str(t.as_str());
        let denied = is_denied(&t);
        proof {
            let prev = views_of(candidates@.take(i as int));
            assert(views_of(candidates@.take(i as int + 1)) =~= prev.push(candidates@[i as int]@));
            lemma_filter_push(prev, candidates@[i as int]@);
        }
        if wc > 1 && !denied {
            let ghost old_out = out@;
            out.push(t);
            proof {
                assert(views_of(out@) =~= views_of(old_out).push(
                    trimmed(candidates@[i as int]@),
                ));
            }
        }
        i = i + 1;
    }
    proof {
        assert(candidates@.take(candidates@.len() as int) =~= candidates@);
    }
    out
}

} // verus!
