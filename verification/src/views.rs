//! Element-wise views of sequences, and the few facts about them that the
//! table operations rely on.

use vstd::prelude::*;

verus! {

/// The mathematical value of a piece of text.
pub type Text = Seq<char>;

/// The sequence of the views of the elements of `s`.
pub open spec fn views<T: View>(s: Seq<T>) -> Seq<T::V> {
    s.map_values(|x: T| x@)
}

/// Viewing commutes with appending one element.
pub proof fn lemma_views_push<T: View>(s: Seq<T>, x: T)
    ensures
        views(s.push(x)) == views(s).push(x@),
{
    assert(views(s.push(x)) =~= views(s).push(x@));
}

/// The prefix of length `n + 1` is the prefix of length `n` followed by the
/// element at `n`.
pub proof fn lemma_take_step<T>(s: Seq<T>, n: int)
    requires
        0 <= n < s.len(),
    ensures
        s.take(n + 1) == s.take(n).push(s[n]),
        s.take(n + 1).drop_last() == s.take(n),
        s.take(n + 1).last() == s[n],
{
    assert(s.take(n + 1) =~= s.take(n).push(s[n]));
    assert(s.take(n + 1).drop_last() =~= s.take(n));
}

/// The prefix that spans the whole sequence is the sequence.
pub proof fn lemma_take_all<T>(s: Seq<T>)
    ensures
        s.take(s.len() as int) == s,
{
    assert(s.take(s.len() as int) =~= s);
}

/// A copy of a list of texts, text by text.
pub fn clone_texts(v: &Vec<String>) -> (r: Vec<String>)
    ensures
        views(r@) == views(v@),
{
    let mut out: Vec<String> = Vec::new();
    let mut i: usize = 0;
    while i < v.len()
        invariant
            i <= v.len(),
            out.len() == i,
            views(out@) == views(v@.take(i as int)),
        decreases v.len() - i,
    {
        let ghost before = out@;
        let s = v[i].clone();
        out.push(s);
        proof {
            lemma_views_push(before, s);
            lemma_take_step(v@, i as int);
            lemma_views_push(v@.take(i as int), v@[i as int]);
        }
        i = i + 1;
    }
    proof {
        lemma_take_all(v@);
    }
    out
}

/// Whether `needle` occurs in `texts`.
pub fn contains_text(texts: &Vec<String>, needle: &String) -> (found: bool)
    ensures
        found == views(texts@).contains(needle@),
{
    let mut i: usize = 0;
    while i < texts.len()
        invariant
            i <= texts.len(),
            forall|k: int| 0 <= k < i ==> views(texts@)[k] != needle@,
        decreases texts.len() - i,
    {
        if texts[i] == *needle {
            assert(views(texts@)[i as int] == needle@);
            return true;
        }
        i = i + 1;
    }
    false
}

} // verus!
