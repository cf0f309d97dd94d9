use vstd::prelude::*;

verus! {

/// The pieces of `s` between the separators, as `str::split` gives them: a
/// text with `n` separators has `n + 1` pieces, empty ones included.
pub open spec fn split_on(s: Seq<u8>, sep: u8) -> Seq<Seq<u8>>
    decreases s.len(),
{
    if s.len() == 0 {
        seq![Seq::<u8>::empty()]
    } else {
        let r = split_on(s.drop_last(), sep);
        if s.last() == sep {
            r.push(Seq::<u8>::empty())
        } else {
            r.update(r.len() - 1, r.last().push(s.last()))
        }
    }
}

/// `s` without its carriage returns.
pub open spec fn strip_cr(s: Seq<u8>) -> Seq<u8>
    decreases s.len(),
{
    if s.len() == 0 {
        s
    } else if s.last() == 13u8 {
        strip_cr(s.drop_last())
    } else {
        strip_cr(s.drop_last()).push(s.last())
    }
}

/// There is always at least one piece.
pub proof fn lemma_split_on_len(s: Seq<u8>, sep: u8)
    ensures
        split_on(s, sep).len() >= 1,
    decreases s.len(),
{
    if s.len() > 0 {
        lemma_split_on_len(s.drop_last(), sep);
    }
}

/// The views of a vector of byte vectors.
pub open spec fn views(v: Seq<Vec<u8>>) -> Seq<Seq<u8>> {
    Seq::new(v.len(), |i: int| v[i]@)
}

/// Removes the carriage returns from `s`.
pub fn remove_cr(s: &[u8]) -> (r: Vec<u8>)
    ensures
        r@ == strip_cr(s@),
{
    let mut r: Vec<u8> = Vec::new();
    let mut k: usize = 0;
    while k < s.len()
        invariant
            k <= s@.len(),
            r@ == strip_cr(s@.take(k as int)),
        decreases s@.len() - k,
    {
        assert(s@.take(k + 1).drop_last() =~= s@.take(k as int));
        if s[k] != 13u8 {
            r.push(s[k]);
        }
        k = k + 1;
    }
    assert(s@.take(k as int) =~= s@);
    r
}

/// Splits `s` at every `sep`, keeping empty pieces.
pub fn split_bytes(s: &[u8], sep: u8) -> (r: Vec<Vec<u8>>)
    ensures
        views(r@) == split_on(s@, sep),
        r@.len() >= 1,
{
    proof {
        lemma_split_on_len(s@, sep);
    }
    let mut done: Vec<Vec<u8>> = Vec::new();
    let mut cur: Vec<u8> = Vec::new();
    let mut k: usize = 0;
    assert(views(done@).push(cur@) =~= split_on(s@.take(0), sep));
    while k < s.len()
        invariant
            k <= s@.len(),
            views(done@).push(cur@) == split_on(s@.take(k as int), sep),
        decreases s@.len() - k,
    {
        let ghost prev = s@.take(k as int);
        assert(s@.take(k + 1).drop_last() =~= prev);
        assert(s@.take(k + 1).last() == s@[k as int]);
        if s[k] == sep {
            let piece = cur;
            done.push(piece);
            cur = Vec::new();
            assert(views(done@).push(cur@) =~= views(done@.drop_last()).push(piece@).push(
                Seq::<u8>::empty(),
            ));
        } else {
            cur.push(s[k]);
            assert(views(done@).push(cur@) =~= split_on(prev, sep).update(
                split_on(prev, sep).len() - 1,
                split_on(prev, sep).last().push(s@[k as int]),
            ));
        }
        k = k + 1;
    }
    assert(s@.take(k as int) =~= s@);
    done.push(cur);
    assert(views(done@) =~= split_on(s@, sep));
    done
}

} // verus!
