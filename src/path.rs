use vstd::prelude::*;

verus! {

/// The byte value of `/`.
pub const SLASH: u8 = 47;

/// `s` with every trailing `/` removed.
pub open spec fn trim_trailing_slashes(s: Seq<u8>) -> Seq<u8>
    decreases s.len(),
{
    if s.len() > 0 && s.last() == SLASH {
        trim_trailing_slashes(s.drop_last())
    } else {
        s
    }
}

/// The bytes of `s` after its last `/` (all of `s` when it holds none).
pub open spec fn after_last_slash(s: Seq<u8>) -> Seq<u8>
    decreases s.len(),
{
    if s.len() == 0 {
        s
    } else if s.last() == SLASH {
        Seq::empty()
    } else {
        after_last_slash(s.drop_last()).push(s.last())
    }
}

/// The final component of a path: trailing slashes trimmed, then everything up
/// to and including the last remaining slash dropped.
pub open spec fn last_component(s: Seq<u8>) -> Seq<u8> {
    after_last_slash(trim_trailing_slashes(s))
}

/// Every byte of `s` is a `/`.
pub open spec fn all_slashes(s: Seq<u8>) -> bool {
    forall|i: int| 0 <= i < s.len() ==> s[i] == SLASH
}

/// `true` when `s` holds no `/` at all.
pub open spec fn has_no_slash(s: Seq<u8>) -> bool {
    forall|i: int| 0 <= i < s.len() ==> s[i] != SLASH
}

proof fn lemma_trim_prefix(s: Seq<u8>, i: int)
    requires
        0 <= i <= s.len(),
        forall|k: int| i <= k < s.len() ==> s[k] == SLASH,
    ensures
        trim_trailing_slashes(s) == trim_trailing_slashes(s.take(i)),
    decreases s.len() - i,
{
    if i < s.len() {
        assert(s.drop_last().take(i) == s.take(i));
        lemma_trim_prefix(s.drop_last(), i);
    } else {
        assert(s.take(i) == s);
    }
}

proof fn lemma_trim_is_prefix(s: Seq<u8>)
    ensures
        trim_trailing_slashes(s).len() <= s.len(),
        trim_trailing_slashes(s) == s.take(trim_trailing_slashes(s).len() as int),
        trim_trailing_slashes(s).len() == 0 <==> all_slashes(s),
    decreases s.len(),
{
    if s.len() > 0 && s.last() == SLASH {
        lemma_trim_is_prefix(s.drop_last());
        let t = trim_trailing_slashes(s.drop_last());
        assert(s.drop_last().take(t.len() as int) == s.take(t.len() as int));
        if all_slashes(s.drop_last()) {
            assert forall|i: int| 0 <= i < s.len() implies s[i] == SLASH by {
                if i < s.len() - 1 {
                    assert(s[i] == s.drop_last()[i]);
                }
            }
        }
        if all_slashes(s) {
            assert(all_slashes(s.drop_last()));
        }
    } else {
        assert(s.take(s.len() as int) == s);
        if s.len() > 0 {
            assert(!all_slashes(s));
        }
    }
}

proof fn lemma_after_split(s: Seq<u8>, j: int)
    requires
        0 <= j <= s.len(),
        forall|k: int| j <= k < s.len() ==> s[k] != SLASH,
    ensures
        after_last_slash(s) == after_last_slash(s.take(j)) + s.subrange(j, s.len() as int),
    decreases s.len() - j,
{
    if j < s.len() {
        assert(s.drop_last().take(j) == s.take(j));
        lemma_after_split(s.drop_last(), j);
        assert(s.subrange(j, s.len() as int) == s.drop_last().subrange(j, s.len() - 1).push(
            s.last(),
        ));
    } else {
        assert(s.take(j) == s);
        assert(s.subrange(j, s.len() as int) == Seq::<u8>::empty());
    }
}

/// The byte range `[start, end)` of `s` that holds its last component.
pub fn last_component_range(s: &[u8]) -> (r: (usize, usize))
    ensures
        r.0 <= r.1 <= s@.len(),
        s@.subrange(r.0 as int, r.1 as int) == last_component(s@),
        r.1 == trim_trailing_slashes(s@).len(),
{
    let mut end: usize = s.len();
    while end > 0 && s[end - 1] == SLASH
        invariant
            end <= s@.len(),
            forall|k: int| end <= k < s@.len() ==> s@[k] == SLASH,
        decreases end,
    {
        end = end - 1;
    }
    proof {
        lemma_trim_prefix(s@, end as int);
        assert(trim_trailing_slashes(s@.take(end as int)) == s@.take(end as int));
    }
    let mut start: usize = end;
    while start > 0 && s[start - 1] != SLASH
        invariant
            start <= end <= s@.len(),
            forall|k: int| start <= k < end ==> s@[k] != SLASH,
        decreases start,
    {
        start = start - 1;
    }
    proof {
        let t = s@.take(end as int);
        lemma_after_split(t, start as int);
        assert(t.take(start as int) == s@.take(start as int));
        if start > 0 {
            assert(after_last_slash(s@.take(start as int)) == Seq::<u8>::empty());
        } else {
            assert(s@.take(0) == Seq::<u8>::empty());
        }
        assert(t.subrange(start as int, end as int) == s@.subrange(start as int, end as int));
    }
    (start, end)
}

/// Every byte of `s` is a `/` (also when `s` is empty).
pub fn is_all_slashes(s: &[u8]) -> (r: bool)
    ensures
        r == all_slashes(s@),
{
    let mut i: usize = 0;
    while i < s.len()
        invariant
            i <= s@.len(),
            forall|k: int| 0 <= k < i ==> s@[k] == SLASH,
        decreases s@.len() - i,
    {
        if s[i] != SLASH {
            return false;
        }
        i = i + 1;
    }
    true
}

/// A fresh vector holding `s[start..end]`.
pub fn copy_range(s: &[u8], start: usize, end: usize) -> (r: Vec<u8>)
    requires
        start <= end <= s@.len(),
    ensures
        r@ == s@.subrange(start as int, end as int),
{
    let mut r: Vec<u8> = Vec::new();
    let mut i: usize = start;
    while i < end
        invariant
            start <= i <= end <= s@.len(),
            r@ == s@.subrange(start as int, i as int),
        decreases end - i,
    {
        r.push(s[i]);
        i = i + 1;
    }
    r
}

} // verus!
