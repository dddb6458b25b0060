use vstd::prelude::*;
use vstd::string::StringSliceAdditionalSpecFns;
use crate::path::{SLASH, all_slashes, last_component, last_component_range, is_all_slashes, copy_range, has_no_slash, trim_trailing_slashes, after_last_slash};

verus! {

/// The byte value of `.`.
pub const DOT: u8 = 46;

/// `x` is a proper suffix of `c`: `c` ends with `x` and is longer than it.
pub open spec fn is_proper_suffix(x: Seq<u8>, c: Seq<u8>) -> bool {
    x.len() < c.len() && c.subrange(c.len() - x.len(), c.len() as int) == x
}

/// `c` with `suffix` removed from its end, when `suffix` is given, differs from
/// `c` and ends it; `c` itself otherwise.
pub open spec fn strip_suffix(c: Seq<u8>, suffix: Option<Seq<u8>>) -> Seq<u8> {
    match suffix {
        Some(x) => if c != x && x.len() <= c.len() && c.subrange(
            c.len() - x.len(),
            c.len() as int,
        ) == x {
            c.take(c.len() - x.len())
        } else {
            c
        },
        None => c,
    }
}

/// The non-directory portion of the path `s`, with `suffix` removed as above.
pub open spec fn basename_of(s: Seq<u8>, suffix: Option<Seq<u8>>) -> Seq<u8> {
    if s.len() == 0 {
        seq![DOT]
    } else if all_slashes(s) {
        seq![SLASH]
    } else {
        strip_suffix(last_component(s), suffix)
    }
}

/// The bytes of `suffix`, when there is one.
pub open spec fn suffix_bytes(suffix: Option<&str>) -> Option<Seq<u8>> {
    match suffix {
        Some(x) => Some(x.spec_bytes()),
        None => None,
    }
}

/// Whether `s[start..end]` ends with `x` and is longer than it.
fn range_has_proper_suffix(s: &[u8], start: usize, end: usize, x: &[u8]) -> (r: bool)
    requires
        start <= end <= s@.len(),
    ensures
        r == is_proper_suffix(x@, s@.subrange(start as int, end as int)),
{
    let ghost c = s@.subrange(start as int, end as int);
    if x.len() >= end - start {
        return false;
    }
    let base: usize = end - x.len();
    let mut i: usize = 0;
    while i < x.len()
        invariant
            x@.len() < end - start,
            base == end - x@.len(),
            start <= end <= s@.len(),
            i <= x@.len(),
            forall|k: int| 0 <= k < i ==> s@[base + k] == x@[k],
            c == s@.subrange(start as int, end as int),
        decreases x@.len() - i,
    {
        if s[base + i] != x[i] {
            proof {
                assert(c.subrange(c.len() - x@.len(), c.len() as int)[i as int] == s@[base + i]);
            }
            return false;
        }
        i = i + 1;
    }
    proof {
        assert(c.subrange(c.len() - x@.len(), c.len() as int) =~= x@);
    }
    true
}

/// Returns the non-directory portion of the path `string`: `.` for an empty
/// string, `/` for a string of slashes only, and otherwise the last component
/// with `suffix` removed from its end when it ends that component without being
/// all of it. The result is written without a trailing newline.
pub fn basename(string: &str, suffix: Option<&str>) -> (r: Vec<u8>)
    ensures
        r@ == basename_of(string.spec_bytes(), suffix_bytes(suffix)),
{
    let s = string.as_bytes();
    if s.len() == 0 {
        return vec![DOT];
    }
    if is_all_slashes(s) {
        return vec![SLASH];
    }
    let (start, end) = last_component_range(s);
    let ghost c = s@.subrange(start as int, end as int);
    match suffix {
        Some(x) => {
            let xb = x.as_bytes();
            if range_has_proper_suffix(s, start, end, xb) {
                proof {
                    assert(c.take(c.len() - xb@.len()) =~= s@.subrange(
                        start as int,
                        end - xb@.len(),
                    ));
                }
                copy_range(s, start, end - xb.len())
            } else {
                proof {
                    if c != xb@ && xb@.len() == c.len() {
                        assert(c.subrange(0, c.len() as int) =~= c);
                    }
                }
                copy_range(s, start, end)
            }
        },
        None => copy_range(s, start, end),
    }
}

/// A string with no `/` in it is its own base name.
pub proof fn basename_of_plain_name(s: Seq<u8>)
    requires
        s.len() > 0,
        has_no_slash(s),
    ensures
        basename_of(s, None) == s,
{
    assert(s.last() != SLASH);
    assert(!all_slashes(s)) by {
        assert(s[0] != SLASH);
    }
    assert(trim_trailing_slashes(s) == s);
    lemma_no_slash_after(s);
}

proof fn lemma_no_slash_after(s: Seq<u8>)
    requires
        has_no_slash(s),
    ensures
        after_last_slash(s) == s,
    decreases s.len(),
{
    if s.len() > 0 {
        assert(has_no_slash(s.drop_last()));
        lemma_no_slash_after(s.drop_last());
        assert(s.drop_last().push(s.last()) == s);
    }
}

} // verus!
