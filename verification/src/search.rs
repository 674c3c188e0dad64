//! Verified first-occurrence search of one sequence inside another, over
//! byte buffers and over the characters of texts.  The stdlib's search and
//! containment helpers and the engine's containment operation are built on
//! these.

use vstd::prelude::*;
use vstd::string::StrSliceExecFns;

verus! {

/// The needle occurs in the haystack starting at position `i`.
pub open spec fn slice_matches_at<T>(hay: Seq<T>, needle: Seq<T>, i: int) -> bool {
    &&& 0 <= i
    &&& i + needle.len() <= hay.len()
    &&& hay.subrange(i, i + needle.len()) == needle
}

/// The needle occurs somewhere in the haystack.  An empty needle occurs in
/// every haystack, at position zero.
pub open spec fn has_slice<T>(hay: Seq<T>, needle: Seq<T>) -> bool {
    exists|i: int| slice_matches_at(hay, needle, i)
}

/// First occurrence of one byte sequence inside another: the position of
/// the leftmost match, or nothing when no position matches.
pub fn find_bytes(hay: &Vec<u8>, needle: &Vec<u8>) -> (r: Option<usize>)
    ensures
        match r {
            Some(i) => slice_matches_at(hay@, needle@, i as int) && forall|j: int|
                0 <= j < i ==> !slice_matches_at(hay@, needle@, j),
            None => forall|j: int| !slice_matches_at(hay@, needle@, j),
        },
{
    let hay_len = hay.len();
    let needle_len = needle.len();
    if needle_len > hay_len {
        return None;
    }
    if needle_len == 0 {
        proof {
            assert(hay@.subrange(0, 0) =~= needle@);
        }
        return Some(0);
    }
    let last = hay_len - needle_len;
    let mut i: usize = 0;
    loop
        invariant
            hay_len == hay@.len(),
            needle_len == needle@.len(),
            1 <= needle@.len() <= hay@.len(),
            last == hay@.len() - needle@.len(),
            i <= last + 1,
            forall|j: int| 0 <= j < i ==> !slice_matches_at(hay@, needle@, j),
        decreases last + 1 - i,
    {
        if i > last {
            proof {
                assert forall|j: int| !slice_matches_at(hay@, needle@, j) by {
                    if 0 <= j <= last {
                        assert(!slice_matches_at(hay@, needle@, j));
                    }
                }
            }
            return None;
        }
        let mut k: usize = 0;
        let mut hit = true;
        while k < needle_len
            invariant
                hay_len == hay@.len(),
                needle_len == needle@.len(),
                i + needle@.len() <= hay@.len(),
                k <= needle@.len(),
                hit ==> forall|m: int| 0 <= m < k ==> hay@[i + m] == needle@[m],
                !hit ==> !slice_matches_at(hay@, needle@, i as int),
            decreases needle@.len() - k,
        {
            proof {
                assert(i + k < hay@.len());
            }
            if hay[i + k] != needle[k] {
                proof {
                    assert(hay@.subrange(i as int, i + needle@.len())[k as int] == hay@[i + k]);
                }
                hit = false;
                k = needle_len;
            } else {
                k = k + 1;
            }
        }
        if hit {
            proof {
                assert(hay@.subrange(i as int, i + needle@.len()) =~= needle@);
            }
            return Some(i);
        }
        i = i + 1;
    }
}

/// First occurrence of one text inside another, counting characters: the
/// character position of the leftmost match, or nothing when no position
/// matches.
pub fn find_chars(hay: &str, needle: &str) -> (r: Option<usize>)
    ensures
        match r {
            Some(i) => slice_matches_at(hay@, needle@, i as int) && forall|j: int|
                0 <= j < i ==> !slice_matches_at(hay@, needle@, j),
            None => forall|j: int| !slice_matches_at(hay@, needle@, j),
        },
{
    let hay_len = hay.unicode_len();
    let needle_len = needle.unicode_len();
    if needle_len > hay_len {
        return None;
    }
    if needle_len == 0 {
        proof {
            assert(hay@.subrange(0, 0) =~= needle@);
        }
        return Some(0);
    }
    let last = hay_len - needle_len;
    let mut i: usize = 0;
    loop
        invariant
            hay_len == hay@.len(),
            needle_len == needle@.len(),
            1 <= needle@.len() <= hay@.len(),
            last == hay@.len() - needle@.len(),
            i <= last + 1,
            forall|j: int| 0 <= j < i ==> !slice_matches_at(hay@, needle@, j),
        decreases last + 1 - i,
    {
        if i > last {
            proof {
                assert forall|j: int| !slice_matches_at(hay@, needle@, j) by {
                    if 0 <= j <= last {
                        assert(!slice_matches_at(hay@, needle@, j));
                    }
                }
            }
            return None;
        }
        let mut k: usize = 0;
        let mut hit = true;
        while k < needle_len
            invariant
                hay_len == hay@.len(),
                needle_len == needle@.len(),
                i + needle@.len() <= hay@.len(),
                k <= needle@.len(),
                hit ==> forall|m: int| 0 <= m < k ==> hay@[i + m] == needle@[m],
                !hit ==> !slice_matches_at(hay@, needle@, i as int),
            decreases needle@.len() - k,
        {
            proof {
                assert(i + k < hay@.len());
            }
            if hay.get_char(i + k) != needle.get_char(k) {
                proof {
                    assert(hay@.subrange(i as int, i + needle@.len())[k as int] == hay@[i + k]);
                }
                hit = false;
                k = needle_len;
            } else {
                k = k + 1;
            }
        }
        if hit {
            proof {
                assert(hay@.subrange(i as int, i + needle@.len()) =~= needle@);
            }
            return Some(i);
        }
        i = i + 1;
    }
}

/// Whether one byte sequence occurs inside another.
pub fn bytes_contain(hay: &Vec<u8>, needle: &Vec<u8>) -> (r: bool)
    ensures
        r == has_slice(hay@, needle@),
{
    match find_bytes(hay, needle) {
        Some(_) => true,
        None => false,
    }
}

/// Whether one text occurs inside another.
pub fn chars_contain(hay: &str, needle: &str) -> (r: bool)
    ensures
        r == has_slice(hay@, needle@),
{
    match find_chars(hay, needle) {
        Some(_) => true,
        None => false,
    }
}

/// A text starts with the given prefix.
pub fn chars_start_with(hay: &str, prefix: &str) -> (r: bool)
    ensures
        r == (prefix@.len() <= hay@.len() && hay@.subrange(0, prefix@.len() as int) == prefix@),
{
    let hay_len = hay.unicode_len();
    let prefix_len = prefix.unicode_len();
    if prefix_len > hay_len {
        return false;
    }
    let mut k: usize = 0;
    while k < prefix_len
        invariant
            hay_len == hay@.len(),
            prefix_len == prefix@.len(),
            prefix@.len() <= hay@.len(),
            k <= prefix@.len(),
            forall|m: int| 0 <= m < k ==> hay@[m] == prefix@[m],
        decreases prefix@.len() - k,
    {
        if hay.get_char(k) != prefix.get_char(k) {
            proof {
                assert(hay@.subrange(0, prefix@.len() as int)[k as int] == hay@[k as int]);
            }
            return false;
        }
        k = k + 1;
    }
    proof {
        assert(hay@.subrange(0, prefix@.len() as int) =~= prefix@);
    }
    true
}

/// A text ends with the given suffix.
pub fn chars_end_with(hay: &str, suffix: &str) -> (r: bool)
    ensures
        r == (suffix@.len() <= hay@.len() && hay@.subrange(
            hay@.len() - suffix@.len(),
            hay@.len() as int,
        ) == suffix@),
{
    let hay_len = hay.unicode_len();
    let suffix_len = suffix.unicode_len();
    if suffix_len > hay_len {
        return false;
    }
    let base = hay_len - suffix_len;
    let mut k: usize = 0;
    while k < suffix_len
        invariant
            hay_len == hay@.len(),
            suffix_len == suffix@.len(),
            suffix@.len() <= hay@.len(),
            base == hay@.len() - suffix@.len(),
            k <= suffix@.len(),
            forall|m: int| 0 <= m < k ==> hay@[base + m] == suffix@[m],
        decreases suffix@.len() - k,
    {
        proof {
            assert(base + k < hay@.len());
        }
        if hay.get_char(base + k) != suffix.get_char(k) {
            proof {
                assert(hay@.subrange(hay@.len() - suffix@.len(), hay@.len() as int)[k as int]
                    == hay@[base + k]);
            }
            return false;
        }
        k = k + 1;
    }
    proof {
        assert(hay@.subrange(hay@.len() - suffix@.len(), hay@.len() as int) =~= suffix@);
    }
    true
}

/// A byte buffer starts with the given prefix.
pub fn bytes_start_with(hay: &Vec<u8>, prefix: &Vec<u8>) -> (r: bool)
    ensures
        r == (prefix@.len() <= hay@.len() && hay@.subrange(0, prefix@.len() as int) == prefix@),
{
    let hay_len = hay.len();
    let prefix_len = prefix.len();
    if prefix_len > hay_len {
        return false;
    }
    let mut k: usize = 0;
    while k < prefix_len
        invariant
            hay_len == hay@.len(),
            prefix_len == prefix@.len(),
            prefix@.len() <= hay@.len(),
            k <= prefix@.len(),
            forall|m: int| 0 <= m < k ==> hay@[m] == prefix@[m],
        decreases prefix@.len() - k,
    {
        if hay[k] != prefix[k] {
            proof {
                assert(hay@.subrange(0, prefix@.len() as int)[k as int] == hay@[k as int]);
            }
            return false;
        }
        k = k + 1;
    }
    proof {
        assert(hay@.subrange(0, prefix@.len() as int) =~= prefix@);
    }
    true
}

/// A byte buffer ends with the given suffix.
pub fn bytes_end_with(hay: &Vec<u8>, suffix: &Vec<u8>) -> (r: bool)
    ensures
        r == (suffix@.len() <= hay@.len() && hay@.subrange(
            hay@.len() - suffix@.len(),
            hay@.len() as int,
        ) == suffix@),
{
    let hay_len = hay.len();
    let suffix_len = suffix.len();
    if suffix_len > hay_len {
        return false;
    }
    let base = hay_len - suffix_len;
    let mut k: usize = 0;
    while k < suffix_len
        invariant
            hay_len == hay@.len(),
            suffix_len == suffix@.len(),
            suffix@.len() <= hay@.len(),
            base == hay@.len() - suffix@.len(),
            k <= suffix@.len(),
            forall|m: int| 0 <= m < k ==> hay@[base + m] == suffix@[m],
        decreases suffix@.len() - k,
    {
        proof {
            assert(base + k < hay@.len());
        }
        if hay[base + k] != suffix[k] {
            proof {
                assert(hay@.subrange(hay@.len() - suffix@.len(), hay@.len() as int)[k as int]
                    == hay@[base + k]);
            }
            return false;
        }
        k = k + 1;
    }
    proof {
        assert(hay@.subrange(hay@.len() - suffix@.len(), hay@.len() as int) =~= suffix@);
    }
    true
}

} // verus!
