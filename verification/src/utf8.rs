//! A verified UTF-8 validity check over byte sequences.
//!
//! The model follows the UTF-8 coding rules: one-byte characters below
//! 0x80; two- to four-byte characters whose lead byte fixes the length and
//! whose continuation bytes lie in 0x80..=0xBF, with the restricted ranges
//! that exclude overlong forms, surrogates and values above U+10FFFF.

use vstd::prelude::*;

verus! {

/// A UTF-8 continuation byte.
pub open spec fn is_cont(b: u8) -> bool {
    0x80 <= b && b <= 0xBF
}

/// Length of the well-formed UTF-8 character at the front of `s`, or
/// `None` when the front bytes form no character.
pub open spec fn utf8_char_len(s: Seq<u8>) -> Option<int> {
    if s.len() == 0 {
        None
    } else if s[0] < 0x80 {
        Some(1)
    } else if 0xC2 <= s[0] && s[0] <= 0xDF {
        if s.len() >= 2 && is_cont(s[1]) {
            Some(2)
        } else {
            None
        }
    } else if s[0] == 0xE0 {
        if s.len() >= 3 && 0xA0 <= s[1] && s[1] <= 0xBF && is_cont(s[2]) {
            Some(3)
        } else {
            None
        }
    } else if 0xE1 <= s[0] && s[0] <= 0xEC || s[0] == 0xEE || s[0] == 0xEF {
        if s.len() >= 3 && is_cont(s[1]) && is_cont(s[2]) {
            Some(3)
        } else {
            None
        }
    } else if s[0] == 0xED {
        if s.len() >= 3 && 0x80 <= s[1] && s[1] <= 0x9F && is_cont(s[2]) {
            Some(3)
        } else {
            None
        }
    } else if s[0] == 0xF0 {
        if s.len() >= 4 && 0x90 <= s[1] && s[1] <= 0xBF && is_cont(s[2]) && is_cont(s[3]) {
            Some(4)
        } else {
            None
        }
    } else if 0xF1 <= s[0] && s[0] <= 0xF3 {
        if s.len() >= 4 && is_cont(s[1]) && is_cont(s[2]) && is_cont(s[3]) {
            Some(4)
        } else {
            None
        }
    } else if s[0] == 0xF4 {
        if s.len() >= 4 && 0x80 <= s[1] && s[1] <= 0x8F && is_cont(s[2]) && is_cont(s[3]) {
            Some(4)
        } else {
            None
        }
    } else {
        None
    }
}

/// `s` is a well-formed UTF-8 byte sequence.
pub open spec fn is_valid_utf8(s: Seq<u8>) -> bool
    decreases s.len(),
{
    if s.len() == 0 {
        true
    } else {
        match utf8_char_len(s) {
            None => false,
            Some(n) => {
                if 1 <= n && n <= s.len() {
                    is_valid_utf8(s.skip(n))
                } else {
                    false
                }
            }
        }
    }
}

/// A sequence of bytes below 0x80 is well-formed UTF-8.
pub proof fn lemma_ascii_valid(s: Seq<u8>)
    requires
        forall|k: int| 0 <= k < s.len() ==> #[trigger] s[k] < 0x80,
    ensures
        is_valid_utf8(s),
    decreases s.len(),
{
    if s.len() > 0 {
        assert(s[0] < 0x80);
        assert(utf8_char_len(s) == Some(1int));
        lemma_ascii_valid(s.skip(1));
    }
}

/// Well-formedness of UTF-8 is closed under concatenation.
pub proof fn lemma_utf8_concat(a: Seq<u8>, b: Seq<u8>)
    requires
        is_valid_utf8(a),
        is_valid_utf8(b),
    ensures
        is_valid_utf8(a + b),
    decreases a.len(),
{
    if a.len() == 0 {
        assert(a + b =~= b);
    } else {
        let n = utf8_char_len(a)->Some_0;
        assert(1 <= n <= a.len());
        assert(forall|k: int| 0 <= k < a.len() ==> #[trigger] (a + b)[k] == a[k]);
        assert(utf8_char_len(a + b) == Some(n));
        assert((a + b).skip(n) =~= a.skip(n) + b);
        lemma_utf8_concat(a.skip(n), b);
    }
}

/// Length of the well-formed UTF-8 character starting at `s[i]`, or `None`.
fn char_len_at(s: &Vec<u8>, i: usize) -> (r: Option<usize>)
    requires
        i < s@.len(),
    ensures
        match r {
            Some(n) => utf8_char_len(s@.skip(i as int)) == Some(n as int) && 1 <= n <= s@.len()
                - i,
            None => utf8_char_len(s@.skip(i as int)) == None::<int>,
        },
{
    let ghost t = s@.skip(i as int);
    let n = s.len();
    let b0 = s[i];
    assert(t[0] == s@[i as int]);
    assert(forall|k: int| 0 <= k < t.len() ==> t[k] == s@[i + k]);
    if b0 < 0x80 {
        Some(1)
    } else if 0xC2 <= b0 && b0 <= 0xDF {
        if n - i >= 2 && s[i + 1] >= 0x80 && s[i + 1] <= 0xBF {
            Some(2)
        } else {
            None
        }
    } else if b0 == 0xE0 {
        if n - i >= 3 && s[i + 1] >= 0xA0 && s[i + 1] <= 0xBF && s[i + 2] >= 0x80 && s[i + 2]
            <= 0xBF {
            Some(3)
        } else {
            None
        }
    } else if 0xE1 <= b0 && b0 <= 0xEC || b0 == 0xEE || b0 == 0xEF {
        if n - i >= 3 && s[i + 1] >= 0x80 && s[i + 1] <= 0xBF && s[i + 2] >= 0x80 && s[i + 2]
            <= 0xBF {
            Some(3)
        } else {
            None
        }
    } else if b0 == 0xED {
        if n - i >= 3 && s[i + 1] >= 0x80 && s[i + 1] <= 0x9F && s[i + 2] >= 0x80 && s[i + 2]
            <= 0xBF {
            Some(3)
        } else {
            None
        }
    } else if b0 == 0xF0 {
        if n - i >= 4 && s[i + 1] >= 0x90 && s[i + 1] <= 0xBF && s[i + 2] >= 0x80 && s[i + 2]
            <= 0xBF && s[i + 3] >= 0x80 && s[i + 3] <= 0xBF {
            Some(4)
        } else {
            None
        }
    } else if 0xF1 <= b0 && b0 <= 0xF3 {
        if n - i >= 4 && s[i + 1] >= 0x80 && s[i + 1] <= 0xBF && s[i + 2] >= 0x80 && s[i + 2]
            <= 0xBF && s[i + 3] >= 0x80 && s[i + 3] <= 0xBF {
            Some(4)
        } else {
            None
        }
    } else if b0 == 0xF4 {
        if n - i >= 4 && s[i + 1] >= 0x80 && s[i + 1] <= 0x8F && s[i + 2] >= 0x80 && s[i + 2]
            <= 0xBF && s[i + 3] >= 0x80 && s[i + 3] <= 0xBF {
            Some(4)
        } else {
            None
        }
    } else {
        None
    }
}

/// Whether `s` is well-formed UTF-8, as `is_valid_utf8` says.
pub fn check_utf8(s: &Vec<u8>) -> (r: bool)
    ensures
        r == is_valid_utf8(s@),
{
    let mut i: usize = 0;
    assert(s@.skip(0) =~= s@);
    while i < s.len()
        invariant
            i <= s@.len(),
            is_valid_utf8(s@) == is_valid_utf8(s@.skip(i as int)),
        decreases s@.len() - i,
    {
        match char_len_at(s, i) {
            None => {
                assert(!is_valid_utf8(s@.skip(i as int)));
                return false;
            }
            Some(n) => {
                assert(s@.skip(i as int).skip(n as int) =~= s@.skip(i + n));
                i += n;
            }
        }
    }
    assert(s@.skip(i as int) =~= Seq::<u8>::empty());
    true
}

} // verus!
