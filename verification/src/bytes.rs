//! Byte-sequence utilities: pattern search, splitting, prefix tests and
//! whitespace trimming, each proved against a direct mathematical model.

use vstd::prelude::*;

verus! {

/// The pattern `pat` occurs in `s` at position `i`.
pub open spec fn matches_at(s: Seq<u8>, pat: Seq<u8>, i: int) -> bool {
    0 <= i && i + pat.len() <= s.len() && s.subrange(i, i + pat.len()) == pat
}

/// `p` is a prefix of `s`.
pub open spec fn is_prefix_of(p: Seq<u8>, s: Seq<u8>) -> bool {
    p.len() <= s.len() && s.subrange(0, p.len() as int) == p
}

/// Split `s` around the first occurrence of `pat`: the part before the
/// occurrence and the part after it, with the occurrence itself dropped.
/// `None` when `pat` occurs nowhere in `s`.
pub open spec fn split_once_at(s: Seq<u8>, pat: Seq<u8>) -> Option<(Seq<u8>, Seq<u8>)>
    decreases s.len()
        when pat.len() >= 1
{
    if s.len() < pat.len() {
        None
    } else if s.subrange(0, pat.len() as int) == pat {
        Some((Seq::empty(), s.skip(pat.len() as int)))
    } else {
        match split_once_at(s.skip(1), pat) {
            None => None,
            Some((a, b)) => Some((seq![s[0]] + a, b)),
        }
    }
}

/// A successful split accounts for every byte of `s`.
pub proof fn lemma_split_once_shape(s: Seq<u8>, pat: Seq<u8>)
    requires
        pat.len() >= 1,
    ensures
        match split_once_at(s, pat) {
            Some((a, b)) => s == a + pat + b && a.len() + pat.len() + b.len() == s.len(),
            None => true,
        },
    decreases s.len(),
{
    if s.len() < pat.len() {
    } else if s.subrange(0, pat.len() as int) == pat {
        assert(s =~= Seq::<u8>::empty() + pat + s.skip(pat.len() as int));
    } else {
        lemma_split_once_shape(s.skip(1), pat);
        match split_once_at(s.skip(1), pat) {
            None => {}
            Some((a, b)) => {
                assert(s.skip(1) == a + pat + b);
                assert(s =~= seq![s[0]] + s.skip(1));
                assert(s =~= (seq![s[0]] + a) + pat + b);
            }
        }
    }
}

/// The split lands on the first occurrence: if `pat` sits at `i` and at no
/// earlier position, the split yields the bytes before `i` and after the
/// occurrence.
pub proof fn lemma_split_once_found(s: Seq<u8>, pat: Seq<u8>, i: int)
    requires
        pat.len() >= 1,
        matches_at(s, pat, i),
        forall|j: int| 0 <= j < i ==> !matches_at(s, pat, j),
    ensures
        split_once_at(s, pat) == Some((s.take(i), s.skip(i + pat.len()))),
    decreases i,
{
    if i == 0 {
        assert(s.subrange(0, pat.len() as int) == pat);
        assert(s.take(0) =~= Seq::<u8>::empty());
    } else {
        assert(!matches_at(s, pat, 0));
        assert(s.len() >= pat.len());
        assert(s.subrange(0, pat.len() as int) != pat);
        let t = s.skip(1);
        assert(matches_at(t, pat, i - 1)) by {
            assert(t.subrange(i - 1, i - 1 + pat.len()) =~= s.subrange(i, i + pat.len()));
        }
        assert(forall|j: int| 0 <= j < i - 1 ==> !matches_at(t, pat, j)) by {
            assert forall|j: int| 0 <= j < i - 1 implies !matches_at(t, pat, j) by {
                assert(!matches_at(s, pat, j + 1));
                if j + 1 + pat.len() <= s.len() {
                    assert(t.subrange(j, j + pat.len()) =~= s.subrange(j + 1, j + 1 + pat.len()));
                }
            }
        }
        lemma_split_once_found(t, pat, i - 1);
        assert(seq![s[0]] + t.take(i - 1) =~= s.take(i));
        assert(t.skip(i - 1 + pat.len()) =~= s.skip(i + pat.len()));
    }
}

/// When `pat` occurs nowhere in `s`, the split yields nothing.
pub proof fn lemma_split_once_none(s: Seq<u8>, pat: Seq<u8>)
    requires
        pat.len() >= 1,
        forall|j: int| !matches_at(s, pat, j),
    ensures
        split_once_at(s, pat) == None::<(Seq<u8>, Seq<u8>)>,
    decreases s.len(),
{
    if s.len() < pat.len() {
    } else {
        assert(!matches_at(s, pat, 0));
        assert(s.subrange(0, pat.len() as int) != pat);
        let t = s.skip(1);
        assert(forall|j: int| !matches_at(t, pat, j)) by {
            assert forall|j: int| true implies !matches_at(t, pat, j) by {
                if 0 <= j && j + pat.len() <= t.len() {
                    assert(!matches_at(s, pat, j + 1));
                    assert(t.subrange(j, j + pat.len()) =~= s.subrange(j + 1, j + 1 + pat.len()));
                }
            }
        }
        lemma_split_once_none(t, pat);
    }
}

/// Split `s` at every occurrence of `pat`, in order.  A sequence with no
/// occurrence yields itself as the single piece; each occurrence separates
/// two (possibly empty) pieces.
pub open spec fn split_all_at(s: Seq<u8>, pat: Seq<u8>) -> Seq<Seq<u8>>
    decreases s.len()
        when pat.len() >= 1
{
    match split_once_at(s, pat) {
        None => seq![s],
        Some((a, b)) => {
            proof {
                lemma_split_once_shape(s, pat);
            }
            seq![a] + split_all_at(b, pat)
        }
    }
}

/// An ASCII whitespace byte.
pub open spec fn is_ws(b: u8) -> bool {
    b == 32 || b == 9 || b == 10 || b == 13 || b == 11 || b == 12
}

/// `s` without its leading whitespace bytes.
pub open spec fn trim_start(s: Seq<u8>) -> Seq<u8>
    decreases s.len(),
{
    if s.len() > 0 && is_ws(s[0]) {
        trim_start(s.skip(1))
    } else {
        s
    }
}

/// `s` without its trailing whitespace bytes.
pub open spec fn trim_end(s: Seq<u8>) -> Seq<u8>
    decreases s.len(),
{
    if s.len() > 0 && is_ws(s[s.len() - 1]) {
        trim_end(s.take(s.len() - 1))
    } else {
        s
    }
}

/// `s` without surrounding whitespace.
pub open spec fn spec_trim(s: Seq<u8>) -> Seq<u8> {
    trim_end(trim_start(s))
}

/// Index of the first occurrence of `pat` in `s`, or `None`.
pub fn find_pattern(s: &Vec<u8>, pat: &Vec<u8>) -> (r: Option<usize>)
    requires
        pat@.len() >= 1,
    ensures
        match r {
            Some(i) => matches_at(s@, pat@, i as int) && forall|j: int|
                0 <= j < i ==> !matches_at(s@, pat@, j),
            None => forall|j: int| !matches_at(s@, pat@, j),
        },
{
    if s.len() < pat.len() {
        assert(forall|j: int| !matches_at(s@, pat@, j));
        return None;
    }
    let mut i: usize = 0;
    while i <= s.len() - pat.len()
        invariant
            pat@.len() >= 1,
            pat@.len() <= s@.len(),
            i <= s@.len() - pat@.len() + 1,
            forall|j: int| 0 <= j < i ==> !matches_at(s@, pat@, j),
        decreases s@.len() - i,
    {
        let mut k: usize = 0;
        let mut hit = true;
        while hit && k < pat.len()
            invariant
                k <= pat@.len(),
                i + pat@.len() <= s@.len(),
                hit ==> forall|m: int| 0 <= m < k ==> s@[i + m] == pat@[m],
                !hit ==> k < pat@.len() && s@[i + k] != pat@[k as int],
            decreases pat@.len() - k, (if hit { 1int } else { 0int }),
        {
            let n: usize = s.len();
            assert(i + k < n);
            if s[i + k] != pat[k] {
                hit = false;
            } else {
                k += 1;
            }
        }
        if hit {
            assert(s@.subrange(i as int, i + pat@.len()) =~= pat@);
            return Some(i);
        }
        assert(!matches_at(s@, pat@, i as int)) by {
            if s@.subrange(i as int, i + pat@.len()) == pat@ {
                assert(s@[i + k] == s@.subrange(i as int, i + pat@.len())[k as int]);
            }
        }
        i += 1;
    }
    assert(forall|j: int| !matches_at(s@, pat@, j));
    None
}

/// Copy of `s[from..to]`.
pub fn copy_range(s: &Vec<u8>, from: usize, to: usize) -> (r: Vec<u8>)
    requires
        from <= to <= s@.len(),
    ensures
        r@ == s@.subrange(from as int, to as int),
{
    let mut r: Vec<u8> = Vec::new();
    let mut i: usize = from;
    while i < to
        invariant
            from <= i <= to <= s@.len(),
            r@ == s@.subrange(from as int, i as int),
        decreases to - i,
    {
        r.push(s[i]);
        assert(r@ =~= s@.subrange(from as int, i + 1));
        i += 1;
    }
    r
}

/// Split `s` around the first occurrence of `pat`, as `split_once_at` says.
pub fn split_once_bytes(s: &Vec<u8>, pat: &Vec<u8>) -> (r: Option<(Vec<u8>, Vec<u8>)>)
    requires
        pat@.len() >= 1,
    ensures
        match r {
            Some(p) => split_once_at(s@, pat@) == Some((p.0@, p.1@)),
            None => split_once_at(s@, pat@) == None::<(Seq<u8>, Seq<u8>)>,
        },
{
    match find_pattern(s, pat) {
        Some(i) => {
            proof {
                lemma_split_once_found(s@, pat@, i as int);
            }
            let n: usize = s.len();
            assert(i + pat@.len() <= n);
            let a = copy_range(s, 0, i);
            let b = copy_range(s, i + pat.len(), n);
            assert(a@ =~= s@.take(i as int));
            assert(b@ =~= s@.skip(i + pat@.len()));
            Some((a, b))
        }
        None => {
            proof {
                lemma_split_once_none(s@, pat@);
            }
            None
        }
    }
}

/// `p` is a prefix of `s`, decided byte by byte.
pub fn starts_with_bytes(s: &Vec<u8>, p: &Vec<u8>) -> (r: bool)
    ensures
        r == is_prefix_of(p@, s@),
{
    if p.len() > s.len() {
        assert(!is_prefix_of(p@, s@));
        return false;
    }
    let mut k: usize = 0;
    while k < p.len()
        invariant
            k <= p@.len() <= s@.len(),
            forall|m: int| 0 <= m < k ==> s@[m] == p@[m],
        decreases p@.len() - k,
    {
        if s[k] != p[k] {
            assert(!is_prefix_of(p@, s@)) by {
                if s@.subrange(0, p@.len() as int) == p@ {
                    assert(s@[k as int] == s@.subrange(0, p@.len() as int)[k as int]);
                }
            }
            return false;
        }
        k += 1;
    }
    assert(s@.subrange(0, p@.len() as int) =~= p@);
    true
}

/// Equality of two byte vectors.
pub fn bytes_eq(a: &Vec<u8>, b: &Vec<u8>) -> (r: bool)
    ensures
        r == (a@ == b@),
{
    if a.len() != b.len() {
        assert(a@ != b@) by {
            assert(a@.len() != b@.len());
        }
        return false;
    }
    let mut k: usize = 0;
    while k < a.len()
        invariant
            k <= a@.len() == b@.len(),
            forall|m: int| 0 <= m < k ==> a@[m] == b@[m],
        decreases a@.len() - k,
    {
        if a[k] != b[k] {
            return false;
        }
        k += 1;
    }
    assert(a@ =~= b@);
    true
}

/// Append a copy of `src` to `dst`.
pub fn append_bytes(dst: &mut Vec<u8>, src: &Vec<u8>)
    ensures
        final(dst)@ == old(dst)@ + src@,
{
    let mut i: usize = 0;
    while i < src.len()
        invariant
            i <= src@.len(),
            dst@ == old(dst)@ + src@.take(i as int),
        decreases src@.len() - i,
    {
        dst.push(src[i]);
        assert(dst@ =~= old(dst)@ + src@.take(i + 1));
        i += 1;
    }
    assert(dst@ =~= old(dst)@ + src@);
}

/// Split `s` at every occurrence of `pat`, as `split_all_at` says.
pub fn split_all_bytes(s: &Vec<u8>, pat: &Vec<u8>) -> (r: Vec<Vec<u8>>)
    requires
        pat@.len() >= 1,
    ensures
        r.deep_view() == split_all_at(s@, pat@),
{
    let mut out: Vec<Vec<u8>> = Vec::new();
    let mut rest: Vec<u8> = copy_range(s, 0, s.len());
    assert(rest@ =~= s@);
    loop
        invariant
            pat@.len() >= 1,
            split_all_at(s@, pat@) =~= out.deep_view() + split_all_at(rest@, pat@),
        decreases rest@.len(),
    {
        let ghost prev = out.deep_view();
        match split_once_bytes(&rest, pat) {
            Some(p) => {
                proof {
                    lemma_split_once_shape(rest@, pat@);
                }
                let (a, b) = p;
                let ghost ra = a@;
                assert(split_all_at(rest@, pat@) == seq![ra] + split_all_at(b@, pat@));
                out.push(a);
                assert(out.deep_view() =~~= prev + seq![ra]);
                assert(prev + (seq![ra] + split_all_at(b@, pat@)) =~= (prev + seq![ra])
                    + split_all_at(b@, pat@));
                rest = b;
            }
            None => {
                assert(split_all_at(rest@, pat@) == seq![rest@]);
                let ghost rr = rest@;
                out.push(rest);
                assert(out.deep_view() =~~= prev + seq![rr]);
                return out;
            }
        }
    }
}

/// Whether `b` is ASCII whitespace, as `is_ws` says.
pub fn is_ws_byte(b: u8) -> (r: bool)
    ensures
        r == is_ws(b),
{
    b == 32 || b == 9 || b == 10 || b == 13 || b == 11 || b == 12
}

/// `s` without surrounding ASCII whitespace, as `spec_trim` says.
pub fn trim_bytes(s: &Vec<u8>) -> (r: Vec<u8>)
    ensures
        r@ == spec_trim(s@),
{
    let mut lo: usize = 0;
    assert(s@.skip(0) =~= s@);
    while lo < s.len() && is_ws_byte(s[lo])
        invariant
            lo <= s@.len(),
            trim_start(s@) == trim_start(s@.skip(lo as int)),
        decreases s@.len() - lo,
    {
        assert(s@.skip(lo as int).skip(1) =~= s@.skip(lo + 1));
        lo += 1;
    }
    let ghost t = s@.skip(lo as int);
    assert(trim_start(s@) == t);
    let mut hi: usize = s.len();
    assert(t.take(s@.len() - lo) =~= t);
    while hi > lo && is_ws_byte(s[hi - 1])
        invariant
            lo <= hi <= s@.len(),
            t == s@.skip(lo as int),
            trim_end(t) == trim_end(t.take(hi - lo)),
        decreases hi,
    {
        assert(t.take(hi - lo).len() == hi - lo);
        assert(t.take(hi - lo)[hi - lo - 1] == s@[hi - 1]);
        assert(t.take(hi - lo).take(hi - lo - 1) =~= t.take(hi - lo - 1));
        hi -= 1;
    }
    assert(trim_end(t.take(hi - lo)) == t.take(hi - lo)) by {
        if hi > lo {
            assert(t.take(hi - lo)[hi - lo - 1] == s@[hi - 1]);
        }
    }
    assert(t.take(hi - lo) =~= s@.subrange(lo as int, hi as int));
    copy_range(s, lo, hi)
}

} // verus!
