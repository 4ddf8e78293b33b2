use vstd::prelude::*;
use vstd::string::StringSliceAdditionalSpecFns;

verus! {

/// Index of the last `.` in `s`, or -1 where there is none.
pub open spec fn last_dot(s: Seq<u8>) -> int
    decreases s.len(),
{
    if s.len() == 0 {
        -1
    } else if s.last() == 46 {
        s.len() - 1
    } else {
        last_dot(s.drop_last())
    }
}

/// The extension of a file name: what follows its last `.`, where that `.` is not
/// the name's first byte; ".." has none.
pub open spec fn extension_of(name: Seq<u8>) -> Option<Seq<u8>> {
    let k = last_dot(name);
    if k <= 0 || name == seq![46u8, 46u8] {
        None
    } else {
        Some(name.skip(k + 1))
    }
}

proof fn lemma_last_dot_range(s: Seq<u8>)
    ensures
        -1 <= last_dot(s) < s.len(),
    decreases s.len(),
{
    if s.len() > 0 {
        lemma_last_dot_range(s.drop_last());
    }
}

/// Whether the file name `name` has the extension `ext` (given without its dot).
pub fn has_extension(name: &str, ext: &str) -> (r: bool)
    ensures
        r == (extension_of(name.spec_bytes()) == Some(ext.spec_bytes())),
{
    let b = name.as_bytes();
    let e = ext.as_bytes();
    let ghost bs = b@;
    let mut k: usize = 0;
    let mut found = false;
    let mut i: usize = 0;
    while i < b.len()
        invariant
            i <= bs.len(),
            b@ == bs,
            found ==> k < i && last_dot(bs.take(i as int)) == k,
            !found ==> last_dot(bs.take(i as int)) == -1,
        decreases bs.len() - i,
    {
        assert(bs.take(i as int + 1).drop_last() == bs.take(i as int));
        if b[i] == 46 {
            k = i;
            found = true;
        }
        i = i + 1;
    }
    assert(bs.take(bs.len() as int) == bs);
    if !found || k == 0 {
        return false;
    }
    if b.len() == 2 && b[0] == 46 && b[1] == 46 {
        assert(bs == seq![46u8, 46u8]);
        return false;
    }
    assert(bs != seq![46u8, 46u8]) by {
        if bs == seq![46u8, 46u8] {
            assert(bs.len() == 2 && bs[0] == 46 && bs[1] == 46);
        }
    }
    let start = k + 1;
    assert(extension_of(bs) == Some(bs.skip(start as int)));
    if b.len() - start != e.len() {
        assert(bs.skip(start as int).len() != e@.len());
        return false;
    }
    let blen = b.len();
    let mut j: usize = 0;
    while j < e.len()
        invariant
            blen == b@.len(),
            start <= b@.len(),
            b@ == bs,
            bs == name.spec_bytes(),
            e@ == ext.spec_bytes(),
            extension_of(bs) == Some(bs.skip(start as int)),
            b@.len() - start == e@.len(),
            j <= e@.len(),
            forall|t: int| 0 <= t < j ==> bs.skip(start as int)[t] == e@[t],
        decreases e@.len() - j,
    {
        if b[start + j] != e[j] {
            assert(bs.skip(start as int)[j as int] != e@[j as int]);
            return false;
        }
        j = j + 1;
    }
    assert(bs.skip(start as int) =~= e@);
    true
}

} // verus!
