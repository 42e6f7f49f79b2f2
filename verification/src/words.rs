//! Words that are read without regard to the case of their letters.

use crate::chars::chars_of;
use vstd::prelude::*;

verus! {

/// Whether two texts hold the same characters.
pub fn same_text(a: &str, b: &str) -> (same: bool)
    ensures
        same == (a@ == b@),
{
    let x = chars_of(a);
    let y = chars_of(b);
    if x.len() != y.len() {
        return false;
    }
    let mut i: usize = 0;
    while i < x.len()
        invariant
            i <= x.len(),
            x.len() == y.len(),
            x@ == a@,
            y@ == b@,
            forall|k: int| 0 <= k < i ==> a@[k] == b@[k],
        decreases x.len() - i,
    {
        if x[i] != y[i] {
            assert(a@[i as int] != b@[i as int]);
            return false;
        }
        i += 1;
    }
    assert(a@ =~= b@);
    true
}

/// Whether `word` is the word that `lower` gives in small letters and `upper`
/// in capital letters, in whatever mix of the two.
pub open spec fn same_word(word: Seq<char>, lower: Seq<char>, upper: Seq<char>) -> bool {
    &&& word.len() == lower.len()
    &&& word.len() == upper.len()
    &&& forall|i: int| 0 <= i < word.len() ==> word[i] == lower[i] || word[i] == upper[i]
}

/// Whether `word` is the word that `lower` gives in small letters and `upper`
/// in capital letters, in whatever mix of the two.
pub fn is_word(word: &str, lower: &str, upper: &str) -> (b: bool)
    ensures
        b == same_word(word@, lower@, upper@),
{
    let w = chars_of(word);
    let l = chars_of(lower);
    let u = chars_of(upper);
    if w.len() != l.len() || w.len() != u.len() {
        return false;
    }
    let mut i: usize = 0;
    while i < w.len()
        invariant
            i <= w.len(),
            w@ == word@,
            l@ == lower@,
            u@ == upper@,
            w.len() == l.len(),
            w.len() == u.len(),
            forall|k: int| 0 <= k < i ==> word@[k] == lower@[k] || word@[k] == upper@[k],
        decreases w.len() - i,
    {
        if w[i] != l[i] && w[i] != u[i] {
            assert(!(word@[i as int] == lower@[i as int] || word@[i as int] == upper@[i as int]));
            return false;
        }
        i += 1;
    }
    true
}

/// Whether `word` is `hkx`, in whatever case.
pub open spec fn is_hkx_word(word: Seq<char>) -> bool {
    same_word(word, "hkx"@, "HKX"@)
}

/// Whether `word` is `xml`, in whatever case.
pub open spec fn is_xml_word(word: Seq<char>) -> bool {
    same_word(word, "xml"@, "XML"@)
}

/// Whether `word` is `amd64`, in whatever case.
pub open spec fn is_amd64_word(word: Seq<char>) -> bool {
    same_word(word, "amd64"@, "AMD64"@)
}

/// Whether `word` is `win32`, in whatever case.
pub open spec fn is_win32_word(word: Seq<char>) -> bool {
    same_word(word, "win32"@, "WIN32"@)
}

} // verus!
