//! Character-level text matching used to classify exported CSV records.
use vstd::prelude::*;
use vstd::string::*;

verus! {

/// ASCII lowercase of one character; every other character is kept.
pub open spec fn ascii_lower_char(c: char) -> char {
    if 'A' <= c && c <= 'Z' {
        ((c as u8) + 32) as u8 as char
    } else {
        c
    }
}

/// ASCII lowercase of a text, character by character.
pub open spec fn ascii_lower(s: Seq<char>) -> Seq<char> {
    Seq::new(s.len(), |i: int| ascii_lower_char(s[i]))
}

/// `needle` occurs in `hay` as a contiguous run of characters.
pub open spec fn occurs_in(needle: Seq<char>, hay: Seq<char>) -> bool {
    exists|i: int| 0 <= i && i + needle.len() <= hay.len() && #[trigger] hay.subrange(i, i + needle.len()) == needle
}

/// `word` is spelled in `text` from position `i` on, character for character.
pub open spec fn spells_at(text: Seq<char>, i: int, word: Seq<char>) -> bool {
    &&& 0 <= i
    &&& i + word.len() <= text.len()
    &&& forall|j: int| 0 <= j < word.len() ==> text[i + j] == #[trigger] word[j]
}

/// `word` is spelled somewhere in `text`.
pub open spec fn spelled_in(text: Seq<char>, word: Seq<char>) -> bool {
    exists|i: int| spells_at(text, i, word)
}

/// A word occurs in a text exactly when it is spelled at some position of it.
pub proof fn lemma_occurs_in_iff_spelled(word: Seq<char>, text: Seq<char>)
    ensures
        occurs_in(word, text) <==> spelled_in(text, word),
{
    if occurs_in(word, text) {
        let i = choose|i: int| 0 <= i && i + word.len() <= text.len() && #[trigger] text.subrange(i, i + word.len()) == word;
        assert forall|j: int| 0 <= j < word.len() implies text[i + j] == #[trigger] word[j] by {
            assert(text.subrange(i, i + word.len())[j] == text[i + j]);
        }
        assert(spells_at(text, i, word));
    }
    if spelled_in(text, word) {
        let i = choose|i: int| spells_at(text, i, word);
        assert(text.subrange(i, i + word.len()) =~= word);
    }
}

/// The characters of `s`, in order.
pub fn chars_of(s: &str) -> (r: Vec<char>)
    ensures
        r@ == s@,
{
    let n = s.unicode_len();
    let mut out: Vec<char> = Vec::new();
    let mut i: usize = 0;
    while i < n
        invariant
            n == s@.len(),
            i <= n,
            out@ == s@.subrange(0, i as int),
        decreases n - i,
    {
        out.push(s.get_char(i));
        i += 1;
    }
    out
}

/// The ASCII lowercase of `s` (`str::to_ascii_lowercase`), as characters.
pub fn to_ascii_lowercase(s: &str) -> (r: Vec<char>)
    ensures
        r@ == ascii_lower(s@),
{
    let n = s.unicode_len();
    let mut out: Vec<char> = Vec::new();
    let mut i: usize = 0;
    while i < n
        invariant
            n == s@.len(),
            i <= n,
            out@ == ascii_lower(s@.subrange(0, i as int)),
        decreases n - i,
    {
        let c = s.get_char(i);
        let l = if 'A' <= c && c <= 'Z' { ((c as u8) + 32) as char } else { c };
        out.push(l);
        assert(ascii_lower(s@.subrange(0, i + 1)) =~= ascii_lower(s@.subrange(0, i as int)).push(l));
        i += 1;
    }
    assert(s@.subrange(0, n as int) =~= s@);
    out
}

/// Whether `needle` occurs in `hay` (`str::contains`).
pub fn occurs(needle: &str, hay: &Vec<char>) -> (b: bool)
    ensures
        b == occurs_in(needle@, hay@),
{
    let pat = chars_of(needle);
    let m = pat.len();
    let n = hay.len();
    if m > n {
        return false;
    }
    let mut i: usize = 0;
    while i <= n - m
        invariant
            m == needle@.len(),
            n == hay@.len(),
            pat@ == needle@,
            m <= n,
            i <= n - m + 1,
            forall|k: int| 0 <= k < i ==> #[trigger] hay@.subrange(k, k + m) != needle@,
        decreases n - i,
    {
        let mut j: usize = 0;
        let mut same = true;
        while j < m
            invariant
                m == needle@.len(),
                n == hay@.len(),
                pat@ == needle@,
                i + m <= n,
                j <= m,
                same == (forall|t: int| 0 <= t < j ==> hay@[i + t] == pat@[t]),
            decreases m - j,
        {
            if hay[i + j] != pat[j] {
                same = false;
            }
            j += 1;
        }
        if same {
            assert(hay@.subrange(i as int, i + m) =~= needle@);
            return true;
        }
        assert(hay@.subrange(i as int, i + m) != needle@) by {
            let k = choose|t: int| 0 <= t < m && hay@[i + t] != pat@[t];
            assert(hay@.subrange(i as int, i + m)[k] == hay@[i + k]);
        }
        i += 1;
    }
    false
}

/// Whether two texts are equal character for character.
pub fn same_text(a: &str, b: &str) -> (r: bool)
    ensures
        r == (a@ == b@),
{
    let x = chars_of(a);
    let y = chars_of(b);
    if x.len() != y.len() {
        return false;
    }
    let mut i: usize = 0;
    while i < x.len()
        invariant
            x@ == a@,
            y@ == b@,
            x@.len() == y@.len(),
            i <= x@.len(),
            forall|k: int| 0 <= k < i ==> x@[k] == y@[k],
        decreases x@.len() - i,
    {
        if x[i] != y[i] {
            return false;
        }
        i += 1;
    }
    assert(x@ =~= y@);
    true
}

} // verus!
