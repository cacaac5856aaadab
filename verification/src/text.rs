//! Character-level helpers shared by the parsers of the library.

use vstd::prelude::*;

verus! {

/// A character with the Unicode `White_Space` property, the set that
/// `char::is_whitespace` tests for.
pub open spec fn is_white(c: char) -> bool {
    ||| ('\u{9}' <= c && c <= '\u{d}')
    ||| c == ' '
    ||| c == '\u{85}'
    ||| c == '\u{a0}'
    ||| c == '\u{1680}'
    ||| ('\u{2000}' <= c && c <= '\u{200a}')
    ||| c == '\u{2028}'
    ||| c == '\u{2029}'
    ||| c == '\u{202f}'
    ||| c == '\u{205f}'
    ||| c == '\u{3000}'
}

/// Tells whether `c` is a whitespace character.
pub fn is_whitespace(c: char) -> (b: bool)
    ensures
        b == is_white(c),
{
    ('\u{9}' <= c && c <= '\u{d}') || c == ' ' || c == '\u{85}' || c == '\u{a0}' || c
        == '\u{1680}' || ('\u{2000}' <= c && c <= '\u{200a}') || c == '\u{2028}' || c
        == '\u{2029}' || c == '\u{202f}' || c == '\u{205f}' || c == '\u{3000}'
}

/// The words found so far in `s`, and the word being read at its end.
pub open spec fn split_state(s: Seq<char>) -> (Seq<Seq<char>>, Seq<char>)
    decreases s.len(),
{
    if s.len() == 0 {
        (seq![], seq![])
    } else {
        let (words, cur) = split_state(s.drop_last());
        let c = s.last();
        if is_white(c) {
            (if cur.len() > 0 { words.push(cur) } else { words }, seq![])
        } else {
            (words, cur.push(c))
        }
    }
}

/// The maximal runs of non-whitespace characters of `s`, in order.
pub open spec fn words_of(s: Seq<char>) -> Seq<Seq<char>> {
    let (words, cur) = split_state(s);
    if cur.len() > 0 {
        words.push(cur)
    } else {
        words
    }
}

/// Every word is non-empty and holds no whitespace.
pub open spec fn clean_words(words: Seq<Seq<char>>) -> bool {
    forall|i: int|
        0 <= i < words.len() ==> {
            &&& #[trigger] words[i].len() > 0
            &&& forall|j: int| 0 <= j < words[i].len() ==> !is_white(#[trigger] words[i][j])
        }
}

proof fn lemma_split_state_clean(s: Seq<char>)
    ensures
        clean_words(split_state(s).0),
        forall|j: int|
            0 <= j < split_state(s).1.len() ==> !is_white(#[trigger] split_state(s).1[j]),
    decreases s.len(),
{
    if s.len() > 0 {
        lemma_split_state_clean(s.drop_last());
    }
}

/// Splitting on whitespace yields only non-empty words free of whitespace.
pub proof fn lemma_words_clean(s: Seq<char>)
    ensures
        clean_words(words_of(s)),
{
    lemma_split_state_clean(s);
}

/// The characters of `s` that are not whitespace, in order.
pub open spec fn non_white(s: Seq<char>) -> Seq<char>
    decreases s.len(),
{
    if s.len() == 0 {
        seq![]
    } else if is_white(s.last()) {
        non_white(s.drop_last())
    } else {
        non_white(s.drop_last()).push(s.last())
    }
}

/// The words one after the other.
pub open spec fn joined(words: Seq<Seq<char>>) -> Seq<char>
    decreases words.len(),
{
    if words.len() == 0 {
        seq![]
    } else {
        joined(words.drop_last()) + words.last()
    }
}

proof fn lemma_split_state_joined(s: Seq<char>)
    ensures
        joined(split_state(s).0) + split_state(s).1 == non_white(s),
    decreases s.len(),
{
    if s.len() > 0 {
        let t = s.drop_last();
        lemma_split_state_joined(t);
        let (words, cur) = split_state(t);
        if is_white(s.last()) {
            if cur.len() > 0 {
                assert(words.push(cur).drop_last() == words);
                assert(joined(words.push(cur)) + seq![] =~= joined(words) + cur);
            } else {
                assert(joined(words) + seq![] =~= joined(words) + cur);
            }
        } else {
            assert(joined(words) + cur.push(s.last()) =~= (joined(words) + cur).push(s.last()));
        }
    }
}

/// Splitting on whitespace loses no character but the whitespace: the words, one
/// after the other, are the characters of `s` that are not whitespace, in order.
pub proof fn lemma_words_joined(s: Seq<char>)
    ensures
        joined(words_of(s)) == non_white(s),
{
    lemma_split_state_joined(s);
    let (words, cur) = split_state(s);
    if cur.len() > 0 {
        assert(words.push(cur).drop_last() == words);
    } else {
        assert(joined(words) + cur =~= joined(words));
    }
}

/// The view of an optional string.
pub open spec fn opt_view(o: Option<String>) -> Option<Seq<char>> {
    match o {
        Some(s) => Some(s@),
        None => None,
    }
}

/// The views of a vector of strings.
pub open spec fn views(v: Seq<String>) -> Seq<Seq<char>> {
    v.map_values(|w: String| w@)
}

/// Collects the characters of `s` into a vector.
pub fn chars_of(s: &str) -> (r: Vec<char>)
    ensures
        r@ == s@,
{
    let mut r: Vec<char> = Vec::new();
    for c in it: s.chars()
        invariant
            r@ == it.seq().take(it.index() as int),
            it.seq() == s@,
    {
        r.push(c);
    }
    r
}

/// Tells whether `s` reads exactly `lit`.
pub fn equals(s: &str, lit: &[char]) -> (b: bool)
    ensures
        b == (s@ == lit@),
{
    let chars = chars_of(s);
    if chars.len() != lit.len() {
        return false;
    }
    let mut i: usize = 0;
    while i < chars.len()
        invariant
            i <= chars.len(),
            chars.len() == lit.len(),
            chars@ == s@,
            forall|j: int| 0 <= j < i ==> chars@[j] == lit@[j],
        decreases chars.len() - i,
    {
        if chars[i] != lit[i] {
            return false;
        }
        i = i + 1;
    }
    assert(chars@ == lit@);
    true
}

/// Tells whether `s` begins with `prefix`.
pub fn starts_with(s: &str, prefix: &[char]) -> (b: bool)
    ensures
        b == prefix@.is_prefix_of(s@),
{
    let chars = chars_of(s);
    if chars.len() < prefix.len() {
        return false;
    }
    let mut i: usize = 0;
    while i < prefix.len()
        invariant
            i <= prefix.len() <= chars.len(),
            chars@ == s@,
            forall|j: int| 0 <= j < i ==> chars@[j] == prefix@[j],
        decreases prefix.len() - i,
    {
        if chars[i] != prefix[i] {
            return false;
        }
        i = i + 1;
    }
    assert(prefix@ == s@.take(prefix@.len() as int));
    true
}

/// Tells whether two strings hold the same characters.
pub fn same_text(a: &str, b: &str) -> (r: bool)
    ensures
        r == (a@ == b@),
{
    let x = chars_of(b);
    equals(a, x.as_slice())
}

/// `s` without its leading whitespace.
pub open spec fn trim_start(s: Seq<char>) -> Seq<char>
    decreases s.len(),
{
    if s.len() > 0 && is_white(s[0]) {
        trim_start(s.drop_first())
    } else {
        s
    }
}

/// `s` without its trailing whitespace.
pub open spec fn trim_end(s: Seq<char>) -> Seq<char>
    decreases s.len(),
{
    if s.len() > 0 && is_white(s.last()) {
        trim_end(s.drop_last())
    } else {
        s
    }
}

/// `s` without its leading and trailing whitespace, as `str::trim` gives it.
pub open spec fn trimmed(s: Seq<char>) -> Seq<char> {
    trim_end(trim_start(s))
}

proof fn lemma_trim_start_index(s: Seq<char>) -> (a: int)
    ensures
        0 <= a <= s.len(),
        trim_start(s) == s.skip(a),
        forall|i: int| 0 <= i < a ==> is_white(#[trigger] s[i]),
        a < s.len() ==> !is_white(s[a]),
    decreases s.len(),
{
    if s.len() > 0 && is_white(s[0]) {
        let t = s.drop_first();
        let a0 = lemma_trim_start_index(t);
        assert(t.skip(a0) == s.skip(a0 + 1));
        assert forall|i: int| 0 <= i < a0 + 1 implies is_white(#[trigger] s[i]) by {
            if i > 0 {
                assert(s[i] == t[i - 1]);
            }
        }
        assert(a0 < t.len() ==> s[a0 + 1] == t[a0]);
        a0 + 1
    } else {
        assert(s.skip(0) == s);
        0
    }
}

proof fn lemma_trim_end_index(s: Seq<char>) -> (b: int)
    ensures
        0 <= b <= s.len(),
        trim_end(s) == s.take(b),
        forall|i: int| b <= i < s.len() ==> is_white(#[trigger] s[i]),
        b > 0 ==> !is_white(s[b - 1]),
    decreases s.len(),
{
    if s.len() > 0 && is_white(s.last()) {
        let t = s.drop_last();
        let b0 = lemma_trim_end_index(t);
        assert(t.take(b0) == s.take(b0));
        assert forall|i: int| b0 <= i < s.len() implies is_white(#[trigger] s[i]) by {
            if i < s.len() - 1 {
                assert(s[i] == t[i]);
            }
        }
        assert(b0 > 0 ==> s[b0 - 1] == t[b0 - 1]);
        b0
    } else {
        assert(s.take(s.len() as int) == s);
        s.len() as int
    }
}

/// Trimming drops whitespace at both ends and nothing else: the result is a
/// contiguous part of `s`, everything before and after it is whitespace, and it
/// neither begins nor ends with whitespace.
pub proof fn lemma_trimmed(s: Seq<char>) -> (ab: (int, int))
    ensures
        0 <= ab.0 <= ab.1 <= s.len(),
        trimmed(s) == s.subrange(ab.0, ab.1),
        forall|i: int| 0 <= i < ab.0 ==> is_white(#[trigger] s[i]),
        forall|i: int| ab.1 <= i < s.len() ==> is_white(#[trigger] s[i]),
        ab.0 < ab.1 ==> !is_white(s[ab.0]) && !is_white(s[ab.1 - 1]),
{
    let a = lemma_trim_start_index(s);
    let t = s.skip(a);
    let b = lemma_trim_end_index(t);
    assert(t.take(b) == s.subrange(a, a + b));
    assert forall|i: int| a + b <= i < s.len() implies is_white(#[trigger] s[i]) by {
        assert(s[i] == t[i - a]);
    }
    if b > 0 {
        assert(s[a] == t[0]);
        assert(s[a + b - 1] == t[b - 1]);
    }
    (a, a + b)
}

proof fn lemma_trim_start_skip(s: Seq<char>, i: int)
    requires
        0 <= i <= s.len(),
        forall|j: int| 0 <= j < i ==> is_white(#[trigger] s[j]),
    ensures
        trim_start(s) == trim_start(s.skip(i)),
    decreases i,
{
    if i > 0 {
        assert(s.skip(i - 1).drop_first() == s.skip(i));
        assert(s.skip(i - 1)[0] == s[i - 1]);
        lemma_trim_start_skip(s, i - 1);
    } else {
        assert(s.skip(0) == s);
    }
}

proof fn lemma_trim_end_take(s: Seq<char>, k: int)
    requires
        0 <= k <= s.len(),
        forall|j: int| k <= j < s.len() ==> is_white(#[trigger] s[j]),
    ensures
        trim_end(s) == trim_end(s.take(k)),
    decreases s.len() - k,
{
    if k < s.len() {
        assert(s.take(k + 1).drop_last() == s.take(k));
        assert(s.take(k + 1).last() == s[k]);
        lemma_trim_end_take(s, k + 1);
    } else {
        assert(s.take(k) == s);
    }
}

/// `s` without its leading and trailing whitespace.
pub fn trim(s: &str) -> (r: String)
    ensures
        r@ == trimmed(s@),
{
    let chars = chars_of(s);
    let mut i: usize = 0;
    while i < chars.len() && is_whitespace(chars[i])
        invariant
            i <= chars.len(),
            chars@ == s@,
            forall|j: int| 0 <= j < i ==> is_white(#[trigger] chars@[j]),
        decreases chars.len() - i,
    {
        i = i + 1;
    }
    proof {
        lemma_trim_start_skip(s@, i as int);
    }
    let ghost t = s@.skip(i as int);
    let mut k: usize = chars.len();
    while k > i && is_whitespace(chars[k - 1])
        invariant
            i <= k <= chars.len(),
            chars@ == s@,
            t == s@.skip(i as int),
            forall|j: int| k - i <= j < t.len() ==> is_white(#[trigger] t[j]),
        decreases k,
    {
        assert(t[k - 1 - i] == chars@[k - 1]);
        k = k - 1;
    }
    proof {
        lemma_trim_end_take(t, k - i);
        if i < chars.len() {
            assert(!is_white(t[0]));
        }
    }
    let mut out: Vec<char> = Vec::new();
    let mut m: usize = i;
    while m < k
        invariant
            i <= m <= k <= chars.len(),
            chars@ == s@,
            out@ == s@.subrange(i as int, m as int),
        decreases k - m,
    {
        out.push(chars[m]);
        assert(s@.subrange(i as int, m + 1) == s@.subrange(i as int, m as int).push(chars@[m as int]));
        m = m + 1;
    }
    assert(out@ == t.take(k - i));
    string_of(out.as_slice())
}

/// What `str::to_uppercase` gives for `s`: every character mapped to its
/// uppercase form, as the Unicode tables define it.
pub uninterp spec fn upper(s: Seq<char>) -> Seq<char>;

/// Calls `str::to_uppercase`. Claims that the result is what `upper` names for the
/// text.
#[verifier::external_body]
pub fn to_uppercase(s: &str) -> (r: String)
    ensures
        r@ == upper(s@),
{
    s.to_uppercase()
}

/// Builds a string out of characters with `String::from_iter`, which appends them
/// in order: the string holds exactly `chars`.
#[verifier::external_body]
pub fn string_of(chars: &[char]) -> (r: String)
    ensures
        r@ == chars@,
{
    String::from_iter(chars)
}

/// Splits `s` into its whitespace-separated words, as `str::split_whitespace` does.
pub fn split_whitespace(s: &str) -> (r: Vec<String>)
    ensures
        views(r@) == words_of(s@),
{
    let chars = chars_of(s);
    let mut words: Vec<String> = Vec::new();
    let mut cur: Vec<char> = Vec::new();
    let mut i: usize = 0;
    while i < chars.len()
        invariant
            i <= chars.len(),
            chars@ == s@,
            (views(words@), cur@) == split_state(s@.take(i as int)),
        decreases chars.len() - i,
    {
        let c = chars[i];
        assert(s@.take(i + 1).drop_last() == s@.take(i as int));
        if is_whitespace(c) {
            if cur.len() > 0 {
                let w = string_of(cur.as_slice());
                words.push(w);
                assert(views(words@) == views(words@.drop_last()).push(cur@));
            }
            cur = Vec::new();
        } else {
            cur.push(c);
        }
        i = i + 1;
    }
    assert(s@.take(chars.len() as int) == s@);
    if cur.len() > 0 {
        let w = string_of(cur.as_slice());
        words.push(w);
        assert(views(words@) == views(words@.drop_last()).push(cur@));
    }
    words
}

} // verus!
