//! Verified text utilities: whitespace trimming, word counting, substring
//! containment and character-wise string equality. They underpin the
//! headline filter and the site-rule resolver.

use vstd::prelude::*;
use vstd::string::StrSliceExecFns;
use vstd::string::StringExecFns;

verus! {

/// The characters counted as whitespace: the Unicode `White_Space` set,
/// matching what `str::trim` and `str::split_whitespace` strip.
pub open spec fn is_space(c: char) -> bool {
    c == ' ' || c == '\t' || c == '\n' || c == '\u{000B}' || c == '\u{000C}' || c == '\r'
        || c == '\u{0085}' || c == '\u{00A0}' || c == '\u{1680}' || c == '\u{2000}'
        || c == '\u{2001}' || c == '\u{2002}' || c == '\u{2003}' || c == '\u{2004}'
        || c == '\u{2005}' || c == '\u{2006}' || c == '\u{2007}' || c == '\u{2008}'
        || c == '\u{2009}' || c == '\u{200A}' || c == '\u{2028}' || c == '\u{2029}'
        || c == '\u{202F}' || c == '\u{205F}' || c == '\u{3000}'
}

/// Runtime test for [`is_space`].
pub fn is_space_char(c: char) -> (r: bool)
    ensures
        r == is_space(c),
{
    c == ' ' || c == '\t' || c == '\n' || c == '\u{000B}' || c == '\u{000C}' || c == '\r'
        || c == '\u{0085}' || c == '\u{00A0}' || c == '\u{1680}' || c == '\u{2000}'
        || c == '\u{2001}' || c == '\u{2002}' || c == '\u{2003}' || c == '\u{2004}'
        || c == '\u{2005}' || c == '\u{2006}' || c == '\u{2007}' || c == '\u{2008}'
        || c == '\u{2009}' || c == '\u{200A}' || c == '\u{2028}' || c == '\u{2029}'
        || c == '\u{202F}' || c == '\u{205F}' || c == '\u{3000}'
}

/// The sequence with leading whitespace removed.
pub open spec fn trim_front(s: Seq<char>) -> Seq<char>
    decreases s.len(),
{
    if s.len() == 0 {
        s
    } else if is_space(s[0]) {
        trim_front(s.drop_first())
    } else {
        s
    }
}

/// The sequence with trailing whitespace removed.
pub open spec fn trim_back(s: Seq<char>) -> Seq<char>
    decreases s.len(),
{
    if s.len() == 0 {
        s
    } else if is_space(s.last()) {
        trim_back(s.drop_last())
    } else {
        s
    }
}

/// The sequence with both leading and trailing whitespace removed.
pub open spec fn trimmed(s: Seq<char>) -> Seq<char> {
    trim_back(trim_front(s))
}

/// A non-empty front-trimmed sequence starts with a non-space character.
pub proof fn lemma_trim_front_no_leading(s: Seq<char>)
    ensures
        trim_front(s).len() > 0 ==> !is_space(trim_front(s)[0]),
    decreases s.len(),
{
    if s.len() > 0 && is_space(s[0]) {
        lemma_trim_front_no_leading(s.drop_first());
    }
}

/// A non-empty back-trimmed sequence ends with a non-space character.
pub proof fn lemma_trim_back_no_trailing(s: Seq<char>)
    ensures
        trim_back(s).len() > 0 ==> !is_space(trim_back(s).last()),
    decreases s.len(),
{
    if s.len() > 0 && is_space(s.last()) {
        lemma_trim_back_no_trailing(s.drop_last());
    }
}

/// Back-trimming never touches a non-space first character.
pub proof fn lemma_trim_back_keeps_first(s: Seq<char>)
    requires
        s.len() > 0,
        !is_space(s[0]),
    ensures
        trim_back(s).len() > 0,
        trim_back(s)[0] == s[0],
    decreases s.len(),
{
    if is_space(s.last()) {
        assert(s.len() > 1);
        lemma_trim_back_keeps_first(s.drop_last());
    }
}

/// Trimming an already-trimmed sequence changes nothing.
pub proof fn lemma_trimmed_idempotent(s: Seq<char>)
    ensures
        trimmed(trimmed(s)) == trimmed(s),
{
    let u = trim_front(s);
    let t = trim_back(u);
    if t.len() > 0 {
        assert(u.len() > 0);
        lemma_trim_front_no_leading(s);
        lemma_trim_back_keeps_first(u);
        assert(!is_space(t[0]));
        assert(trim_front(t) == t);
        lemma_trim_back_no_trailing(u);
        assert(trim_back(t) == t);
    }
}

/// Runtime trim, equal to [`trimmed`] of the view.
pub fn trim_str(s: &str) -> (r: String)
    ensures
        r@ == trimmed(s@),
{
    let n: usize = s.unicode_len();
    let mut i: usize = 0;
    proof {
        assert(s@.skip(0) =~= s@);
    }
    while i < n && is_space_char(s.get_char(i))
        invariant
            i <= n,
            n == s@.len(),
            trim_front(s@) == trim_front(s@.skip(i as int)),
        decreases n - i,
    {
        proof {
            assert(s@.skip(i as int)[0] == s@[i as int]);
            assert(s@.skip(i as int).drop_first() =~= s@.skip(i as int + 1));
        }
        i = i + 1;
    }
    if i == n {
        proof {
            assert(s@.skip(n as int) =~= Seq::<char>::empty());
            assert(trim_front(s@).len() == 0);
            assert(trimmed(s@) =~= Seq::<char>::empty());
            reveal_strlit("");
            assert(""@ =~= Seq::<char>::empty());
        }
        return String::from_str("");
    }
    proof {
        assert(s@.skip(i as int)[0] == s@[i as int]);
        assert(trim_front(s@) == s@.skip(i as int));
    }
    let ghost t = trim_front(s@);
    let mut j: usize = n;
    while j > i && is_space_char(s.get_char(j - 1))
        invariant
            i <= j <= n,
            n == s@.len(),
            i < n,
            t == trim_front(s@),
            t == s@.skip(i as int),
            trim_back(t) == trim_back(s@.subrange(i as int, j as int)),
        decreases j,
    {
        proof {
            let sub = s@.subrange(i as int, j as int);
            assert(sub.last() == s@[j - 1]);
            assert(sub.drop_last() =~= s@.subrange(i as int, j - 1));
        }
        j = j - 1;
    }
    proof {
        let sub = s@.subrange(i as int, j as int);
        if j == i {
            assert(sub.len() == 0);
            assert(trim_back(sub) == sub);
        } else {
            assert(sub.last() == s@[j - 1]);
            assert(!is_space(sub.last()));
            assert(trim_back(sub) == sub);
        }
        assert(trimmed(s@) == sub);
    }
    let piece = s.substring_char(i, j);
    piece.to_owned()
}

/// Words are maximal runs of non-space characters; `in_word` says whether
/// the character just before `s` belonged to a word.
pub open spec fn words_from(s: Seq<char>, in_word: bool) -> nat
    decreases s.len(),
{
    if s.len() == 0 {
        0
    } else {
        let now_word = !is_space(s[0]);
        (if now_word && !in_word {
            1nat
        } else {
            0nat
        }) + words_from(s.drop_first(), now_word)
    }
}

/// The number of whitespace-delimited words in a sequence, as
/// `str::split_whitespace` counts them.
pub open spec fn word_count(s: Seq<char>) -> nat {
    words_from(s, false)
}

/// Runtime word count, equal to [`word_count`] of the view.
pub fn word_count_str(s: &str) -> (r: usize)
    ensures
        r == word_count(s@),
{
    let n: usize = s.unicode_len();
    let mut count: usize = 0;
    let mut in_word = false;
    let mut i: usize = 0;
    proof {
        assert(s@.skip(0) =~= s@);
    }
    while i < n
        invariant
            i <= n,
            n == s@.len(),
            count <= i,
            word_count(s@) == count + words_from(s@.skip(i as int), in_word),
        decreases n - i,
    {
        let c = s.get_char(i);
        proof {
            assert(s@.skip(i as int)[0] == s@[i as int]);
            assert(s@.skip(i as int).drop_first() =~= s@.skip(i as int + 1));
        }
        let now_word = !is_space_char(c);
        if now_word && !in_word {
            count = count + 1;
        }
        in_word = now_word;
        i = i + 1;
    }
    proof {
        assert(s@.skip(n as int) =~= Seq::<char>::empty());
    }
    count
}

/// `n` occurs in `h` starting at position `i`.
pub open spec fn match_at(h: Seq<char>, n: Seq<char>, i: int) -> bool {
    0 <= i && i + n.len() <= h.len() && h.subrange(i, i + n.len() as int) == n
}

/// `n` occurs somewhere in `h`: substring containment.
pub open spec fn contains_seq(h: Seq<char>, n: Seq<char>) -> bool {
    exists|i: int| match_at(h, n, i)
}

fn matches_at(h: &str, n: &str, i: usize) -> (r: bool)
    requires
        i + n@.len() <= h@.len(),
    ensures
        r == match_at(h@, n@, i as int),
{
    let hl: usize = h.unicode_len();
    let nl: usize = n.unicode_len();
    let mut j: usize = 0;
    while j < nl
        invariant
            j <= nl,
            hl == h@.len(),
            nl == n@.len(),
            i + nl <= h@.len(),
            forall|k: int| 0 <= k < j ==> h@[i + k] == n@[k],
        decreases nl - j,
    {
        if h.get_char(i + j) != n.get_char(j) {
            proof {
                let sub = h@.subrange(i as int, i + nl as int);
                assert(sub[j as int] == h@[i + j]);
                assert(sub != n@);
            }
            return false;
        }
        j = j + 1;
    }
    proof {
        assert(h@.subrange(i as int, i + nl as int) =~= n@);
    }
    true
}

/// Runtime substring test, equal to [`contains_seq`] on the views.
pub fn contains_str(h: &str, n: &str) -> (r: bool)
    ensures
        r == contains_seq(h@, n@),
{
    let hl: usize = h.unicode_len();
    let nl: usize = n.unicode_len();
    if nl > hl {
        proof {
            assert forall|k: int| !match_at(h@, n@, k) by {}
        }
        return false;
    }
    if nl == 0 {
        proof {
            assert(h@.subrange(0, 0) =~= n@);
            assert(match_at(h@, n@, 0));
        }
        return true;
    }
    let bound: usize = hl - nl;
    let mut i: usize = 0;
    while i <= bound
        invariant
            hl == h@.len(),
            nl == n@.len(),
            1 <= nl <= hl,
            bound == hl - nl,
            i <= bound + 1,
            forall|k: int| 0 <= k < i ==> !match_at(h@, n@, k),
        decreases bound + 1 - i,
    {
        if matches_at(h, n, i) {
            return true;
        }
        i = i + 1;
    }
    proof {
        assert forall|k: int| !match_at(h@, n@, k) by {
            if 0 <= k && k + n@.len() <= h@.len() {
                assert(k <= bound);
            }
        }
    }
    false
}

/// Runtime string equality, equal to view equality.
pub fn str_eq(a: &str, b: &str) -> (r: bool)
    ensures
        r == (a@ == b@),
{
    let al: usize = a.unicode_len();
    let bl: usize = b.unicode_len();
    if al != bl {
        return false;
    }
    let mut i: usize = 0;
    while i < al
        invariant
            al == a@.len(),
            bl == b@.len(),
            al == bl,
            i <= al,
            forall|k: int| 0 <= k < i ==> a@[k] == b@[k],
        decreases al - i,
    {
        if a.get_char(i) != b.get_char(i) {
            return false;
        }
        i = i + 1;
    }
    proof {
        assert(a@ =~= b@);
    }
    true
}

} // verus!
