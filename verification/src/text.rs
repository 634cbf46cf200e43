//! Character search over text, with exact specifications.

use vstd::prelude::*;

verus! {

/// The index of the first occurrence of `c` in `s`, or `s.len()` when
/// `c` does not occur.
pub open spec fn spec_first_index_of(s: Seq<char>, c: char) -> int
    decreases s.len(),
{
    if s.len() == 0 {
        0
    } else if s[0] == c {
        0
    } else {
        1 + spec_first_index_of(s.subrange(1, s.len() as int), c)
    }
}

/// What the first-occurrence index means: it is in bounds, the character
/// there (if any) is `c`, and nothing before it is `c`.
pub proof fn lemma_first_index_props(s: Seq<char>, c: char)
    ensures
        0 <= spec_first_index_of(s, c) <= s.len(),
        spec_first_index_of(s, c) < s.len() ==> s[spec_first_index_of(s, c)] == c,
        forall|j: int| 0 <= j < spec_first_index_of(s, c) ==> #[trigger] s[j] != c,
    decreases s.len(),
{
    if s.len() > 0 && s[0] != c {
        let tail = s.subrange(1, s.len() as int);
        lemma_first_index_props(tail, c);
        let fi = spec_first_index_of(s, c);
        assert(fi == 1 + spec_first_index_of(tail, c));
        assert forall|j: int| 0 <= j < fi implies #[trigger] s[j] != c by {
            if j > 0 {
                assert(s[j] == tail[j - 1]);
            }
        }
        if fi < s.len() {
            assert(s[fi] == tail[fi - 1]);
        }
    }
}

/// The first-occurrence index of a sequence known to hold `c` at `i` and
/// nowhere earlier is `i` itself.
pub proof fn lemma_first_index_at(s: Seq<char>, c: char, i: int)
    requires
        0 <= i < s.len(),
        s[i] == c,
        forall|j: int| 0 <= j < i ==> #[trigger] s[j] != c,
    ensures
        spec_first_index_of(s, c) == i,
    decreases i,
{
    if i > 0 {
        let tail = s.subrange(1, s.len() as int);
        assert forall|j: int| 0 <= j < i - 1 implies #[trigger] tail[j] != c by {
            assert(tail[j] == s[j + 1]);
        }
        assert(tail[i - 1] == s[i]);
        lemma_first_index_at(tail, c, i - 1);
    }
}

/// A sequence without `c` has first-occurrence index `s.len()`.
pub proof fn lemma_first_index_none(s: Seq<char>, c: char)
    requires
        forall|j: int| 0 <= j < s.len() ==> #[trigger] s[j] != c,
    ensures
        spec_first_index_of(s, c) == s.len(),
    decreases s.len(),
{
    if s.len() > 0 {
        let tail = s.subrange(1, s.len() as int);
        assert forall|j: int| 0 <= j < tail.len() implies #[trigger] tail[j] != c by {
            assert(tail[j] == s[j + 1]);
        }
        lemma_first_index_none(tail, c);
    }
}

/// Find the first occurrence of a character, if any.
pub fn find_char(s: &str, c: char) -> (r: Option<usize>)
    ensures
        match r {
            Some(i) => i == spec_first_index_of(s@, c) && i < s@.len(),
            None => spec_first_index_of(s@, c) == s@.len(),
        },
{
    let len = s.unicode_len();
    let mut i: usize = 0;
    while i < len
        invariant
            0 <= i <= len,
            len == s@.len(),
            forall|j: int| 0 <= j < i ==> #[trigger] s@[j] != c,
        decreases len - i,
    {
        if s.get_char(i) == c {
            proof {
                lemma_first_index_at(s@, c, i as int);
            }
            return Some(i);
        }
        i = i + 1;
    }
    proof {
        lemma_first_index_none(s@, c);
    }
    None
}

/// ASCII whitespace: space, tab, line feed, carriage return, form feed.
pub open spec fn is_ascii_space(c: char) -> bool {
    c == ' ' || c == '\t' || c == '\n' || c == '\r' || c == '\u{c}'
}

/// The index right after the word starting at `i`: the first index at
/// or past `i` holding whitespace, or the length.
pub open spec fn spec_word_end(s: Seq<char>, i: int) -> int
    decreases s.len() - i,
{
    if i < 0 || i >= s.len() || is_ascii_space(s[i]) {
        i
    } else {
        spec_word_end(s, i + 1)
    }
}

/// The whitespace-separated words of `s`, starting the scan at `i`.
pub open spec fn spec_words_from(s: Seq<char>, i: int) -> Seq<Seq<char>>
    decreases s.len() - i,
{
    if i < 0 || i >= s.len() {
        Seq::empty()
    } else if is_ascii_space(s[i]) {
        spec_words_from(s, i + 1)
    } else {
        let j = spec_word_end(s, i);
        let j2 = if j <= i {
            i + 1
        } else if j > s.len() {
            s.len() as int
        } else {
            j
        };
        seq![s.subrange(i, j2)] + spec_words_from(s, j2)
    }
}

/// The whitespace-separated words of `s`, in order.
pub open spec fn spec_words(s: Seq<char>) -> Seq<Seq<char>> {
    spec_words_from(s, 0)
}

/// Split a string into its ASCII-whitespace-separated words.
pub fn split_words(s: &str) -> (r: Vec<String>)
    ensures
        r@.len() == spec_words(s@).len(),
        forall|l: int| 0 <= l < r@.len() ==> (#[trigger] r@[l])@ == spec_words(s@)[l],
{
    let len = s.unicode_len();
    let mut out: Vec<String> = Vec::new();
    let mut i: usize = 0;
    while i < len
        invariant
            0 <= i <= len,
            len == s@.len(),
            spec_words(s@) == out@.map_values(|t: String| t@) + spec_words_from(s@, i as int),
        decreases len - i,
    {
        let c = s.get_char(i);
        if is_space(c) {
            i = i + 1;
        } else {
            let mut j = i + 1;
            while j < len && !is_space(s.get_char(j))
                invariant
                    i < j <= len,
                    len == s@.len(),
                    spec_word_end(s@, i as int) == spec_word_end(s@, j as int),
                decreases len - j,
            {
                j = j + 1;
            }
            proof {
                assert(spec_word_end(s@, j as int) == j);
            }
            let word = s.substring_char(i, j).to_owned();
            out.push(word);
            proof {
                assert(out@.map_values(|t: String| t@) =~= out@.drop_last().map_values(
                    |t: String| t@,
                ).push(s@.subrange(i as int, j as int)));
            }
            i = j;
        }
    }
    proof {
        assert(spec_words(s@) =~= out@.map_values(|t: String| t@));
        assert forall|l: int| 0 <= l < out@.len() implies (#[trigger] out@[l])@ == spec_words(
            s@,
        )[l] by {
            assert(out@.map_values(|t: String| t@)[l] == out@[l]@);
        }
    }
    out
}

/// A string without its leading ASCII whitespace.
pub open spec fn trim_front_ws(s: Seq<char>) -> Seq<char>
    decreases s.len(),
{
    if s.len() > 0 && is_ascii_space(s[0]) {
        trim_front_ws(s.drop_first())
    } else {
        s
    }
}

/// A string without its trailing ASCII whitespace.
pub open spec fn trim_back_ws(s: Seq<char>) -> Seq<char>
    decreases s.len(),
{
    if s.len() > 0 && is_ascii_space(s.last()) {
        trim_back_ws(s.drop_last())
    } else {
        s
    }
}

/// A string without its leading `<` characters.
pub open spec fn trim_front_lt(s: Seq<char>) -> Seq<char>
    decreases s.len(),
{
    if s.len() > 0 && s[0] == '<' {
        trim_front_lt(s.drop_first())
    } else {
        s
    }
}

/// A string without its trailing `>` characters.
pub open spec fn trim_back_gt(s: Seq<char>) -> Seq<char>
    decreases s.len(),
{
    if s.len() > 0 && s.last() == '>' {
        trim_back_gt(s.drop_last())
    } else {
        s
    }
}

/// Strip surrounding ASCII whitespace.
pub fn trim_ascii(s: &str) -> (r: String)
    ensures
        r@ == trim_back_ws(trim_front_ws(s@)),
{
    let len = s.unicode_len();
    proof {
        assert(s@.subrange(0, len as int) =~= s@);
    }
    let mut a: usize = 0;
    while a < len && is_space(s.get_char(a))
        invariant
            0 <= a <= len,
            len == s@.len(),
            trim_front_ws(s@) == trim_front_ws(s@.subrange(a as int, len as int)),
        decreases len - a,
    {
        proof {
            let cur = s@.subrange(a as int, len as int);
            assert(cur.drop_first() =~= s@.subrange(a + 1 as int, len as int));
        }
        a = a + 1;
    }
    proof {
        let cur = s@.subrange(a as int, len as int);
        assert(trim_front_ws(cur) == cur);
        assert(trim_front_ws(s@) == s@.subrange(a as int, len as int));
    }
    let mut b: usize = len;
    while b > a && is_space(s.get_char(b - 1))
        invariant
            a <= b <= len,
            len == s@.len(),
            trim_front_ws(s@) == s@.subrange(a as int, len as int),
            trim_back_ws(s@.subrange(a as int, len as int)) == trim_back_ws(
                s@.subrange(a as int, b as int),
            ),
        decreases b,
    {
        proof {
            let cur = s@.subrange(a as int, b as int);
            assert(cur.last() == s@[b - 1]);
            assert(cur.drop_last() =~= s@.subrange(a as int, b - 1 as int));
        }
        b = b - 1;
    }
    proof {
        let cur = s@.subrange(a as int, b as int);
        if b == a {
            assert(cur =~= Seq::<char>::empty());
        }
        assert(trim_back_ws(cur) == cur);
    }
    s.substring_char(a, b).to_owned()
}

/// A message id cleaned as mail headers need: surrounding whitespace,
/// then any leading `<` and trailing `>`, removed.
pub open spec fn spec_trim_msgid(s: Seq<char>) -> Seq<char> {
    trim_back_gt(trim_front_lt(trim_back_ws(trim_front_ws(s))))
}

/// Clean one message id: strip surrounding ASCII whitespace and the
/// customary angle brackets.
pub fn trim_msgid(s: &str) -> (r: String)
    ensures
        r@ == spec_trim_msgid(s@),
{
    let len = s.unicode_len();
    proof {
        assert(s@.subrange(0, len as int) =~= s@);
    }
    let mut a: usize = 0;
    while a < len && is_space(s.get_char(a))
        invariant
            0 <= a <= len,
            len == s@.len(),
            trim_front_ws(s@) == trim_front_ws(s@.subrange(a as int, len as int)),
        decreases len - a,
    {
        proof {
            let cur = s@.subrange(a as int, len as int);
            assert(cur.drop_first() =~= s@.subrange(a + 1 as int, len as int));
        }
        a = a + 1;
    }
    proof {
        let cur = s@.subrange(a as int, len as int);
        assert(trim_front_ws(cur) == cur);
        assert(trim_front_ws(s@) == s@.subrange(a as int, len as int));
    }
    let mut b: usize = len;
    while b > a && is_space(s.get_char(b - 1))
        invariant
            a <= b <= len,
            len == s@.len(),
            trim_front_ws(s@) == s@.subrange(a as int, len as int),
            trim_back_ws(s@.subrange(a as int, len as int)) == trim_back_ws(
                s@.subrange(a as int, b as int),
            ),
        decreases b,
    {
        proof {
            let cur = s@.subrange(a as int, b as int);
            assert(cur.last() == s@[b - 1]);
            assert(cur.drop_last() =~= s@.subrange(a as int, b - 1 as int));
        }
        b = b - 1;
    }
    proof {
        let cur = s@.subrange(a as int, b as int);
        if b == a {
            assert(cur =~= Seq::<char>::empty());
        }
        assert(trim_back_ws(cur) == cur);
    }
    let mut a2: usize = a;
    while a2 < b && s.get_char(a2) == '<'
        invariant
            a <= a2 <= b <= len,
            len == s@.len(),
            trim_back_ws(trim_front_ws(s@)) == s@.subrange(a as int, b as int),
            trim_front_lt(s@.subrange(a as int, b as int)) == trim_front_lt(
                s@.subrange(a2 as int, b as int),
            ),
        decreases b - a2,
    {
        proof {
            let cur = s@.subrange(a2 as int, b as int);
            assert(cur.drop_first() =~= s@.subrange(a2 + 1 as int, b as int));
        }
        a2 = a2 + 1;
    }
    proof {
        let cur = s@.subrange(a2 as int, b as int);
        if a2 == b {
            assert(cur =~= Seq::<char>::empty());
        }
        assert(trim_front_lt(cur) == cur);
    }
    let mut b2: usize = b;
    while b2 > a2 && s.get_char(b2 - 1) == '>'
        invariant
            a2 <= b2 <= b <= len,
            len == s@.len(),
            trim_back_ws(trim_front_ws(s@)) == s@.subrange(a as int, b as int),
            trim_front_lt(s@.subrange(a as int, b as int)) == s@.subrange(a2 as int, b as int),
            trim_back_gt(s@.subrange(a2 as int, b as int)) == trim_back_gt(
                s@.subrange(a2 as int, b2 as int),
            ),
        decreases b2,
    {
        proof {
            let cur = s@.subrange(a2 as int, b2 as int);
            assert(cur.last() == s@[b2 - 1]);
            assert(cur.drop_last() =~= s@.subrange(a2 as int, b2 - 1 as int));
        }
        b2 = b2 - 1;
    }
    proof {
        let cur = s@.subrange(a2 as int, b2 as int);
        if b2 == a2 {
            assert(cur =~= Seq::<char>::empty());
        }
        assert(trim_back_gt(cur) == cur);
        assert(spec_trim_msgid(s@) == s@.subrange(a2 as int, b2 as int));
    }
    s.substring_char(a2, b2).to_owned()
}

/// `is_ascii_space`, executed.
pub fn is_space(c: char) -> (r: bool)
    ensures
        r == is_ascii_space(c),
{
    c == ' ' || c == '\t' || c == '\n' || c == '\r' || c == '\u{c}'
}

/// Character-for-character equality of two strings.
pub fn str_eq(a: &str, b: &str) -> (r: bool)
    ensures
        r == (a@ == b@),
{
    let la = a.unicode_len();
    let lb = b.unicode_len();
    if la != lb {
        return false;
    }
    let mut i: usize = 0;
    while i < la
        invariant
            0 <= i <= la,
            la == a@.len(),
            la == b@.len(),
            forall|j: int| 0 <= j < i ==> a@[j] == b@[j],
        decreases la - i,
    {
        if a.get_char(i) != b.get_char(i) {
            return false;
        }
        i = i + 1;
    }
    proof {
        assert(a@ =~= b@);
    }
    true
}

} // verus!
