//! Character-level text normalization used when extracting product fields.

use vstd::prelude::*;

verus! {

/// Characters treated as blank when trimming extracted text.
pub open spec fn is_blank(c: char) -> bool {
    c == ' ' || c == '\t' || c == '\n' || c == '\r'
}

/// `s` with every occurrence of `c` removed.
pub open spec fn remove_char_spec(s: Seq<char>, c: char) -> Seq<char>
    decreases s.len(),
{
    if s.len() == 0 {
        Seq::empty()
    } else if s.last() == c {
        remove_char_spec(s.drop_last(), c)
    } else {
        remove_char_spec(s.drop_last(), c).push(s.last())
    }
}

/// Removes every occurrence of `c` from `s`.
pub fn remove_char(s: &str, c: char) -> (r: String)
    ensures
        r@ == remove_char_spec(s@, c),
{
    let n = s.unicode_len();
    let mut out = String::new();
    let mut i: usize = 0;
    while i < n
        invariant
            n == s@.len(),
            i <= n,
            out@ == remove_char_spec(s@.subrange(0, i as int), c),
        decreases n - i,
    {
        let ch = s.get_char(i);
        if ch != c {
            out.append(s.substring_char(i, i + 1));
        }
        proof {
            assert(s@.subrange(0, i + 1 as int).drop_last() =~= s@.subrange(0, i as int));
            assert(s@.subrange(i as int, i + 1 as int) =~= seq![s@[i as int]]);
        }
        i = i + 1;
    }
    proof {
        assert(s@.subrange(0, n as int) =~= s@);
    }
    out
}

/// `s` with every occurrence of `from` replaced by `to`.
pub open spec fn replace_char_spec(s: Seq<char>, from: char, to: char) -> Seq<char>
    decreases s.len(),
{
    if s.len() == 0 {
        Seq::empty()
    } else if s.last() == from {
        replace_char_spec(s.drop_last(), from, to).push(to)
    } else {
        replace_char_spec(s.drop_last(), from, to).push(s.last())
    }
}

/// Replaces every occurrence of `from` in `s` by `to`.
pub fn replace_char(s: &str, from: char, to: &str) -> (r: String)
    requires
        to@.len() == 1,
    ensures
        r@ == replace_char_spec(s@, from, to@[0]),
{
    let n = s.unicode_len();
    let mut out = String::new();
    let mut i: usize = 0;
    while i < n
        invariant
            n == s@.len(),
            i <= n,
            to@.len() == 1,
            out@ == replace_char_spec(s@.subrange(0, i as int), from, to@[0]),
        decreases n - i,
    {
        let ch = s.get_char(i);
        if ch == from {
            out.append(to);
            proof {
                assert(to@ =~= seq![to@[0]]);
            }
        } else {
            out.append(s.substring_char(i, i + 1));
        }
        proof {
            assert(s@.subrange(0, i + 1 as int).drop_last() =~= s@.subrange(0, i as int));
            assert(s@.subrange(i as int, i + 1 as int) =~= seq![s@[i as int]]);
        }
        i = i + 1;
    }
    proof {
        assert(s@.subrange(0, n as int) =~= s@);
    }
    out
}

/// `s` with every run of consecutive spaces reduced to a single space.
pub open spec fn collapse_spaces_spec(s: Seq<char>) -> Seq<char>
    decreases s.len(),
{
    if s.len() == 0 {
        Seq::empty()
    } else if s.len() == 1 {
        s
    } else if s.last() == ' ' && s[s.len() - 2] == ' ' {
        collapse_spaces_spec(s.drop_last())
    } else {
        collapse_spaces_spec(s.drop_last()).push(s.last())
    }
}

/// Reduces every run of consecutive spaces in `s` to a single space.
pub fn collapse_spaces(s: &str) -> (r: String)
    ensures
        r@ == collapse_spaces_spec(s@),
{
    let n = s.unicode_len();
    let mut out = String::new();
    let mut i: usize = 0;
    while i < n
        invariant
            n == s@.len(),
            i <= n,
            out@ == collapse_spaces_spec(s@.subrange(0, i as int)),
        decreases n - i,
    {
        let ch = s.get_char(i);
        let keep = if i == 0 {
            true
        } else {
            !(ch == ' ' && s.get_char(i - 1) == ' ')
        };
        if keep {
            out.append(s.substring_char(i, i + 1));
        }
        proof {
            let pre = s@.subrange(0, i + 1 as int);
            assert(pre.drop_last() =~= s@.subrange(0, i as int));
            assert(pre.last() == s@[i as int]);
            if i == 0 {
                assert(pre =~= seq![s@[0]]);
            }
            assert(s@.subrange(i as int, i + 1 as int) =~= seq![s@[i as int]]);
        }
        i = i + 1;
    }
    proof {
        assert(s@.subrange(0, n as int) =~= s@);
    }
    out
}

/// The normalized form of a display name: embedded newlines become spaces,
/// then every run of spaces collapses to a single space.
pub open spec fn normalize_name_spec(s: Seq<char>) -> Seq<char> {
    collapse_spaces_spec(replace_char_spec(s, '\n', ' '))
}

/// Normalizes a display name: newlines become spaces and runs of spaces
/// collapse, so `"IKEA   SMASTAD\nShelf"`-shaped inputs come out with
/// single spaces throughout.
pub fn normalize_name(s: &str) -> (r: String)
    ensures
        r@ == normalize_name_spec(s@),
{
    proof {
        reveal_strlit(" ");
    }
    let unfolded = replace_char(s, '\n', " ");
    collapse_spaces(unfolded.as_str())
}

/// `s` with blank characters dropped from the front.
pub open spec fn trim_front_spec(s: Seq<char>) -> Seq<char>
    decreases s.len(),
{
    if s.len() == 0 {
        Seq::empty()
    } else if is_blank(s[0]) {
        trim_front_spec(s.drop_first())
    } else {
        s
    }
}

/// `s` with blank characters dropped from the back.
pub open spec fn trim_back_spec(s: Seq<char>) -> Seq<char>
    decreases s.len(),
{
    if s.len() == 0 {
        Seq::empty()
    } else if is_blank(s.last()) {
        trim_back_spec(s.drop_last())
    } else {
        s
    }
}

/// `s` with blank characters dropped from both ends.
pub open spec fn trim_spec(s: Seq<char>) -> Seq<char> {
    trim_back_spec(trim_front_spec(s))
}

proof fn lemma_trim_front_at(s: Seq<char>, k: int)
    requires
        0 <= k <= s.len(),
        forall|j: int| 0 <= j < k ==> is_blank(s[j]),
        k < s.len() ==> !is_blank(s[k]),
    ensures
        trim_front_spec(s) == s.subrange(k, s.len() as int),
    decreases k,
{
    if k == 0 {
        if s.len() == 0 {
            assert(trim_front_spec(s) =~= s.subrange(0, s.len() as int));
        } else {
            assert(trim_front_spec(s) =~= s.subrange(0, s.len() as int));
        }
    } else {
        assert(is_blank(s[0]));
        let t = s.drop_first();
        assert(forall|j: int| 0 <= j < k - 1 ==> is_blank(t[j]));
        lemma_trim_front_at(t, k - 1);
        assert(t.subrange(k - 1, t.len() as int) =~= s.subrange(k, s.len() as int));
    }
}

proof fn lemma_trim_back_at(s: Seq<char>, k: int)
    requires
        0 <= k <= s.len(),
        forall|j: int| k <= j < s.len() ==> is_blank(s[j]),
        k > 0 ==> !is_blank(s[k - 1]),
    ensures
        trim_back_spec(s) == s.subrange(0, k),
    decreases s.len() - k,
{
    if k == s.len() {
        if s.len() == 0 {
            assert(trim_back_spec(s) =~= s.subrange(0, k));
        } else {
            assert(!is_blank(s.last()));
            assert(trim_back_spec(s) =~= s.subrange(0, k));
        }
    } else {
        assert(is_blank(s.last()));
        let t = s.drop_last();
        lemma_trim_back_at(t, k);
        assert(t.subrange(0, k) =~= s.subrange(0, k));
    }
}

/// Character-for-character equality of two string slices.
pub fn str_eq(a: &str, b: &str) -> (r: bool)
    ensures
        r == (a@ == b@),
{
    let na = a.unicode_len();
    let nb = b.unicode_len();
    if na != nb {
        return false;
    }
    let mut i: usize = 0;
    while i < na
        invariant
            na == a@.len(),
            na == b@.len(),
            i <= na,
            forall|j: int| 0 <= j < i ==> a@[j] == b@[j],
        decreases na - i,
    {
        if a.get_char(i) != b.get_char(i) {
            return false;
        }
        i = i + 1;
    }
    proof {
        assert(a@ =~= b@);
    }
    true
}

/// Whether the character at position `i` of `s` is blank.
fn blank_at(s: &str, i: usize) -> (b: bool)
    requires
        i < s@.len(),
    ensures
        b == is_blank(s@[i as int]),
{
    let c = s.get_char(i);
    c == ' ' || c == '\t' || c == '\n' || c == '\r'
}

/// Drops blank characters from both ends of `s`.
pub fn trim_blank(s: &str) -> (r: String)
    ensures
        r@ == trim_spec(s@),
{
    let n = s.unicode_len();
    let mut start: usize = 0;
    while start < n && blank_at(s, start)
        invariant
            n == s@.len(),
            start <= n,
            forall|j: int| 0 <= j < start ==> is_blank(s@[j]),
        decreases n - start,
    {
        start = start + 1;
    }
    let mut end: usize = n;
    while end > start && blank_at(s, end - 1)
        invariant
            n == s@.len(),
            start <= end <= n,
            forall|j: int| 0 <= j < start ==> is_blank(s@[j]),
            start < n ==> !is_blank(s@[start as int]),
            forall|j: int| end <= j < n ==> is_blank(s@[j]),
        decreases end,
    {
        end = end - 1;
    }
    proof {
        lemma_trim_front_at(s@, start as int);
        let f = s@.subrange(start as int, n as int);
        if end > start {
            assert(!is_blank(s@[end - 1]));
        }
        assert(forall|j: int| end - start <= j < f.len() ==> is_blank(#[trigger] f[j]));
        lemma_trim_back_at(f, end - start);
        assert(f.subrange(0, end - start) =~= s@.subrange(start as int, end as int));
    }
    let r = s.substring_char(start, end);
    r.to_owned()
}

} // verus!
