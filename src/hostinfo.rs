//! Facts a worker reports about its host.
use vstd::prelude::*;

verus! {

/// Unicode whitespace (the `White_Space` property, as `char::is_whitespace`
/// and `str::split_whitespace` use it).
pub open spec fn is_space(c: char) -> bool {
    ('\u{09}' <= c && c <= '\u{0D}') || c == ' ' || c == '\u{85}' || c == '\u{A0}' || c
        == '\u{1680}' || ('\u{2000}' <= c && c <= '\u{200A}') || c == '\u{2028}' || c
        == '\u{2029}' || c == '\u{202F}' || c == '\u{205F}' || c == '\u{3000}'
}

/// End of the line that starts at `i`: the next newline, or the end.
pub open spec fn line_end(s: Seq<char>, i: int) -> int
    decreases s.len() - i,
{
    if i < 0 || i >= s.len() || s[i] == '\n' {
        i
    } else {
        line_end(s, i + 1)
    }
}

/// The first position from `i` on, before `e`, that is not whitespace.
pub open spec fn skip_spaces(s: Seq<char>, i: int, e: int) -> int
    decreases e - i,
{
    if 0 <= i < e && i < s.len() && is_space(s[i]) {
        skip_spaces(s, i + 1, e)
    } else {
        i
    }
}

/// The end of the word that starts at `i`, not past `e`.
pub open spec fn word_end(s: Seq<char>, i: int, e: int) -> int
    decreases e - i,
{
    if 0 <= i < e && i < s.len() && !is_space(s[i]) {
        word_end(s, i + 1, e)
    } else {
        i
    }
}

/// Whether the text from `i` (and before `e`) starts with `p`.
pub open spec fn has_prefix_at(s: Seq<char>, i: int, e: int, p: Seq<char>) -> bool {
    0 <= i && i + p.len() <= e && e <= s.len() && s.subrange(i, i + p.len()) == p
}

/// The domain named by the first `search` or `domain` line from position
/// `i` on: the word that follows the keyword on that line, if any.
pub open spec fn domain_from(s: Seq<char>, i: int) -> Option<Seq<char>>
    decreases s.len() - i,
{
    if i < 0 || i >= s.len() {
        None
    } else {
        let e = line_end(s, i);
        if has_prefix_at(s, i, e, "search "@) || has_prefix_at(s, i, e, "domain "@) {
            let a = skip_spaces(s, i + 7, e);
            if a >= e {
                None
            } else {
                Some(s.subrange(a, word_end(s, a, e)))
            }
        } else if i <= e && e < s.len() {
            domain_from(s, e + 1)
        } else {
            None
        }
    }
}

proof fn lemma_line_end(s: Seq<char>, i: int)
    requires
        0 <= i <= s.len(),
    ensures
        i <= line_end(s, i) <= s.len(),
        line_end(s, i) < s.len() ==> s[line_end(s, i)] == '\n',
    decreases s.len() - i,
{
    if i < s.len() && s[i] != '\n' {
        lemma_line_end(s, i + 1);
    }
}

fn is_space_char(c: char) -> (r: bool)
    ensures
        r == is_space(c),
{
    ('\u{09}' <= c && c <= '\u{0D}') || c == ' ' || c == '\u{85}' || c == '\u{A0}' || c
        == '\u{1680}' || ('\u{2000}' <= c && c <= '\u{200A}') || c == '\u{2028}' || c
        == '\u{2029}' || c == '\u{202F}' || c == '\u{205F}' || c == '\u{3000}'
}

fn prefix_at(text: &str, i: usize, e: usize, p: &str) -> (r: bool)
    requires
        i <= e <= text@.len(),
    ensures
        r == has_prefix_at(text@, i as int, e as int, p@),
{
    let m = p.unicode_len();
    if e - i < m {
        return false;
    }
    let mut k: usize = 0;
    while k < m
        invariant
            k <= m,
            m == p@.len(),
            i + m <= e <= text@.len(),
            forall|j: int| 0 <= j < k ==> text@[i + j] == p@[j],
        decreases m - k,
    {
        if text.get_char(i + k) != p.get_char(k) {
            proof {
                assert(text@.subrange(i as int, i + m)[k as int] != p@[k as int]);
            }
            return false;
        }
        k = k + 1;
    }
    proof {
        assert(text@.subrange(i as int, i + m) =~= p@);
    }
    true
}

/// The DNS domain that resolver configuration text names: the word after
/// the keyword on its first line that starts with `search ` or `domain `.
pub fn domain_from_resolv_conf(content: &str) -> (r: Option<String>)
    ensures
        match (r, domain_from(content@, 0)) {
            (Some(d), Some(e)) => d@ == e,
            (None, None) => true,
            _ => false,
        },
{
    let ghost s = content@;
    let n = content.unicode_len();
    let mut i: usize = 0;
    while i < n
        invariant
            i <= n,
            n == s.len(),
            s == content@,
            domain_from(s, 0) == domain_from(s, i as int),
        decreases n - i,
    {
        let mut e = i;
        while e < n && content.get_char(e) != '\n'
            invariant
                i <= e <= n,
                n == s.len(),
                s == content@,
                line_end(s, i as int) == line_end(s, e as int),
            decreases n - e,
        {
            e = e + 1;
        }
        proof {
            lemma_line_end(s, i as int);
            assert(line_end(s, i as int) == e);
        }
        if prefix_at(content, i, e, "search ") || prefix_at(content, i, e, "domain ") {
            proof {
                reveal_strlit("search ");
                reveal_strlit("domain ");
            }
            let mut a = i + 7;
            while a < e && is_space_char(content.get_char(a))
                invariant
                    i + 7 <= a <= e,
                    e <= n,
                    n == s.len(),
                    s == content@,
                    skip_spaces(s, i + 7, e as int) == skip_spaces(s, a as int, e as int),
                decreases e - a,
            {
                a = a + 1;
            }
            if a >= e {
                return None;
            }
            let mut b = a;
            while b < e && !is_space_char(content.get_char(b))
                invariant
                    a <= b <= e,
                    e <= n,
                    n == s.len(),
                    s == content@,
                    word_end(s, a as int, e as int) == word_end(s, b as int, e as int),
                decreases e - b,
            {
                b = b + 1;
            }
            return Some(String::from_str(content.substring_char(a, b)));
        }
        if e >= n {
            return None;
        }
        i = e + 1;
    }
    None
}

} // verus!
