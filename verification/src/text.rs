//! Text helpers shared by the rest of the library.

use vstd::prelude::*;

verus! {

/// The characters of a text.
pub fn chars_of(text: &str) -> (r: Vec<char>)
    ensures
        r@ == text@,
{
    let mut chars: Vec<char> = Vec::new();
    for c in it: text.chars()
        invariant
            it.seq() == text@,
            chars@ == it.seq().take(it.index() as int),
    {
        chars.push(c);
        assert(chars@ =~= it.seq().take(it.index() + 1));
    }
    assert(chars@ =~= text@);
    chars
}

/// Whether the two texts are the same.
pub fn str_equal(a: &str, b: &str) -> (r: bool)
    ensures
        r == (a@ == b@),
{
    a.to_owned() == b.to_owned()
}

/// Whether `part` stands somewhere in `whole`, character after character.
pub open spec fn occurs_in(part: Seq<char>, whole: Seq<char>) -> bool {
    exists|i: int|
        0 <= i && i + part.len() <= whole.len() && #[trigger] whole.subrange(
            i,
            i + part.len(),
        ) == part
}

/// Whether `part` stands somewhere in `whole`.
pub fn contains_text(whole: &str, part: &str) -> (r: bool)
    ensures
        r == occurs_in(part@, whole@),
{
    let hay = chars_of(whole);
    let needle = chars_of(part);
    let n = hay.len();
    let m = needle.len();
    if m > n {
        return false;
    }
    let mut i: usize = 0;
    while i <= n - m
        invariant
            m <= n,
            i <= n - m + 1,
            n == hay@.len(),
            m == needle@.len(),
            hay@ == whole@,
            needle@ == part@,
            forall|k: int| 0 <= k < i ==> #[trigger] hay@.subrange(k, k + m) != needle@,
        decreases n - m + 1 - i,
    {
        let mut j: usize = 0;
        while j < m && hay[i + j] == needle[j]
            invariant
                j <= m,
                i + m <= n,
                n == hay@.len(),
                m == needle@.len(),
                forall|t: int| 0 <= t < j ==> hay@[i + t] == needle@[t],
            decreases m - j,
        {
            j += 1;
        }
        if j == m {
            assert(hay@.subrange(i as int, i + m) =~= needle@);
            return true;
        }
        assert(hay@.subrange(i as int, i + m)[j as int] != needle@[j as int]);
        i += 1;
    }
    false
}

/// The position of the last `c` in `s`, or -1 where `s` holds none.
pub open spec fn last_index_of(s: Seq<char>, c: char) -> int
    decreases s.len(),
{
    if s.len() == 0 {
        -1
    } else if s.last() == c {
        s.len() - 1
    } else {
        last_index_of(s.drop_last(), c)
    }
}

/// The extension of a file name: what follows its last `.`, unless the name
/// has no `.` or only the one it starts with.
pub open spec fn extension_of(name: Seq<char>) -> Option<Seq<char>> {
    let dot = last_index_of(name, '.');
    if dot <= 0 {
        None
    } else {
        Some(name.skip(dot + 1))
    }
}

/// The extension of a file name.
pub fn extension(name: &str) -> (r: Option<String>)
    ensures
        match r {
            Some(e) => extension_of(name@) == Some(e@),
            None => extension_of(name@) is None,
        },
{
    let chars = chars_of(name);
    let n = chars.len();
    let mut i: usize = n;
    assert(name@.take(n as int) =~= name@);
    while i > 0
        invariant
            i <= n,
            n == name@.len(),
            chars@ == name@,
            last_index_of(name@, '.') == last_index_of(name@.take(i as int), '.'),
        decreases i,
    {
        let ghost head = name@.take(i as int);
        assert(head.last() == name@[i - 1]);
        assert(head.drop_last() =~= name@.take(i - 1));
        if chars[i - 1] == '.' {
            if i == 1 {
                return None;
            }
            return Some(name.substring_char(i, n).to_owned());
        }
        i -= 1;
    }
    None
}

/// Whether `c` has the Unicode property White_Space: the controls from tab
/// to carriage return, space, next line, no-break space, the ogham space
/// mark, the spaces from en quad to hair space, line and paragraph
/// separator, narrow no-break space, medium mathematical space and
/// ideographic space.
pub open spec fn white_space(c: char) -> bool {
    ||| '\u{9}' <= c <= '\u{d}'
    ||| c == '\u{20}'
    ||| c == '\u{85}'
    ||| c == '\u{a0}'
    ||| c == '\u{1680}'
    ||| '\u{2000}' <= c <= '\u{200a}'
    ||| c == '\u{2028}'
    ||| c == '\u{2029}'
    ||| c == '\u{202f}'
    ||| c == '\u{205f}'
    ||| c == '\u{3000}'
}

/// A set of characters that count as blank.
#[derive(Clone, Copy, Debug, PartialEq, Eq, Structural)]
pub enum Blanks {
    /// Every character with the Unicode property White_Space.
    WhiteSpace,
    /// Space, tab, line feed and carriage return.
    Plain,
}

/// Whether `c` is blank.
pub open spec fn blank(blanks: Blanks, c: char) -> bool {
    match blanks {
        Blanks::WhiteSpace => white_space(c),
        Blanks::Plain => c == ' ' || c == '\t' || c == '\n' || c == '\r',
    }
}

/// `s` without the blanks it starts with.
pub open spec fn trim_start_of(blanks: Blanks, s: Seq<char>) -> Seq<char>
    decreases s.len(),
{
    if s.len() > 0 && blank(blanks, s[0]) {
        trim_start_of(blanks, s.drop_first())
    } else {
        s
    }
}

/// `s` without the blanks it ends with.
pub open spec fn trim_end_of(blanks: Blanks, s: Seq<char>) -> Seq<char>
    decreases s.len(),
{
    if s.len() > 0 && blank(blanks, s.last()) {
        trim_end_of(blanks, s.drop_last())
    } else {
        s
    }
}

/// `s` without the blanks around it.
pub open spec fn trimmed(blanks: Blanks, s: Seq<char>) -> Seq<char> {
    trim_end_of(blanks, trim_start_of(blanks, s))
}

/// Whether `c` is blank.
pub fn is_blank(blanks: Blanks, c: char) -> (r: bool)
    ensures
        r == blank(blanks, c),
{
    match blanks {
        Blanks::WhiteSpace => {
            ('\u{9}' <= c && c <= '\u{d}') || c == '\u{20}' || c == '\u{85}' || c == '\u{a0}'
                || c == '\u{1680}' || ('\u{2000}' <= c && c <= '\u{200a}') || c == '\u{2028}'
                || c == '\u{2029}' || c == '\u{202f}' || c == '\u{205f}' || c == '\u{3000}'
        },
        Blanks::Plain => c == ' ' || c == '\t' || c == '\n' || c == '\r',
    }
}

/// Whether `text`, without the blanks around it, is `expected`.
pub fn trimmed_equals(blanks: Blanks, text: &str, expected: &str) -> (r: bool)
    ensures
        r == (trimmed(blanks, text@) == expected@),
{
    let chars = chars_of(text);
    let n = chars.len();
    let mut start: usize = 0;
    assert(text@.skip(0) =~= text@);
    while start < n && is_blank(blanks, chars[start])
        invariant
            start <= n,
            n == text@.len(),
            chars@ == text@,
            trim_start_of(blanks, text@) == trim_start_of(blanks, text@.skip(start as int)),
        decreases n - start,
    {
        assert(text@.skip(start as int).drop_first() =~= text@.skip(start + 1));
        start += 1;
    }
    assert(trim_start_of(blanks, text@) == text@.skip(start as int));
    let mut end: usize = n;
    assert(text@.subrange(start as int, n as int) =~= text@.skip(start as int));
    while end > start && is_blank(blanks, chars[end - 1])
        invariant
            start <= end <= n,
            n == text@.len(),
            chars@ == text@,
            trimmed(blanks, text@) == trim_end_of(
                blanks,
                text@.subrange(start as int, end as int),
            ),
        decreases end,
    {
        assert(text@.subrange(start as int, end as int).drop_last() =~= text@.subrange(
            start as int,
            end - 1,
        ));
        end -= 1;
    }
    assert(trimmed(blanks, text@) == text@.subrange(start as int, end as int));
    str_equal(text.substring_char(start, end), expected)
}

/// A text without the blanks it starts with starts with no blank.
pub proof fn lemma_trim_start_is_tight(blanks: Blanks, s: Seq<char>)
    ensures
        trim_start_of(blanks, s).len() == 0 || !blank(blanks, trim_start_of(blanks, s)[0]),
    decreases s.len(),
{
    if s.len() > 0 && blank(blanks, s[0]) {
        lemma_trim_start_is_tight(blanks, s.drop_first());
    }
}

/// A text without the blanks it ends with ends with no blank, and it is the
/// beginning of the text.
pub proof fn lemma_trim_end_is_tight(blanks: Blanks, s: Seq<char>)
    ensures
        trim_end_of(blanks, s).len() == 0 || !blank(blanks, trim_end_of(blanks, s).last()),
        trim_end_of(blanks, s) == s.take(trim_end_of(blanks, s).len() as int),
        trim_end_of(blanks, s).len() <= s.len(),
    decreases s.len(),
{
    if s.len() > 0 && blank(blanks, s.last()) {
        lemma_trim_end_is_tight(blanks, s.drop_last());
        let t = trim_end_of(blanks, s);
        assert(t =~= s.take(t.len() as int));
    } else {
        assert(s =~= s.take(s.len() as int));
    }
}

/// A text without the blanks it starts with is the end of the text, and what
/// stands before it is blank.
pub proof fn lemma_trim_start_is_an_end(blanks: Blanks, s: Seq<char>)
    ensures
        ({
            let i = s.len() - trim_start_of(blanks, s).len();
            &&& 0 <= i <= s.len()
            &&& trim_start_of(blanks, s) == s.skip(i)
            &&& forall|k: int| 0 <= k < i ==> blank(blanks, #[trigger] s[k])
        }),
    decreases s.len(),
{
    if s.len() > 0 && blank(blanks, s[0]) {
        let rest = s.drop_first();
        lemma_trim_start_is_an_end(blanks, rest);
        let i = s.len() - trim_start_of(blanks, s).len();
        assert(rest.skip(i - 1) =~= s.skip(i));
        assert forall|k: int| 0 <= k < i implies blank(blanks, #[trigger] s[k]) by {
            if k > 0 {
                assert(s[k] == rest[k - 1]);
            }
        }
    } else {
        assert(s.skip(0) =~= s);
    }
}

/// What the blanks it ends with take away from a text is blank.
pub proof fn lemma_trim_end_leaves_blanks(blanks: Blanks, s: Seq<char>)
    ensures
        forall|k: int|
            trim_end_of(blanks, s).len() <= k < s.len() ==> blank(blanks, #[trigger] s[k]),
    decreases s.len(),
{
    if s.len() > 0 && blank(blanks, s.last()) {
        let head = s.drop_last();
        lemma_trim_end_leaves_blanks(blanks, head);
        assert forall|k: int| trim_end_of(blanks, s).len() <= k < s.len() implies blank(
            blanks,
            #[trigger] s[k],
        ) by {
            if k < s.len() - 1 {
                assert(s[k] == head[k]);
            }
        }
    }
}

/// A text without the blanks around it is a part of the text, and what
/// stands around that part is blank.
pub proof fn lemma_trimmed_is_a_part(blanks: Blanks, s: Seq<char>)
    ensures
        ({
            let t = trimmed(blanks, s);
            let i = s.len() - trim_start_of(blanks, s).len();
            &&& 0 <= i
            &&& i + t.len() <= s.len()
            &&& t == s.subrange(i, i + t.len())
            &&& forall|k: int| 0 <= k < i ==> blank(blanks, #[trigger] s[k])
            &&& forall|k: int| i + t.len() <= k < s.len() ==> blank(blanks, #[trigger] s[k])
            &&& occurs_in(t, s)
        }),
{
    let front = trim_start_of(blanks, s);
    let t = trimmed(blanks, s);
    let i = s.len() - front.len();
    lemma_trim_start_is_an_end(blanks, s);
    lemma_trim_end_is_tight(blanks, front);
    lemma_trim_end_leaves_blanks(blanks, front);
    assert(t =~= s.subrange(i, i + t.len()));
    assert forall|k: int| i + t.len() <= k < s.len() implies blank(blanks, #[trigger] s[k]) by {
        assert(s[k] == front[k - i]);
    }
}

/// A text without the blanks around it has no blanks around it: to trim it
/// again changes nothing.
pub proof fn lemma_trimmed_is_tight(blanks: Blanks, s: Seq<char>)
    ensures
        trimmed(blanks, trimmed(blanks, s)) == trimmed(blanks, s),
{
    let front = trim_start_of(blanks, s);
    let t = trimmed(blanks, s);
    lemma_trim_start_is_tight(blanks, s);
    lemma_trim_end_is_tight(blanks, front);
    if t.len() > 0 {
        assert(t[0] == front[0]);
        assert(trim_start_of(blanks, t) == t);
        assert(trim_end_of(blanks, t) == t);
    }
}

} // verus!
