//! Canonical versions: those whose identifiers are written the one way in
//! which they can be read. The text of a canonical version determines it.

use crate::numerals::{
    decimal, is_digit, is_u64_numeral, is_u64_numeral_text, lemma_decimal_is_numeral,
};
use crate::text::chars_of;
use crate::version::{
    identifier_text, identifiers_view, joined, suffix_text, version_text, Identifier,
    IdentifierView, Version, VersionView,
};
use vstd::prelude::*;

verus! {

/// Whether `c` is a digit or a letter of the basic Latin alphabet.
pub open spec fn is_alphanumeric(c: char) -> bool {
    is_digit(c) || 'A' <= c <= 'Z' || 'a' <= c <= 'z'
}

/// Whether every character of `s` passes `inside`.
pub open spec fn all_inside(s: Seq<char>, inside: spec_fn(char) -> bool) -> bool {
    forall|i: int| 0 <= i < s.len() ==> inside(#[trigger] s[i])
}

/// Whether `s` is made of digits and letters.
pub open spec fn is_word(s: Seq<char>) -> bool {
    all_inside(s, |c: char| is_alphanumeric(c))
}

/// Whether an identifier is canonical. A number always is. Another part is
/// where it is not empty, is made of digits and letters, and is not the
/// numeral of a number: such a part would be read as that number.
pub open spec fn canonical_identifier(id: IdentifierView) -> bool {
    match id {
        IdentifierView::Numeric(_) => true,
        IdentifierView::AlphaNumeric(s) => s.len() > 0 && is_word(s) && !is_u64_numeral(s),
    }
}

/// Whether every identifier of the list is canonical.
pub open spec fn canonical_identifiers(ids: Seq<IdentifierView>) -> bool {
    forall|i: int| 0 <= i < ids.len() ==> canonical_identifier(#[trigger] ids[i])
}

/// Whether a version is canonical: all its identifiers are.
pub open spec fn canonical(v: VersionView) -> bool {
    canonical_identifiers(v.pre) && canonical_identifiers(v.build)
}

/// Whether `text` is made of digits and letters.
fn is_word_text(text: &str) -> (r: bool)
    ensures
        r == is_word(text@),
{
    let chars = chars_of(text);
    let n = chars.len();
    let mut i: usize = 0;
    while i < n
        invariant
            i <= n,
            n == text@.len(),
            chars@ == text@,
            forall|k: int| 0 <= k < i ==> is_alphanumeric(#[trigger] text@[k]),
        decreases n - i,
    {
        let c = chars[i];
        if !(('0' <= c && c <= '9') || ('A' <= c && c <= 'Z') || ('a' <= c && c <= 'z')) {
            assert(!is_alphanumeric(text@[i as int]));
            return false;
        }
        i += 1;
    }
    true
}

impl Identifier {
    /// Whether the identifier is canonical.
    pub fn is_canonical(&self) -> (r: bool)
        ensures
            r == canonical_identifier(self@),
    {
        match self {
            Identifier::Numeric(_) => true,
            Identifier::AlphaNumeric(s) => {
                !s.as_str().is_empty() && is_word_text(s.as_str()) && !is_u64_numeral_text(
                    s.as_str(),
                )
            },
        }
    }
}

/// Whether every identifier of the list is canonical.
fn identifiers_canonical(ids: &Vec<Identifier>) -> (r: bool)
    ensures
        r == canonical_identifiers(identifiers_view(ids@)),
{
    let ghost view = identifiers_view(ids@);
    let mut i: usize = 0;
    while i < ids.len()
        invariant
            i <= ids.len(),
            view == identifiers_view(ids@),
            forall|k: int| 0 <= k < i ==> canonical_identifier(#[trigger] view[k]),
        decreases ids.len() - i,
    {
        if !ids[i].is_canonical() {
            assert(!canonical_identifier(view[i as int]));
            return false;
        }
        i += 1;
    }
    true
}

impl Version {
    /// Whether the version is canonical.
    pub fn is_canonical(&self) -> (r: bool)
        ensures
            r == canonical(self@),
    {
        identifiers_canonical(&self.pre) && identifiers_canonical(&self.build)
    }
}

/// Two texts that each start with characters inside a class and go on, if
/// at all, with a character outside it are the same only if both parts are.
pub proof fn lemma_split_left(
    a: Seq<char>,
    x: Seq<char>,
    b: Seq<char>,
    y: Seq<char>,
    inside: spec_fn(char) -> bool,
)
    requires
        all_inside(a, inside),
        all_inside(b, inside),
        x.len() == 0 || !inside(x[0]),
        y.len() == 0 || !inside(y[0]),
        a + x == b + y,
    ensures
        a == b,
        x == y,
{
    let whole = a + x;
    assert(whole.len() == a.len() + x.len());
    assert((b + y).len() == b.len() + y.len());
    if a.len() < b.len() {
        assert(whole[a.len() as int] == x[0]);
        assert((b + y)[a.len() as int] == b[a.len() as int]);
    } else if b.len() < a.len() {
        assert((b + y)[b.len() as int] == y[0]);
        assert(whole[b.len() as int] == a[b.len() as int]);
    } else {
        assert forall|i: int| 0 <= i < a.len() implies a[i] == b[i] by {
            assert(whole[i] == a[i]);
            assert((b + y)[i] == b[i]);
        }
        assert(a =~= b);
        assert forall|i: int| 0 <= i < x.len() implies x[i] == y[i] by {
            assert(whole[a.len() + i] == x[i]);
            assert((b + y)[b.len() + i] == y[i]);
        }
        assert(x =~= y);
    }
}

/// Two texts that each end with characters inside a class and before them
/// end, if they hold more, with a character outside it are the same only if
/// both parts are.
pub proof fn lemma_split_right(
    x: Seq<char>,
    a: Seq<char>,
    y: Seq<char>,
    b: Seq<char>,
    inside: spec_fn(char) -> bool,
)
    requires
        all_inside(a, inside),
        all_inside(b, inside),
        x.len() == 0 || !inside(x.last()),
        y.len() == 0 || !inside(y.last()),
        x + a == y + b,
    ensures
        a == b,
        x == y,
{
    let whole = x + a;
    assert(whole.len() == x.len() + a.len());
    assert((y + b).len() == y.len() + b.len());
    if a.len() < b.len() {
        assert(whole[x.len() - 1] == x.last());
        assert((y + b)[x.len() - 1] == b[x.len() - 1 - y.len()]);
    } else if b.len() < a.len() {
        assert((y + b)[y.len() - 1] == y.last());
        assert(whole[y.len() - 1] == a[y.len() - 1 - x.len()]);
    } else {
        assert forall|i: int| 0 <= i < x.len() implies x[i] == y[i] by {
            assert(whole[i] == x[i]);
            assert((y + b)[i] == y[i]);
        }
        assert(x =~= y);
        assert forall|i: int| 0 <= i < a.len() implies a[i] == b[i] by {
            assert(whole[x.len() + i] == a[i]);
            assert((y + b)[y.len() + i] == b[i]);
        }
        assert(a =~= b);
    }
}

/// The decimal numeral of a number is a word.
pub proof fn lemma_decimal_is_word(n: nat)
    ensures
        decimal(n).len() > 0,
        is_word(decimal(n)),
{
    lemma_decimal_is_numeral(n);
    let s = decimal(n);
    assert forall|i: int| 0 <= i < s.len() implies is_alphanumeric(#[trigger] s[i]) by {
        assert(is_digit(s[i]));
    }
}

/// The text of a canonical identifier is a word, and not empty.
pub proof fn lemma_identifier_text_is_word(id: IdentifierView)
    requires
        canonical_identifier(id),
    ensures
        identifier_text(id).len() > 0,
        is_word(identifier_text(id)),
{
    if let IdentifierView::Numeric(n) = id {
        lemma_decimal_is_word(n as nat);
    }
}

/// Canonical identifiers with the same text are the same.
pub proof fn lemma_text_determines_identifier(a: IdentifierView, b: IdentifierView)
    requires
        canonical_identifier(a),
        canonical_identifier(b),
        identifier_text(a) == identifier_text(b),
    ensures
        a == b,
{
    match (a, b) {
        (IdentifierView::Numeric(m), IdentifierView::Numeric(n)) => {
            lemma_decimal_is_numeral(m as nat);
            lemma_decimal_is_numeral(n as nat);
        },
        (IdentifierView::Numeric(m), IdentifierView::AlphaNumeric(_)) => {
            lemma_decimal_is_numeral(m as nat);
        },
        (IdentifierView::AlphaNumeric(_), IdentifierView::Numeric(n)) => {
            lemma_decimal_is_numeral(n as nat);
        },
        (IdentifierView::AlphaNumeric(s), IdentifierView::AlphaNumeric(t)) => {
            assert(a =~= b);
        },
    }
}

/// What stands before the text of the last identifier in the joined text of
/// a list: nothing, or the joined text of the others and a dot.
pub open spec fn joined_front(ids: Seq<IdentifierView>) -> Seq<char>
    recommends
        ids.len() > 0,
{
    if ids.len() == 1 {
        Seq::empty()
    } else {
        joined(ids.drop_last()) + seq!['.']
    }
}

/// The joined text of a list that is not empty is what stands before its
/// last identifier, and the text of that.
pub proof fn lemma_joined_parts(ids: Seq<IdentifierView>)
    requires
        ids.len() > 0,
    ensures
        joined(ids) == joined_front(ids) + identifier_text(ids.last()),
        joined_front(ids).len() == 0 || joined_front(ids).last() == '.',
{
    if ids.len() == 1 {
        assert(joined(ids) =~= joined_front(ids) + identifier_text(ids.last()));
    }
}

/// The joined text of canonical identifiers is made of digits, letters and
/// dots, and it is empty only for the empty list.
pub proof fn lemma_joined_is_dotted(ids: Seq<IdentifierView>)
    requires
        canonical_identifiers(ids),
    ensures
        all_inside(joined(ids), |c: char| is_alphanumeric(c) || c == '.'),
        ids.len() > 0 ==> joined(ids).len() > 0,
    decreases ids.len(),
{
    let dotted = |c: char| is_alphanumeric(c) || c == '.';
    let whole = joined(ids);
    if ids.len() > 0 {
        let last = identifier_text(ids.last());
        lemma_identifier_text_is_word(ids.last());
        lemma_joined_parts(ids);
        let front = joined_front(ids);
        if ids.len() > 1 {
            assert(canonical_identifiers(ids.drop_last())) by {
                assert forall|i: int| 0 <= i < ids.drop_last().len() implies canonical_identifier(
                    #[trigger] ids.drop_last()[i],
                ) by {
                    assert(ids.drop_last()[i] == ids[i]);
                }
            }
            lemma_joined_is_dotted(ids.drop_last());
        }
        assert forall|i: int| 0 <= i < whole.len() implies dotted(#[trigger] whole[i]) by {
            if i < front.len() {
                assert(whole[i] == front[i]);
                if i < front.len() - 1 {
                    assert(front[i] == joined(ids.drop_last())[i]);
                }
            } else {
                assert(whole[i] == last[i - front.len()]);
                assert(is_alphanumeric(last[i - front.len()]));
            }
        }
    }
}

/// Lists of canonical identifiers with the same joined text are the same.
pub proof fn lemma_text_determines_identifiers(a: Seq<IdentifierView>, b: Seq<IdentifierView>)
    requires
        canonical_identifiers(a),
        canonical_identifiers(b),
        joined(a) == joined(b),
    ensures
        a == b,
    decreases a.len(),
{
    lemma_joined_is_dotted(a);
    lemma_joined_is_dotted(b);
    if a.len() == 0 || b.len() == 0 {
        assert(a =~= b);
    } else {
        let word = |c: char| is_alphanumeric(c);
        lemma_joined_parts(a);
        lemma_joined_parts(b);
        lemma_identifier_text_is_word(a.last());
        lemma_identifier_text_is_word(b.last());
        lemma_split_right(
            joined_front(a),
            identifier_text(a.last()),
            joined_front(b),
            identifier_text(b.last()),
            word,
        );
        lemma_text_determines_identifier(a.last(), b.last());
        if a.len() == 1 || b.len() == 1 {
            assert(joined_front(a).len() == 0);
            assert(joined_front(b).len() == 0);
            assert(a =~= b);
        } else {
            let fa = joined(a.drop_last());
            let fb = joined(b.drop_last());
            assert(fa =~= joined_front(a).drop_last());
            assert(fb =~= joined_front(b).drop_last());
            assert(canonical_identifiers(a.drop_last())) by {
                assert forall|i: int| 0 <= i < a.drop_last().len() implies canonical_identifier(
                    #[trigger] a.drop_last()[i],
                ) by {
                    assert(a.drop_last()[i] == a[i]);
                }
            }
            assert(canonical_identifiers(b.drop_last())) by {
                assert forall|i: int| 0 <= i < b.drop_last().len() implies canonical_identifier(
                    #[trigger] b.drop_last()[i],
                ) by {
                    assert(b.drop_last()[i] == b[i]);
                }
            }
            lemma_text_determines_identifiers(a.drop_last(), b.drop_last());
            assert(a =~= a.drop_last().push(a.last()));
            assert(b =~= b.drop_last().push(b.last()));
        }
    }
}

/// Two texts that each are a numeral and go on, if at all, with a character
/// that is no digit or letter are the same only if both parts are.
proof fn lemma_split_number(m: u64, x: Seq<char>, n: u64, y: Seq<char>)
    requires
        x.len() == 0 || !is_alphanumeric(x[0]),
        y.len() == 0 || !is_alphanumeric(y[0]),
        decimal(m as nat) + x == decimal(n as nat) + y,
    ensures
        m == n,
        x == y,
{
    lemma_decimal_is_word(m as nat);
    lemma_decimal_is_word(n as nat);
    lemma_split_left(decimal(m as nat), x, decimal(n as nat), y, |c: char| is_alphanumeric(c));
    lemma_decimal_is_numeral(m as nat);
    lemma_decimal_is_numeral(n as nat);
}

/// Lists of canonical identifiers with the same text after their sign are
/// the same.
proof fn lemma_text_determines_suffix(sign: char, a: Seq<IdentifierView>, b: Seq<IdentifierView>)
    requires
        canonical_identifiers(a),
        canonical_identifiers(b),
        suffix_text(sign, a) == suffix_text(sign, b),
    ensures
        a == b,
{
    lemma_joined_is_dotted(a);
    lemma_joined_is_dotted(b);
    if a.len() == 0 || b.len() == 0 {
        assert(suffix_text(sign, a).len() == suffix_text(sign, b).len());
        assert(a =~= b);
    } else {
        assert(joined(a) =~= suffix_text(sign, a).drop_first());
        assert(joined(b) =~= suffix_text(sign, b).drop_first());
        lemma_text_determines_identifiers(a, b);
    }
}

/// What follows the three numbers in the text of a version: the
/// pre-release identifiers after `-`, then the build identifiers after `+`.
pub open spec fn metadata_text(v: VersionView) -> Seq<char> {
    suffix_text('-', v.pre) + suffix_text('+', v.build)
}

/// Canonical versions with the same text of metadata have the same
/// metadata.
proof fn lemma_text_determines_metadata(a: VersionView, b: VersionView)
    requires
        canonical(a),
        canonical(b),
        metadata_text(a) == metadata_text(b),
    ensures
        a.pre == b.pre,
        a.build == b.build,
{
    let unsigned = |c: char| c != '+';
    let sa = suffix_text('+', a.build);
    let sb = suffix_text('+', b.build);
    lemma_joined_is_dotted(a.pre);
    lemma_joined_is_dotted(b.pre);
    let ta = metadata_text(a);
    let tb = metadata_text(b);
    if a.pre.len() == 0 && b.pre.len() == 0 {
        assert(ta =~= sa);
        assert(tb =~= sb);
        lemma_text_determines_suffix('+', a.build, b.build);
        assert(a.pre =~= b.pre);
    } else if a.pre.len() == 0 {
        assert(ta =~= sa);
        assert(tb[0] == '-');
        if a.build.len() > 0 {
            assert(ta[0] == '+');
        }
    } else if b.pre.len() == 0 {
        assert(tb =~= sb);
        assert(ta[0] == '-');
        if b.build.len() > 0 {
            assert(tb[0] == '+');
        }
    } else {
        let ja = joined(a.pre);
        let jb = joined(b.pre);
        assert(ja + sa =~= ta.drop_first());
        assert(jb + sb =~= tb.drop_first());
        assert(all_inside(ja, unsigned)) by {
            assert forall|i: int| 0 <= i < ja.len() implies unsigned(#[trigger] ja[i]) by {
                assert(is_alphanumeric(ja[i]) || ja[i] == '.');
            }
        }
        assert(all_inside(jb, unsigned)) by {
            assert forall|i: int| 0 <= i < jb.len() implies unsigned(#[trigger] jb[i]) by {
                assert(is_alphanumeric(jb[i]) || jb[i] == '.');
            }
        }
        lemma_split_left(ja, sa, jb, sb, unsigned);
        lemma_text_determines_identifiers(a.pre, b.pre);
        lemma_text_determines_suffix('+', a.build, b.build);
    }
}

/// The text of a version from its patch number on.
pub open spec fn patch_text(v: VersionView) -> Seq<char> {
    decimal(v.patch as nat) + metadata_text(v)
}

/// The text of a version from its minor number on.
pub open spec fn minor_text(v: VersionView) -> Seq<char> {
    decimal(v.minor as nat) + (seq!['.'] + patch_text(v))
}

/// The text of a version is its major number, a dot, and the rest.
proof fn lemma_version_text_parts(v: VersionView)
    ensures
        version_text(v) == decimal(v.major as nat) + (seq!['.'] + minor_text(v)),
{
    assert(version_text(v) =~= decimal(v.major as nat) + (seq!['.'] + minor_text(v)));
}

/// The text of the metadata starts, if it is not empty, with a sign.
proof fn lemma_metadata_starts_with_sign(v: VersionView)
    ensures
        metadata_text(v).len() == 0 || !is_alphanumeric(metadata_text(v)[0]),
{
    let m = metadata_text(v);
    if v.pre.len() > 0 {
        assert(m[0] == '-');
    } else if v.build.len() > 0 {
        assert(m[0] == '+');
    }
}

/// Two texts that each are a numeral, a dot and more are the same only if
/// the numbers are and what follows the dot is.
proof fn lemma_split_dotted_number(m: u64, x: Seq<char>, n: u64, y: Seq<char>)
    requires
        decimal(m as nat) + (seq!['.'] + x) == decimal(n as nat) + (seq!['.'] + y),
    ensures
        m == n,
        x == y,
{
    let dx = seq!['.'] + x;
    let dy = seq!['.'] + y;
    assert(dx[0] == '.');
    assert(dy[0] == '.');
    lemma_split_number(m, dx, n, dy);
    assert(x =~= dx.drop_first());
    assert(y =~= dy.drop_first());
}

/// Canonical versions with the same text are the same version: each has a
/// text, and so a directory, of its own.
pub proof fn lemma_text_determines_version(a: VersionView, b: VersionView)
    requires
        canonical(a),
        canonical(b),
        version_text(a) == version_text(b),
    ensures
        a == b,
{
    lemma_version_text_parts(a);
    lemma_version_text_parts(b);
    lemma_split_dotted_number(a.major, minor_text(a), b.major, minor_text(b));
    lemma_split_dotted_number(a.minor, patch_text(a), b.minor, patch_text(b));
    lemma_metadata_starts_with_sign(a);
    lemma_metadata_starts_with_sign(b);
    lemma_split_number(a.patch, metadata_text(a), b.patch, metadata_text(b));
    lemma_text_determines_metadata(a, b);
    assert(a =~= b);
}

} // verus!
