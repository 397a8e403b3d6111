//! Semantic versions: their model, their text, and the order by which one
//! release counts as newer than another.

use crate::canonical::{canonical, lemma_text_determines_version};
use crate::error::UpgradeError;
use crate::order::{
    irreflexive, lemma_lex_asymmetric, lemma_lex_connected, lemma_lex_irreflexive,
    lemma_lex_skip_common, lemma_lex_transitive, lex_lt, strict_total, transitive,
};
use crate::numerals::{decimal, push_decimal};
use crate::text::{chars_of, lemma_trimmed_is_tight, trimmed, trimmed_equals, Blanks};
use vstd::prelude::*;

verus! {

/// One dot-separated part of the pre-release or build metadata.
#[derive(Debug, PartialEq, Eq)]
pub enum Identifier {
    /// A part made of digits only, without a leading zero.
    Numeric(u64),
    /// Any other part.
    AlphaNumeric(String),
}

/// What an [`Identifier`] stands for.
#[verifier::ext_equal]
pub enum IdentifierView {
    Numeric(u64),
    AlphaNumeric(Seq<char>),
}

impl View for Identifier {
    type V = IdentifierView;

    open spec fn view(&self) -> IdentifierView {
        match self {
            Identifier::Numeric(n) => IdentifierView::Numeric(*n),
            Identifier::AlphaNumeric(s) => IdentifierView::AlphaNumeric(s@),
        }
    }
}

/// A semantic version: `major.minor.patch`, then optional pre-release
/// identifiers after `-` and optional build identifiers after `+`.
#[derive(Debug)]
pub struct Version {
    pub major: u64,
    pub minor: u64,
    pub patch: u64,
    pub pre: Vec<Identifier>,
    pub build: Vec<Identifier>,
}

/// What a [`Version`] stands for.
#[verifier::ext_equal]
pub struct VersionView {
    pub major: u64,
    pub minor: u64,
    pub patch: u64,
    pub pre: Seq<IdentifierView>,
    pub build: Seq<IdentifierView>,
}

/// The identifiers of a list, each taken by its view.
pub open spec fn identifiers_view(ids: Seq<Identifier>) -> Seq<IdentifierView> {
    ids.map_values(|id: Identifier| id@)
}

impl View for Version {
    type V = VersionView;

    open spec fn view(&self) -> VersionView {
        VersionView {
            major: self.major,
            minor: self.minor,
            patch: self.patch,
            pre: identifiers_view(self.pre@),
            build: identifiers_view(self.build@),
        }
    }
}

/// The text of one identifier: a number in decimal, any other part as it is.
pub open spec fn identifier_text(id: IdentifierView) -> Seq<char> {
    match id {
        IdentifierView::Numeric(n) => decimal(n as nat),
        IdentifierView::AlphaNumeric(s) => s,
    }
}

/// The texts of the identifiers, with a `.` between neighbours.
pub open spec fn joined(ids: Seq<IdentifierView>) -> Seq<char>
    decreases ids.len(),
{
    if ids.len() == 0 {
        Seq::empty()
    } else if ids.len() == 1 {
        identifier_text(ids[0])
    } else {
        joined(ids.drop_last()) + seq!['.'] + identifier_text(ids.last())
    }
}

/// `prefix` followed by the joined identifiers, or nothing where there are
/// none.
pub open spec fn suffix_text(prefix: char, ids: Seq<IdentifierView>) -> Seq<char> {
    if ids.len() == 0 {
        Seq::empty()
    } else {
        seq![prefix] + joined(ids)
    }
}

/// The text of a version: `major.minor.patch[-pre][+build]`.
pub open spec fn version_text(v: VersionView) -> Seq<char> {
    decimal(v.major as nat) + seq!['.'] + decimal(v.minor as nat) + seq!['.'] + decimal(
        v.patch as nat,
    ) + suffix_text('-', v.pre) + suffix_text('+', v.build)
}

/// Order of characters by code point.
pub open spec fn char_lt() -> spec_fn(char, char) -> bool {
    |x: char, y: char| (x as u32) < (y as u32)
}

/// Order of texts: lexicographic by code point.
pub open spec fn text_lt(a: Seq<char>, b: Seq<char>) -> bool {
    lex_lt(a, b, char_lt())
}

/// Order of identifiers: every number comes before every other part, numbers
/// go by value and other parts by their text.
pub open spec fn identifier_lt() -> spec_fn(IdentifierView, IdentifierView) -> bool {
    |x: IdentifierView, y: IdentifierView|
        match (x, y) {
            (IdentifierView::Numeric(m), IdentifierView::Numeric(n)) => m < n,
            (IdentifierView::Numeric(_), IdentifierView::AlphaNumeric(_)) => true,
            (IdentifierView::AlphaNumeric(_), IdentifierView::Numeric(_)) => false,
            (IdentifierView::AlphaNumeric(s), IdentifierView::AlphaNumeric(t)) => text_lt(s, t),
        }
}

/// Order of identifier lists: lexicographic.
pub open spec fn identifiers_lt(a: Seq<IdentifierView>, b: Seq<IdentifierView>) -> bool {
    lex_lt(a, b, identifier_lt())
}

/// Whether `a` comes before `b`. The fields decide in the order major,
/// minor, patch, pre-release, build: so a version with pre-release
/// identifiers comes after the same triple without any.
pub open spec fn version_lt(a: VersionView, b: VersionView) -> bool {
    if a.major != b.major {
        a.major < b.major
    } else if a.minor != b.minor {
        a.minor < b.minor
    } else if a.patch != b.patch {
        a.patch < b.patch
    } else if a.pre != b.pre {
        identifiers_lt(a.pre, b.pre)
    } else {
        identifiers_lt(a.build, b.build)
    }
}

/// Whether `a` is `b` or comes after it.
pub open spec fn version_ge(a: VersionView, b: VersionView) -> bool {
    !version_lt(a, b)
}

/// Whether the text `a` comes before the text `b`.
fn str_lt(a: &str, b: &str) -> (r: bool)
    ensures
        r == text_lt(a@, b@),
{
    let left = chars_of(a);
    let right = chars_of(b);
    let n = left.len();
    let m = right.len();
    let mut i: usize = 0;
    proof {
        lemma_char_order();
    }
    while i < n && i < m
        invariant
            i <= n,
            i <= m,
            n == a@.len(),
            m == b@.len(),
            left@ == a@,
            right@ == b@,
            a@.take(i as int) == b@.take(i as int),
            irreflexive(char_lt()),
        decreases n - i,
    {
        let x = left[i];
        let y = right[i];
        if x != y {
            proof {
                lemma_lex_skip_common(a@, b@, i as int, char_lt());
                assert(a@.skip(i as int)[0] == x);
                assert(b@.skip(i as int)[0] == y);
            }
            return (x as u32) < (y as u32);
        }
        proof {
            let ta = a@.take(i + 1);
            let tb = b@.take(i + 1);
            assert(ta =~= tb) by {
                assert forall|k: int| 0 <= k < ta.len() implies ta[k] == tb[k] by {
                    if k < i {
                        assert(ta[k] == a@.take(i as int)[k]);
                        assert(tb[k] == b@.take(i as int)[k]);
                    }
                }
            }
        }
        i += 1;
    }
    proof {
        lemma_lex_skip_common(a@, b@, i as int, char_lt());
    }
    i < m
}

impl Identifier {
    /// Whether the two identifiers are the same.
    pub fn equals(&self, other: &Identifier) -> (r: bool)
        ensures
            r == (self@ == other@),
    {
        match (self, other) {
            (Identifier::Numeric(m), Identifier::Numeric(n)) => *m == *n,
            (Identifier::AlphaNumeric(s), Identifier::AlphaNumeric(t)) => *s == *t,
            _ => false,
        }
    }

    /// Whether this identifier comes before `other`.
    pub fn precedes(&self, other: &Identifier) -> (r: bool)
        ensures
            r == identifier_lt()(self@, other@),
    {
        match (self, other) {
            (Identifier::Numeric(m), Identifier::Numeric(n)) => *m < *n,
            (Identifier::Numeric(_), Identifier::AlphaNumeric(_)) => true,
            (Identifier::AlphaNumeric(_), Identifier::Numeric(_)) => false,
            (Identifier::AlphaNumeric(s), Identifier::AlphaNumeric(t)) => str_lt(
                s.as_str(),
                t.as_str(),
            ),
        }
    }
}

impl Clone for Identifier {
    fn clone(&self) -> (r: Self)
        ensures
            r@ == self@,
    {
        match self {
            Identifier::Numeric(n) => Identifier::Numeric(*n),
            Identifier::AlphaNumeric(s) => Identifier::AlphaNumeric(s.clone()),
        }
    }
}

/// Whether the two lists hold the same identifiers in the same order.
fn identifiers_equal(a: &Vec<Identifier>, b: &Vec<Identifier>) -> (r: bool)
    ensures
        r == (identifiers_view(a@) == identifiers_view(b@)),
{
    let ghost va = identifiers_view(a@);
    let ghost vb = identifiers_view(b@);
    if a.len() != b.len() {
        assert(va.len() != vb.len());
        return false;
    }
    let mut i: usize = 0;
    while i < a.len()
        invariant
            i <= a.len(),
            a.len() == b.len(),
            va == identifiers_view(a@),
            vb == identifiers_view(b@),
            forall|k: int| 0 <= k < i ==> va[k] == vb[k],
        decreases a.len() - i,
    {
        if !a[i].equals(&b[i]) {
            assert(va[i as int] != vb[i as int]);
            return false;
        }
        i += 1;
    }
    assert(va =~= vb);
    true
}

/// Whether the list `a` comes before the list `b`.
fn identifiers_precede(a: &Vec<Identifier>, b: &Vec<Identifier>) -> (r: bool)
    ensures
        r == identifiers_lt(identifiers_view(a@), identifiers_view(b@)),
{
    let ghost va = identifiers_view(a@);
    let ghost vb = identifiers_view(b@);
    let mut i: usize = 0;
    proof {
        lemma_identifier_order();
    }
    while i < a.len() && i < b.len()
        invariant
            i <= a.len(),
            i <= b.len(),
            va == identifiers_view(a@),
            vb == identifiers_view(b@),
            va.take(i as int) == vb.take(i as int),
            irreflexive(identifier_lt()),
        decreases a.len() - i,
    {
        let before = a[i].precedes(&b[i]);
        let same = a[i].equals(&b[i]);
        if before || !same {
            proof {
                lemma_lex_skip_common(va, vb, i as int, identifier_lt());
                assert(va.skip(i as int)[0] == a[i as int]@);
                assert(vb.skip(i as int)[0] == b[i as int]@);
            }
            return before;
        }
        proof {
            let ta = va.take(i + 1);
            let tb = vb.take(i + 1);
            assert(ta =~= tb) by {
                assert forall|k: int| 0 <= k < ta.len() implies ta[k] == tb[k] by {
                    if k < i {
                        assert(ta[k] == va.take(i as int)[k]);
                        assert(tb[k] == vb.take(i as int)[k]);
                    }
                }
            }
        }
        i += 1;
    }
    proof {
        lemma_lex_skip_common(va, vb, i as int, identifier_lt());
    }
    i < b.len()
}

/// A copy of the list.
fn identifiers_clone(a: &Vec<Identifier>) -> (r: Vec<Identifier>)
    ensures
        identifiers_view(r@) == identifiers_view(a@),
{
    let mut r: Vec<Identifier> = Vec::new();
    let mut i: usize = 0;
    while i < a.len()
        invariant
            i <= a.len(),
            r.len() == i,
            forall|k: int| 0 <= k < i ==> r[k]@ == a[k]@,
        decreases a.len() - i,
    {
        r.push(a[i].clone());
        i += 1;
    }
    assert(identifiers_view(r@) =~= identifiers_view(a@));
    r
}

/// Appends the joined texts of `ids` to `out`.
fn push_joined(out: &mut String, ids: &Vec<Identifier>)
    ensures
        final(out)@ == old(out)@ + joined(identifiers_view(ids@)),
{
    let ghost v = identifiers_view(ids@);
    let mut i: usize = 0;
    while i < ids.len()
        invariant
            i <= ids.len(),
            v == identifiers_view(ids@),
            out@ == old(out)@ + joined(v.take(i as int)),
        decreases ids.len() - i,
    {
        let ghost before = out@;
        if i > 0 {
            out.append(".");
        }
        match &ids[i] {
            Identifier::Numeric(n) => push_decimal(out, *n),
            Identifier::AlphaNumeric(s) => out.append(s.as_str()),
        }
        proof {
            reveal_strlit(".");
            let t = v.take(i + 1);
            assert(t.drop_last() =~= v.take(i as int));
            assert(t.last() == ids[i as int]@);
            assert(out@ =~= old(out)@ + joined(t));
        }
        i += 1;
    }
    assert(v.take(i as int) =~= v);
}

impl Version {
    /// The text of the version, as it stands in file names and addresses.
    pub fn to_string(&self) -> (r: String)
        ensures
            r@ == version_text(self@),
    {
        let mut out = String::new();
        push_decimal(&mut out, self.major);
        out.append(".");
        push_decimal(&mut out, self.minor);
        out.append(".");
        push_decimal(&mut out, self.patch);
        if self.pre.len() > 0 {
            out.append("-");
            push_joined(&mut out, &self.pre);
        }
        if self.build.len() > 0 {
            out.append("+");
            push_joined(&mut out, &self.build);
        }
        proof {
            reveal_strlit(".");
            reveal_strlit("-");
            reveal_strlit("+");
            assert(out@ =~= version_text(self@));
        }
        out
    }

    /// Whether this version comes before `other`.
    pub fn precedes(&self, other: &Version) -> (r: bool)
        ensures
            r == version_lt(self@, other@),
    {
        if self.major != other.major {
            self.major < other.major
        } else if self.minor != other.minor {
            self.minor < other.minor
        } else if self.patch != other.patch {
            self.patch < other.patch
        } else if !identifiers_equal(&self.pre, &other.pre) {
            identifiers_precede(&self.pre, &other.pre)
        } else {
            identifiers_precede(&self.build, &other.build)
        }
    }

    /// Whether this version is `other` or comes after it.
    pub fn is_at_least(&self, other: &Version) -> (r: bool)
        ensures
            r == version_ge(self@, other@),
    {
        !self.precedes(other)
    }
}

impl Clone for Version {
    fn clone(&self) -> (r: Self)
        ensures
            r@ == self@,
    {
        Version {
            major: self.major,
            minor: self.minor,
            patch: self.patch,
            pre: identifiers_clone(&self.pre),
            build: identifiers_clone(&self.build),
        }
    }
}

impl PartialEq for Version {
    fn eq(&self, other: &Self) -> (r: bool) {
        self.major == other.major && self.minor == other.minor && self.patch == other.patch
            && identifiers_equal(&self.pre, &other.pre) && identifiers_equal(
            &self.build,
            &other.build,
        )
    }
}

impl Eq for Version {

}

impl vstd::std_specs::cmp::PartialEqSpecImpl for Version {
    open spec fn obeys_eq_spec() -> bool {
        true
    }

    open spec fn eq_spec(&self, other: &Self) -> bool {
        self@ == other@
    }
}

/// The error with which `semver_parser` rejects a text.
#[verifier::external_type_specification]
#[verifier::external_body]
pub struct ExSemverError<'a>(semver_parser::parser::Error<'a>);

/// What `semver_parser::version::parse` makes of a text: the version it
/// reads, or `None` where it rejects the text.
pub uninterp spec fn semver_parse(input: Seq<char>) -> Option<VersionView>;

/// Calls `semver_parser::version::parse` and copies the fields of the version
/// it returns, one for one. The contract claims only that the outcome is a
/// function of the text: it equals [`semver_parse`] of it.
#[verifier::external_body]
fn parse_semver<'a>(input: &'a str) -> (r: Result<Version, semver_parser::parser::Error<'a>>)
    ensures
        match r {
            Ok(v) => semver_parse(input@) == Some(v@),
            Err(_) => semver_parse(input@) is None,
        },
{
    let part = |id| match id {
        semver_parser::version::Identifier::Numeric(n) => Identifier::Numeric(n),
        semver_parser::version::Identifier::AlphaNumeric(s) => Identifier::AlphaNumeric(s),
    };
    let v = semver_parser::version::parse(input)?;
    Ok(Version {
        major: v.major,
        minor: v.minor,
        patch: v.patch,
        pre: v.pre.into_iter().map(part).collect(),
        build: v.build.into_iter().map(part).collect(),
    })
}

/// The version that a text is read as, if it is read as one: the version
/// that the parser finds in it, provided that it is canonical and that its
/// text is the text that was given, the blanks around it aside.
#[verifier::opaque]
pub open spec fn read_of(input: Seq<char>) -> Option<VersionView> {
    match semver_parse(input) {
        Some(v) => if canonical(v) && version_text(v) == trimmed(Blanks::Plain, input) {
            Some(v)
        } else {
            None
        },
        None => None,
    }
}

/// Reads a semantic version from a text. A text is a version only if it is
/// written back as it was read: nothing in it is passed over or changed.
pub fn parse(input: &str) -> (r: Result<Version, UpgradeError>)
    ensures
        match r {
            Ok(v) => read_of(input@) == Some(v@),
            Err(e) => e == UpgradeError::InvalidVersion && read_of(input@) is None,
        },
{
    proof {
        reveal(read_of);
    }
    match parse_semver(input) {
        Ok(v) => {
            if v.is_canonical() && trimmed_equals(Blanks::Plain, input, v.to_string().as_str()) {
                Ok(v)
            } else {
                Err(UpgradeError::InvalidVersion)
            }
        },
        Err(_) => Err(UpgradeError::InvalidVersion),
    }
}

/// The version that a text is read as is the one canonical version whose
/// text is that text, the blanks around it aside.
pub proof fn lemma_read_is_determined(input: Seq<char>, v: VersionView)
    requires
        canonical(v),
        version_text(v) == trimmed(Blanks::Plain, input),
    ensures
        read_of(input) is Some ==> read_of(input) == Some(v),
{
    reveal(read_of);
    if read_of(input) is Some {
        lemma_text_determines_version(read_of(input)->0, v);
    }
}

/// What is read as a version is written as it was read, the blanks around
/// it aside. The text so written, where it is read again, is read as the
/// same version and written the same once more.
pub proof fn lemma_text_round_trip(input: Seq<char>)
    requires
        read_of(input) is Some,
    ensures
        ({
            let v = read_of(input)->0;
            let text = version_text(v);
            &&& canonical(v)
            &&& text == trimmed(Blanks::Plain, input)
            &&& trimmed(Blanks::Plain, text) == text
            &&& read_of(text) is Some ==> read_of(text) == Some(v)
        }),
{
    reveal(read_of);
    lemma_trimmed_is_tight(Blanks::Plain, input);
    lemma_read_is_determined(version_text(read_of(input)->0), read_of(input)->0);
}

/// The order of characters by code point is a strict total order.
pub proof fn lemma_char_order()
    ensures
        strict_total(char_lt()),
{
    let lt = char_lt();
    assert(irreflexive(lt));
    assert(transitive(lt));
    assert forall|x: char, y: char| x != y implies #[trigger] lt(x, y) || lt(y, x) by {
        if (x as u32) == (y as u32) {
            vstd::utf8::char_u32_cast(x, x as u32);
            vstd::utf8::char_u32_cast(y, y as u32);
        }
    }
}

/// The order of identifiers is a strict total order.
pub proof fn lemma_identifier_order()
    ensures
        strict_total(identifier_lt()),
{
    let lt = identifier_lt();
    lemma_char_order();
    assert forall|x: IdentifierView| !#[trigger] lt(x, x) by {
        if let IdentifierView::AlphaNumeric(s) = x {
            lemma_lex_irreflexive(s, char_lt());
        }
    }
    assert forall|x: IdentifierView, y: IdentifierView, z: IdentifierView| #[trigger]
        lt(x, y) && #[trigger] lt(y, z) implies lt(x, z) by {
        if let (
            IdentifierView::AlphaNumeric(s),
            IdentifierView::AlphaNumeric(t),
            IdentifierView::AlphaNumeric(u),
        ) = (x, y, z) {
            lemma_lex_transitive(s, t, u, char_lt());
        }
    }
    assert forall|x: IdentifierView, y: IdentifierView| x != y implies #[trigger] lt(x, y) || lt(
        y,
        x,
    ) by {
        if let (IdentifierView::AlphaNumeric(s), IdentifierView::AlphaNumeric(t)) = (x, y) {
            lemma_lex_connected(s, t, char_lt());
        }
    }
}

/// No version comes before itself.
pub proof fn lemma_version_lt_irreflexive(a: VersionView)
    ensures
        !version_lt(a, a),
{
    lemma_identifier_order();
    lemma_lex_irreflexive(a.build, identifier_lt());
}

/// The order of versions is transitive.
pub proof fn lemma_version_lt_transitive(a: VersionView, b: VersionView, c: VersionView)
    requires
        version_lt(a, b),
        version_lt(b, c),
    ensures
        version_lt(a, c),
{
    lemma_identifier_order();
    let lt = identifier_lt();
    if a.major == b.major && b.major == c.major && a.minor == b.minor && b.minor == c.minor
        && a.patch == b.patch && b.patch == c.patch {
        if a.pre != b.pre && b.pre != c.pre {
            lemma_lex_transitive(a.pre, b.pre, c.pre, lt);
            lemma_lex_irreflexive(a.pre, lt);
        } else if a.pre == b.pre && b.pre == c.pre {
            lemma_lex_transitive(a.build, b.build, c.build, lt);
        }
    }
}

/// Of two versions, either they are the same or exactly one comes before the
/// other.
pub proof fn lemma_version_lt_total(a: VersionView, b: VersionView)
    ensures
        a == b || version_lt(a, b) || version_lt(b, a),
        !(version_lt(a, b) && version_lt(b, a)),
        a == b ==> !version_lt(a, b),
{
    lemma_identifier_order();
    let lt = identifier_lt();
    lemma_lex_asymmetric(a.pre, b.pre, lt);
    lemma_lex_asymmetric(a.build, b.build, lt);
    lemma_version_lt_irreflexive(a);
    if a.major == b.major && a.minor == b.minor && a.patch == b.patch {
        if a.pre != b.pre {
            lemma_lex_connected(a.pre, b.pre, lt);
        } else if a.build != b.build {
            lemma_lex_connected(a.build, b.build, lt);
        } else {
            assert(a =~= b);
        }
    }
}

} // verus!
