//! Line-level tag classification.
//!
//! A line of the dump "contains a tag" when somewhere in it a `<` is
//! followed by a non-empty run of characters other than space and `>`,
//! terminated by a space or a `>`.  The tag name is that run (with a
//! leading `/` for closing tags), taken at the leftmost position where
//! such a run exists.  Lines without any `<` are plain content.  Lines
//! with a `<` but no well-formed name are a fatal classification error.

use vstd::prelude::*;

verus! {

/// `<`
pub const LT: u8 = 60;
/// `>`
pub const GT: u8 = 62;
/// space
pub const SP: u8 = 32;
/// `/`
pub const SLASH: u8 = 47;

/// The bytes of `mediawiki`.
pub open spec fn nm_mediawiki() -> Seq<u8> {
    seq![109u8, 101u8, 100u8, 105u8, 97u8, 119u8, 105u8, 107u8, 105u8]
}

/// The bytes of `siteinfo`.
pub open spec fn nm_siteinfo() -> Seq<u8> {
    seq![115u8, 105u8, 116u8, 101u8, 105u8, 110u8, 102u8, 111u8]
}

/// The bytes of `page`.
pub open spec fn nm_page() -> Seq<u8> {
    seq![112u8, 97u8, 103u8, 101u8]
}

/// The bytes of `title`.
pub open spec fn nm_title() -> Seq<u8> {
    seq![116u8, 105u8, 116u8, 108u8, 101u8]
}

/// The bytes of `ns`.
pub open spec fn nm_ns() -> Seq<u8> {
    seq![110u8, 115u8]
}

/// The bytes of `id`.
pub open spec fn nm_id() -> Seq<u8> {
    seq![105u8, 100u8]
}

/// The closing form of a tag name: the name with a leading `/`.
pub open spec fn closing(n: Seq<u8>) -> Seq<u8> {
    seq![SLASH] + n
}

/// A byte that ends a tag name.
pub open spec fn is_term(b: u8) -> bool {
    b == SP || b == GT
}

/// The line holds a `<` somewhere.
pub open spec fn contains_lt(l: Seq<u8>) -> bool {
    exists|i: int| 0 <= i < l.len() && l[i] == LT
}

/// A tag name spans `(j, m)`: `l[j]` is `<`, the bytes strictly between
/// `j` and `m` are a non-empty run free of space and `>`, and `l[m]`
/// ends the run with a space or a `>`.
pub open spec fn tag_at(l: Seq<u8>, j: int, m: int) -> bool {
    &&& 0 <= j
    &&& j + 1 < m
    &&& m < l.len()
    &&& l[j] == LT
    &&& is_term(l[m])
    &&& forall|k: int| j < k < m ==> !is_term(l[k])
}

/// The leftmost tag of the line starts at `j`.
pub open spec fn first_tag_at(l: Seq<u8>, j: int, m: int) -> bool {
    &&& tag_at(l, j, m)
    &&& forall|j2: int, m2: int| tag_at(l, j2, m2) ==> j <= j2
}

/// Some tag name can be read off the line.
pub open spec fn has_tag(l: Seq<u8>) -> bool {
    exists|j: int, m: int| tag_at(l, j, m)
}

/// The name of the leftmost tag of the line.
pub open spec fn tag_name(l: Seq<u8>) -> Seq<u8>
    recommends
        has_tag(l),
{
    let (j, m) = choose|j: int, m: int| first_tag_at(l, j, m);
    l.subrange(j + 1, m)
}

/// Every line falls in exactly one of these classes.
pub ghost enum SpecClass {
    /// No `<` anywhere: plain content.
    Content,
    /// A `<` somewhere, but no well-formed tag name: a fatal
    /// classification error.
    Malformed,
    /// The leftmost tag name of the line.
    Tagged(Seq<u8>),
}

/// What the classifier says of a line.
pub open spec fn spec_classify(l: Seq<u8>) -> SpecClass {
    if !contains_lt(l) {
        SpecClass::Content
    } else if has_tag(l) {
        SpecClass::Tagged(tag_name(l))
    } else {
        SpecClass::Malformed
    }
}

/// The leftmost tag span is unique.
pub proof fn lemma_first_tag_unique(l: Seq<u8>, j1: int, m1: int, j2: int, m2: int)
    requires
        first_tag_at(l, j1, m1),
        first_tag_at(l, j2, m2),
    ensures
        j1 == j2,
        m1 == m2,
{
    assert(j1 <= j2 && j2 <= j1);
    if m1 < m2 {
        assert(!is_term(l[m1]));
    }
    if m2 < m1 {
        assert(!is_term(l[m2]));
    }
}

/// Hence: a leftmost tag span names the tag of the line.
pub proof fn lemma_tag_name(l: Seq<u8>, j: int, m: int)
    requires
        first_tag_at(l, j, m),
    ensures
        has_tag(l),
        tag_name(l) == l.subrange(j + 1, m),
{
    let (jc, mc) = choose|jc: int, mc: int| first_tag_at(l, jc, mc);
    lemma_first_tag_unique(l, j, m, jc, mc);
}

/// The structural tags that the filter distinguishes; every other
/// name, opening or closing, is `Other`.
#[derive(Copy, Clone, Debug, PartialEq, Eq, Structural)]
pub enum TagKind {
    Mediawiki,
    MediawikiClose,
    Siteinfo,
    SiteinfoClose,
    Page,
    PageClose,
    Title,
    Ns,
    Id,
    Other,
}

/// Which structural tag a name denotes.
pub open spec fn spec_tag_kind(n: Seq<u8>) -> TagKind {
    if n == nm_mediawiki() {
        TagKind::Mediawiki
    } else if n == closing(nm_mediawiki()) {
        TagKind::MediawikiClose
    } else if n == nm_siteinfo() {
        TagKind::Siteinfo
    } else if n == closing(nm_siteinfo()) {
        TagKind::SiteinfoClose
    } else if n == nm_page() {
        TagKind::Page
    } else if n == closing(nm_page()) {
        TagKind::PageClose
    } else if n == nm_title() {
        TagKind::Title
    } else if n == nm_ns() {
        TagKind::Ns
    } else if n == nm_id() {
        TagKind::Id
    } else {
        TagKind::Other
    }
}

/// Read the structural kind off a name.
pub fn tag_kind(n: &Vec<u8>) -> (k: TagKind)
    ensures
        k == spec_tag_kind(n@),
{
    let len = n.len();
    if len == 9 && n[0] == 109 && n[1] == 101 && n[2] == 100 && n[3] == 105 && n[4] == 97
        && n[5] == 119 && n[6] == 105 && n[7] == 107 && n[8] == 105 {
        proof { assert(n@ =~= nm_mediawiki()); }
        TagKind::Mediawiki
    } else if len == 10 && n[0] == SLASH && n[1] == 109 && n[2] == 101 && n[3] == 100
        && n[4] == 105 && n[5] == 97 && n[6] == 119 && n[7] == 105 && n[8] == 107 && n[9] == 105 {
        proof { assert(n@ =~= closing(nm_mediawiki())); }
        TagKind::MediawikiClose
    } else if len == 8 && n[0] == 115 && n[1] == 105 && n[2] == 116 && n[3] == 101 && n[4] == 105
        && n[5] == 110 && n[6] == 102 && n[7] == 111 {
        proof { assert(n@ =~= nm_siteinfo()); }
        TagKind::Siteinfo
    } else if len == 9 && n[0] == SLASH && n[1] == 115 && n[2] == 105 && n[3] == 116
        && n[4] == 101 && n[5] == 105 && n[6] == 110 && n[7] == 102 && n[8] == 111 {
        proof { assert(n@ =~= closing(nm_siteinfo())); }
        TagKind::SiteinfoClose
    } else if len == 4 && n[0] == 112 && n[1] == 97 && n[2] == 103 && n[3] == 101 {
        proof { assert(n@ =~= nm_page()); }
        TagKind::Page
    } else if len == 5 && n[0] == SLASH && n[1] == 112 && n[2] == 97 && n[3] == 103 && n[4] == 101 {
        proof { assert(n@ =~= closing(nm_page())); }
        TagKind::PageClose
    } else if len == 5 && n[0] == 116 && n[1] == 105 && n[2] == 116 && n[3] == 108 && n[4] == 101 {
        proof { assert(n@ =~= nm_title()); }
        TagKind::Title
    } else if len == 2 && n[0] == 110 && n[1] == 115 {
        proof { assert(n@ =~= nm_ns()); }
        TagKind::Ns
    } else if len == 2 && n[0] == 105 && n[1] == 100 {
        proof { assert(n@ =~= nm_id()); }
        TagKind::Id
    } else {
        proof {
            assert(n@ != nm_mediawiki());
            assert(n@ != closing(nm_mediawiki()));
            assert(n@ != nm_siteinfo());
            assert(n@ != closing(nm_siteinfo()));
            assert(n@ != nm_page());
            assert(n@ != closing(nm_page()));
            assert(n@ != nm_title());
            assert(n@ != nm_ns());
            assert(n@ != nm_id());
        }
        TagKind::Other
    }
}

/// Does the line hold a `<` at all?
pub fn has_lt(line: &Vec<u8>) -> (r: bool)
    ensures
        r <==> contains_lt(line@),
{
    let mut i: usize = 0;
    while i < line.len()
        invariant
            i <= line.len(),
            forall|k: int| 0 <= k < i ==> line@[k] != LT,
        decreases line.len() - i,
    {
        if line[i] == LT {
            return true;
        }
        i += 1;
    }
    false
}

/// Find the leftmost tag span of the line, if any.
pub fn find_tag(line: &Vec<u8>) -> (r: Option<(usize, usize)>)
    ensures
        match r {
            Some(p) => first_tag_at(line@, p.0 as int, p.1 as int),
            None => !has_tag(line@),
        },
{
    let mut j: usize = 0;
    while j < line.len()
        invariant
            j <= line.len(),
            forall|j2: int, m2: int| j2 < j ==> !tag_at(line@, j2, m2),
        decreases line.len() - j,
    {
        if line[j] == LT {
            let mut m: usize = j + 1;
            while m < line.len() && !(line[m] == SP || line[m] == GT)
                invariant
                    j + 1 <= m <= line.len(),
                    forall|k: int| j < k < m ==> !is_term(line@[k]),
                decreases line.len() - m,
            {
                m += 1;
            }
            if m < line.len() {
                if m > j + 1 {
                    return Some((j, m));
                }
                // empty run: `l[j + 1]` already ends it, so no span starts at `j`
                assert forall|m2: int| !tag_at(line@, j as int, m2) by {
                    if tag_at(line@, j as int, m2) {
                        assert(is_term(line@[j + 1]));
                    }
                }
            } else {
                // no terminator up to the end of the line: nothing at or past `j` can close
                assert forall|j2: int, m2: int| !tag_at(line@, j2, m2) by {
                    if tag_at(line@, j2, m2) && j2 >= j {
                        assert(!is_term(line@[m2]));
                    }
                }
                return None;
            }
        }
        j += 1;
    }
    None
}

/// A line held a `<` but no well-formed tag name could be read.
#[derive(Clone, Copy, Debug, PartialEq, Eq, Structural)]
pub struct ClassifyError {}

/// What the classifier hands the state machine for one line.
#[derive(Debug)]
pub enum LineClass {
    /// No `<` in the line.
    Content,
    /// The leftmost tag: its structural kind and its name bytes
    /// (with the leading `/` of a closing tag).
    Tagged(TagKind, Vec<u8>),
}

/// Copy `line[s..e]` out into a fresh vector.
pub fn copy_range(line: &Vec<u8>, s: usize, e: usize) -> (r: Vec<u8>)
    requires
        s <= e <= line@.len(),
    ensures
        r@ == line@.subrange(s as int, e as int),
{
    let mut r: Vec<u8> = Vec::new();
    let mut i: usize = s;
    while i < e
        invariant
            s <= i <= e <= line@.len(),
            r@ == line@.subrange(s as int, i as int),
        decreases e - i,
    {
        r.push(line[i]);
        proof {
            assert(r@ =~= line@.subrange(s as int, i + 1));
        }
        i += 1;
    }
    r
}

/// Classify one line: plain content, a structural tag, or a fatal
/// classification error.
pub fn classify(line: &Vec<u8>) -> (r: Result<LineClass, ClassifyError>)
    ensures
        (spec_classify(line@) is Content <==> r matches Ok(LineClass::Content)),
        (spec_classify(line@) is Malformed <==> r is Err),
        (spec_classify(line@) matches SpecClass::Tagged(t) ==> r matches Ok(c) && c matches
            LineClass::Tagged(k, n) && n@ == t && k == spec_tag_kind(t)),
{
    if !has_lt(line) {
        return Ok(LineClass::Content);
    }
    match find_tag(line) {
        None => Err(ClassifyError {}),
        Some((j, m)) => {
            proof {
                lemma_tag_name(line@, j as int, m as int);
            }
            let name = copy_range(line, j + 1, m);
            let kind = tag_kind(&name);
            Ok(LineClass::Tagged(kind, name))
        },
    }
}

/// An inner-text span for tag name `n`: at `j` the line holds the
/// opening `<n>`, the text runs from the end of that opening to `e`
/// without any `<`, and at `e` stands the closing `</n>`.
pub open spec fn inner_at(l: Seq<u8>, n: Seq<u8>, j: int, e: int) -> bool {
    let s = j + n.len() + 2;
    &&& 0 <= j
    &&& s <= e
    &&& e + n.len() + 3 <= l.len()
    &&& l.subrange(j, s) == seq![LT] + n + seq![GT]
    &&& l.subrange(e, e + n.len() + 3) == seq![LT, SLASH] + n + seq![GT]
    &&& forall|k: int| s <= k < e ==> l[k] != LT
}

/// The leftmost inner-text span for `n` starts at `j`.
pub open spec fn first_inner_at(l: Seq<u8>, n: Seq<u8>, j: int, e: int) -> bool {
    &&& inner_at(l, n, j, e)
    &&& forall|j2: int, e2: int| inner_at(l, n, j2, e2) ==> j <= j2
}

/// The line holds `<n>text</n>` somewhere.
pub open spec fn has_inner(l: Seq<u8>, n: Seq<u8>) -> bool {
    exists|j: int, e: int| inner_at(l, n, j, e)
}

/// The text between the leftmost `<n>` and its `</n>`.
pub open spec fn inner_text(l: Seq<u8>, n: Seq<u8>) -> Seq<u8>
    recommends
        has_inner(l, n),
{
    let (j, e) = choose|j: int, e: int| first_inner_at(l, n, j, e);
    l.subrange(j + n.len() + 2, e)
}

/// The leftmost inner span is unique.
pub proof fn lemma_first_inner_unique(l: Seq<u8>, n: Seq<u8>, j1: int, e1: int, j2: int, e2: int)
    requires
        first_inner_at(l, n, j1, e1),
        first_inner_at(l, n, j2, e2),
    ensures
        j1 == j2,
        e1 == e2,
{
    assert(j1 <= j2 && j2 <= j1);
    let s = j1 + n.len() + 2;
    if e1 < e2 {
        assert(l.subrange(e1, e1 + n.len() + 3)[0] == LT);
        assert(l[e1] == LT);
    }
    if e2 < e1 {
        assert(l.subrange(e2, e2 + n.len() + 3)[0] == LT);
        assert(l[e2] == LT);
    }
}

/// Hence: a leftmost inner span yields the inner text.
pub proof fn lemma_inner_text(l: Seq<u8>, n: Seq<u8>, j: int, e: int)
    requires
        first_inner_at(l, n, j, e),
    ensures
        has_inner(l, n),
        inner_text(l, n) == l.subrange(j + n.len() + 2, e),
{
    let (jc, ec) = choose|jc: int, ec: int| first_inner_at(l, n, jc, ec);
    lemma_first_inner_unique(l, n, j, e, jc, ec);
}

/// Does the opening tag `<name>` stand at position `j` of the line?
pub fn opens_at(line: &Vec<u8>, name: &Vec<u8>, j: usize) -> (r: bool)
    ensures
        r <==> (j + name@.len() + 2 <= line@.len() && line@.subrange(
            j as int,
            j + name@.len() + 2,
        ) == seq![LT] + name@ + seq![GT]),
{
    let nl = name.len();
    if line.len() < 2 || nl > line.len() - 2 || j > line.len() - 2 - nl {
        return false;
    }
    if line[j] != LT || line[j + 1 + nl] != GT {
        proof {
            let pat = seq![LT] + name@ + seq![GT];
            if line@.subrange(j as int, j + nl + 2) == pat {
                assert(line@.subrange(j as int, j + nl + 2)[0] == line@[j as int]);
                assert(pat[0] == LT);
                assert(line@.subrange(j as int, j + nl + 2)[nl + 1] == line@[j + 1 + nl]);
                assert(pat[nl + 1] == GT);
            }
        }
        return false;
    }
    let mut k: usize = 0;
    while k < nl
        invariant
            k <= nl,
            nl == name@.len(),
            j + nl + 2 <= line@.len(),
            line@.len() <= usize::MAX,
            forall|t: int| 0 <= t < k ==> line@[j + 1 + t] == name@[t],
        decreases nl - k,
    {
        if line[j + 1 + k] != name[k] {
            assert(line@.subrange(j as int, j + nl + 2) != seq![LT] + name@ + seq![GT]) by {
                let pat = seq![LT] + name@ + seq![GT];
                assert(pat[k + 1] == name@[k as int]);
                assert(line@.subrange(j as int, j + nl + 2)[k + 1] == line@[j + 1 + k]);
            }
            return false;
        }
        k += 1;
    }
    proof {
        assert(line@.subrange(j as int, j + nl + 2) =~= seq![LT] + name@ + seq![GT]);
    }
    true
}

/// Does the closing tag `</name>` stand at position `e` of the line?
pub fn closes_at(line: &Vec<u8>, name: &Vec<u8>, e: usize) -> (r: bool)
    ensures
        r <==> (e + name@.len() + 3 <= line@.len() && line@.subrange(
            e as int,
            e + name@.len() + 3,
        ) == seq![LT, SLASH] + name@ + seq![GT]),
{
    let nl = name.len();
    if line.len() < 3 || nl > line.len() - 3 || e > line.len() - 3 - nl {
        return false;
    }
    if line[e] != LT || line[e + 1] != SLASH || line[e + 2 + nl] != GT {
        proof {
            let pat = seq![LT, SLASH] + name@ + seq![GT];
            if line@.subrange(e as int, e + nl + 3) == pat {
                assert(line@.subrange(e as int, e + nl + 3)[0] == line@[e as int]);
                assert(pat[0] == LT);
                assert(line@.subrange(e as int, e + nl + 3)[1] == line@[e + 1]);
                assert(pat[1] == SLASH);
                assert(line@.subrange(e as int, e + nl + 3)[nl + 2] == line@[e + 2 + nl]);
                assert(pat[nl + 2] == GT);
            }
        }
        return false;
    }
    let mut k: usize = 0;
    while k < nl
        invariant
            k <= nl,
            nl == name@.len(),
            e + nl + 3 <= line@.len(),
            line@.len() <= usize::MAX,
            forall|t: int| 0 <= t < k ==> line@[e + 2 + t] == name@[t],
        decreases nl - k,
    {
        if line[e + 2 + k] != name[k] {
            assert(line@.subrange(e as int, e + nl + 3) != seq![LT, SLASH] + name@ + seq![GT]) by {
                let pat = seq![LT, SLASH] + name@ + seq![GT];
                assert(pat[k + 2] == name@[k as int]);
                assert(line@.subrange(e as int, e + nl + 3)[k + 2] == line@[e + 2 + k]);
            }
            return false;
        }
        k += 1;
    }
    proof {
        assert(line@.subrange(e as int, e + nl + 3) =~= seq![LT, SLASH] + name@ + seq![GT]);
    }
    true
}

/// Find the leftmost `<name>text</name>` of the line: returns the
/// start and end of `text`.
pub fn extract_inner(line: &Vec<u8>, name: &Vec<u8>) -> (r: Option<(usize, usize)>)
    ensures
        match r {
            Some(p) => first_inner_at(line@, name@, p.0 - name@.len() - 2, p.1 as int),
            None => !has_inner(line@, name@),
        },
{
    let mut j: usize = 0;
    while j < line.len()
        invariant
            j <= line.len(),
            forall|j2: int, e2: int| j2 < j ==> !inner_at(line@, name@, j2, e2),
        decreases line.len() - j,
    {
        if opens_at(line, name, j) {
            let s = j + name.len() + 2;
            let mut e: usize = s;
            while e < line.len() && line[e] != LT
                invariant
                    s <= e <= line.len(),
                    forall|k: int| s <= k < e ==> line@[k] != LT,
                decreases line.len() - e,
            {
                e += 1;
            }
            let closed = e < line.len() && closes_at(line, name, e);
            if closed {
                proof {
                    assert(inner_at(line@, name@, j as int, e as int));
                }
                return Some((s, e));
            }
            // the first `<` at or after the text start does not begin
            // `</name>`, so no span starts at this `j`
            assert forall|e2: int| !inner_at(line@, name@, j as int, e2) by {
                if inner_at(line@, name@, j as int, e2) {
                    assert(line@.subrange(e2, e2 + name@.len() + 3)[0] == LT);
                    assert(line@[e2] == LT);
                    assert(e2 >= e);
                    if e2 > e {
                        assert(line@[e as int] != LT);
                    }
                }
            }
        }
        j += 1;
    }
    None
}

/// The exec bytes of `title`.
pub fn title_name() -> (v: Vec<u8>)
    ensures
        v@ == nm_title(),
{
    let mut v: Vec<u8> = Vec::new();
    v.push(116);
    v.push(105);
    v.push(116);
    v.push(108);
    v.push(101);
    proof {
        assert(v@ =~= nm_title());
    }
    v
}

/// The exec bytes of `id`.
pub fn id_name() -> (v: Vec<u8>)
    ensures
        v@ == nm_id(),
{
    let mut v: Vec<u8> = Vec::new();
    v.push(105);
    v.push(100);
    proof {
        assert(v@ =~= nm_id());
    }
    v
}

} // verus!
