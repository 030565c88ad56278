//! The identifier allow-list loader.
//!
//! The list is a delimited-record text: one header row, then one
//! record per line whose first field (up to the first comma) is an
//! unsigned 64-bit identifier.  Empty lines carry no record.  Any
//! other first field is a fatal error.

use vstd::prelude::*;

use crate::idset::IdSet;
use crate::numbers::{u64_of_text, valid_u64_text};
use crate::numbers::parse_u64;
use crate::tags::copy_range;
use crate::filter::lv;

verus! {

/// `,`
pub const COMMA: u8 = 44;

/// `f` is the first field of the line: everything before the first
/// comma, or the whole line where no comma stands.
pub open spec fn is_first_field(l: Seq<u8>, f: Seq<u8>) -> bool {
    exists|c: int|
        {
            &&& 0 <= c <= l.len()
            &&& f == #[trigger] l.take(c)
            &&& (forall|k: int| 0 <= k < c ==> l[k] != COMMA)
            &&& (c == l.len() || l[c] == COMMA)
        }
}

/// The first field of the line.
pub open spec fn first_field(l: Seq<u8>) -> Seq<u8> {
    choose|f: Seq<u8>| is_first_field(l, f)
}

/// A witness split position names the first field.
pub proof fn lemma_first_field(l: Seq<u8>, c: int)
    requires
        0 <= c <= l.len(),
        forall|k: int| 0 <= k < c ==> l[k] != COMMA,
        c == l.len() || l[c] == COMMA,
    ensures
        is_first_field(l, l.take(c)),
        first_field(l) == l.take(c),
{
    assert(is_first_field(l, l.take(c)));
    let f2 = choose|f: Seq<u8>| is_first_field(l, f);
    assert(is_first_field(l, f2));
    let c2 = choose|c2: int|
        {
            &&& 0 <= c2 <= l.len()
            &&& f2 == #[trigger] l.take(c2)
            &&& (forall|k: int| 0 <= k < c2 ==> l[k] != COMMA)
            &&& (c2 == l.len() || l[c2] == COMMA)
        };
    if c < c2 {
        assert(l[c] != COMMA);
    }
    if c2 < c {
        assert(l[c2] != COMMA);
    }
    assert(l.take(c) =~= l.take(c2));
}

/// What loading the data rows yields: the set of identifiers, or the
/// index (into the rows) of the first unparseable first field.
#[verifier::ext_equal]
pub ghost enum LoadSpec {
    Loaded(Set<u64>),
    Fail { at: int, text: Seq<u8> },
}

/// Load the data rows, in order: skip empty lines, parse each first
/// field, and collect the identifiers as a set.
pub open spec fn spec_load_rows(rows: Seq<Seq<u8>>) -> LoadSpec
    decreases rows.len(),
{
    if rows.len() == 0 {
        LoadSpec::Loaded(Set::empty())
    } else if rows[0].len() == 0 {
        match spec_load_rows(rows.drop_first()) {
            LoadSpec::Loaded(s) => LoadSpec::Loaded(s),
            LoadSpec::Fail { at, text } => LoadSpec::Fail { at: at + 1, text },
        }
    } else {
        let f = first_field(rows[0]);
        if !valid_u64_text(f) {
            LoadSpec::Fail { at: 0, text: f }
        } else {
            match spec_load_rows(rows.drop_first()) {
                LoadSpec::Loaded(s) => LoadSpec::Loaded(
                    s.insert(u64_of_text(f) as u64),
                ),
                LoadSpec::Fail { at, text } => LoadSpec::Fail { at: at + 1, text },
            }
        }
    }
}

/// Load a whole identifier list: the first line is the header and is
/// discarded, the rest are the data rows.
pub open spec fn spec_load(lines: Seq<Seq<u8>>) -> LoadSpec {
    if lines.len() == 0 {
        LoadSpec::Loaded(Set::empty())
    } else {
        match spec_load_rows(lines.drop_first()) {
            LoadSpec::Loaded(s) => LoadSpec::Loaded(s),
            LoadSpec::Fail { at, text } => LoadSpec::Fail { at: at + 1, text },
        }
    }
}

/// A record whose first field is not an unsigned 64-bit integer, at
/// the given input line.
#[derive(Debug)]
pub struct LoadError {
    pub line: usize,
    pub text: Vec<u8>,
}

/// Find where the first field of the line ends.
fn field_end(line: &Vec<u8>) -> (c: usize)
    ensures
        c <= line@.len(),
        forall|k: int| 0 <= k < c ==> line@[k] != COMMA,
        c == line@.len() || line@[c as int] == COMMA,
{
    let mut c: usize = 0;
    while c < line.len() && line[c] != COMMA
        invariant
            0 <= c <= line@.len(),
            forall|k: int| 0 <= k < c ==> line@[k] != COMMA,
        decreases line@.len() - c,
    {
        c += 1;
    }
    c
}

/// Load the identifier list from its lines.
pub fn load_id_list(lines: &Vec<Vec<u8>>) -> (r: Result<IdSet, LoadError>)
    ensures
        match spec_load(lv(lines@)) {
            LoadSpec::Loaded(s) => r matches Ok(ids) && ids@ == s,
            LoadSpec::Fail { at, text } => r matches Err(e) && e.line as int == at && e.text@
                == text,
        },
{
    let ghost all = lv(lines@);
    let mut ids = IdSet::new();
    if lines.len() == 0 {
        return Ok(ids);
    }
    let mut i: usize = 1;
    proof {
        assert(all.drop_first() =~= all.skip(1));
    }
    while i < lines.len()
        invariant
            1 <= i <= lines@.len(),
            all == lv(lines@),
            all.len() == lines@.len(),
            match spec_load_rows(all.skip(i as int)) {
                LoadSpec::Loaded(s) => spec_load(all) == LoadSpec::Loaded(ids@.union(s)),
                LoadSpec::Fail { at, text } => spec_load(all) == (LoadSpec::Fail {
                    at: at + i,
                    text,
                }),
            },
        decreases lines@.len() - i,
    {
        let ghost rest = all.skip(i as int);
        proof {
            assert(rest.len() > 0);
            assert(rest[0] == all[i as int]);
            assert(rest.drop_first() =~= all.skip(i + 1));
        }
        let line: &Vec<u8> = &lines[i];
        if line.len() > 0 {
            let c = field_end(line);
            proof {
                lemma_first_field(line@, c as int);
            }
            let field = copy_range(line, 0, c);
            proof {
                assert(field@ =~= line@.take(c as int));
            }
            match parse_u64(&field) {
                None => {
                    return Err(LoadError { line: i, text: field });
                },
                Some(v) => {
                    proof {
                        assert(first_field(rest[0]) == field@);
                        assert(v == u64_of_text(field@) as u64);
                    }
                    let ghost pre = ids@;
                    ids.insert(v);
                    proof {
                        match spec_load_rows(all.skip(i + 1)) {
                            LoadSpec::Loaded(s2) => {
                                assert(spec_load_rows(rest) == LoadSpec::Loaded(s2.insert(v)));
                                assert(pre.union(s2.insert(v)) =~= pre.insert(v).union(s2));
                            },
                            LoadSpec::Fail { at, text } => {},
                        }
                    }
                },
            }
        }
        i += 1;
    }
    proof {
        assert(all.skip(i as int) =~= Seq::<Seq<u8>>::empty());
        assert(spec_load_rows(all.skip(i as int)) == LoadSpec::Loaded(Set::<u64>::empty()));
        assert(ids@.union(Set::<u64>::empty()) =~= ids@);
    }
    Ok(ids)
}

} // verus!
