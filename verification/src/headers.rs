//! The header map the filter hooks work on: an ordered list of
//! name/value pairs with an overwriting insert, as a proxy applies it to
//! request and response heads before forwarding them.

use vstd::prelude::*;
use vstd::string::StrSliceExecFns;

verus! {

/// One HTTP header field.
pub struct Header {
    pub name: String,
    pub value: String,
}

impl Clone for Header {
    fn clone(&self) -> (r: Self)
        ensures
            r == *self,
    {
        Header { name: self.name.clone(), value: self.value.clone() }
    }
}

/// Whether the map holds an entry with exactly this name and value.
pub open spec fn contains_header(hs: Seq<Header>, name: Seq<char>, value: Seq<char>) -> bool {
    exists|i: int| 0 <= i < hs.len() && hs[i].name@ == name && hs[i].value@ == value
}

/// Whether the map holds any entry with this name.
pub open spec fn has_name(hs: Seq<Header>, name: Seq<char>) -> bool {
    exists|i: int| 0 <= i < hs.len() && (#[trigger] hs[i]).name@ == name
}

/// Inserts `name: value`, overwriting: every entry already registered
/// under `name` is dropped, every other entry is kept in order, and the
/// new field is appended. Afterwards the map holds exactly one entry with
/// this name, and it holds this value.
pub fn insert_header(headers: &mut Vec<Header>, name: &str, value: &str)
    ensures
        final(headers)@.len() >= 1,
        final(headers)@.last().name@ == name@,
        final(headers)@.last().value@ == value@,
        final(headers)@.drop_last() == old(headers)@.filter(|h: Header| h.name@ != name@),
        contains_header(final(headers)@, name@, value@),
        forall|i: int|
            0 <= i < final(headers)@.len() - 1 ==> (#[trigger] final(headers)@[i]).name@ != name@,
{
    broadcast use vstd::seq_lib::group_filter_ensures;

    let mut out: Vec<Header> = Vec::new();
    let mut i: usize = 0;
    proof {
        assert(headers@.subrange(0, 0).filter(|h: Header| h.name@ != name@) =~= Seq::<
            Header,
        >::empty()) by {
            reveal(Seq::filter);
        }
    }
    while i < headers.len()
        invariant
            i <= headers@.len(),
            out@ == headers@.subrange(0, i as int).filter(|h: Header| h.name@ != name@),
        decreases headers@.len() - i,
    {
        let ghost prefix = headers@.subrange(0, i as int);
        let ghost next_prefix = headers@.subrange(0, i as int + 1);
        let keep = !str_eq(headers[i].name.as_str(), name);
        if keep {
            out.push(headers[i].clone());
        }
        proof {
            assert(next_prefix.drop_last() =~= prefix);
            assert(next_prefix.last() == headers@[i as int]);
            reveal(Seq::filter);
        }
        i = i + 1;
    }
    proof {
        assert(headers@.subrange(0, headers@.len() as int) =~= headers@);
    }
    out.push(Header { name: name.to_owned(), value: value.to_owned() });
    *headers = out;
    proof {
        assert(headers@.drop_last() =~= old(headers)@.filter(|h: Header| h.name@ != name@));
        assert(contains_header(headers@, name@, value@)) by {
            assert(headers@[headers@.len() - 1].name@ == name@);
        }
    }
}

/// The value registered under `name`, if any: the first matching entry's
/// value, `None` exactly when no entry carries the name.
pub fn get_header<'a>(headers: &'a Vec<Header>, name: &str) -> (r: Option<&'a String>)
    ensures
        r is Some <==> has_name(headers@, name@),
        r matches Some(v) ==> contains_header(headers@, name@, v@),
        r matches Some(v) ==> exists|i: int|
            {
                &&& 0 <= i < headers@.len()
                &&& (#[trigger] headers@[i]).name@ == name@
                &&& headers@[i].value == *v
                &&& forall|j: int| 0 <= j < i ==> (#[trigger] headers@[j]).name@ != name@
            },
{
    let mut i: usize = 0;
    while i < headers.len()
        invariant
            i <= headers@.len(),
            forall|j: int| 0 <= j < i as int ==> (#[trigger] headers@[j]).name@ != name@,
        decreases headers@.len() - i,
    {
        if str_eq(headers[i].name.as_str(), name) {
            return Some(&headers[i].value);
        }
        i = i + 1;
    }
    None
}

/// Character-for-character equality of two string slices.
pub fn str_eq(a: &str, b: &str) -> (r: bool)
    ensures
        r == (a@ == b@),
{
    let al = a.unicode_len();
    let bl = b.unicode_len();
    if al != bl {
        proof {
            assert(a@ != b@) by {
                assert(a@.len() != b@.len());
            }
        }
        return false;
    }
    let mut i: usize = 0;
    while i < al
        invariant
            i <= al,
            al == a@.len(),
            al == b@.len(),
            forall|j: int| 0 <= j < i as int ==> a@[j] == b@[j],
        decreases al - i,
    {
        if a.get_char(i) != b.get_char(i) {
            return false;
        }
        i = i + 1;
    }
    proof {
        assert(a@ =~= b@);
    }
    true
}

} // verus!
