use vstd::prelude::*;
use vstd::string::{StrSliceExecFns, StringExecFns};

use crate::error::SchemaError;
use crate::schema::Schema;
use crate::shape::{definitions_prefix, is_def_index, ref_name};

verus! {

/// The definition name of a reference path, or `None` when the path does not
/// point into the definition table.
pub fn strip_definitions_prefix(reference: &String) -> (r: Option<String>)
    ensures
        match r {
            Some(n) => ref_name(reference@) == Some(n@),
            None => ref_name(reference@) is None,
        },
{
    let prefix = "#/definitions/";
    proof {
        reveal_strlit("#/definitions/");
        assert(prefix@ =~= definitions_prefix());
    }
    let s = reference.as_str();
    let n = s.unicode_len();
    let plen = prefix.unicode_len();
    if n < plen {
        return None;
    }
    let mut i: usize = 0;
    while i < plen
        invariant
            plen == definitions_prefix().len(),
            prefix@ == definitions_prefix(),
            plen <= n,
            n == s@.len(),
            s@ == reference@,
            i <= plen,
            forall|j: int| 0 <= j < i ==> s@[j] == prefix@[j],
        decreases plen - i,
    {
        if s.get_char(i) != prefix.get_char(i) {
            proof {
                assert(reference@.subrange(0, plen as int)[i as int] != definitions_prefix()[i as int]);
            }
            return None;
        }
        i = i + 1;
    }
    proof {
        assert(reference@.subrange(0, plen as int) =~= definitions_prefix());
    }
    Some(String::from_str(s.substring_char(plen, n)))
}

/// The index of the first definition named `name`.
pub fn find_definition(defs: &Vec<(String, Schema)>, name: &String) -> (r: Option<usize>)
    ensures
        match r {
            Some(i) => is_def_index(defs@, name@, i as int),
            None => forall|j: int| 0 <= j < defs@.len() ==> defs@[j].0@ != name@,
        },
{
    let mut i: usize = 0;
    while i < defs.len()
        invariant
            i <= defs@.len(),
            forall|j: int| 0 <= j < i ==> defs@[j].0@ != name@,
        decreases defs.len() - i,
    {
        if defs[i].0 == *name {
            return Some(i);
        }
        i = i + 1;
    }
    None
}

/// Resolves a reference path against the definition table.
pub fn resolve_reference(defs: &Vec<(String, Schema)>, reference: &String) -> (r: Result<usize, SchemaError>)
    ensures
        match r {
            Ok(i) => ref_name(reference@) matches Some(n) && is_def_index(defs@, n, i as int),
            Err(e) => e == SchemaError::UnresolvedReference(*reference) && (ref_name(reference@)
                matches Some(n) ==> forall|j: int| 0 <= j < defs@.len() ==> defs@[j].0@ != n),
        },
{
    match strip_definitions_prefix(reference) {
        Some(name) => match find_definition(defs, &name) {
            Some(i) => Ok(i),
            None => Err(SchemaError::UnresolvedReference(reference.clone())),
        },
        None => Err(SchemaError::UnresolvedReference(reference.clone())),
    }
}

} // verus!
