//! The Dynamic Value model: an untyped, self-describing tree value that
//! serves as the interchange representation for record conversions.

use vstd::prelude::*;

verus! {

/// An untyped tree value: objects, arrays, strings, integers, booleans, null.
///
/// An object is a list of members in insertion order; a key may in principle
/// occur twice, and a lookup then finds the first occurrence.
#[derive(Debug, PartialEq)]
pub enum DynValue {
    Null,
    Bool(bool),
    Int(i64),
    Str(String),
    Arr(Vec<DynValue>),
    Obj(Vec<(String, DynValue)>),
}

/// The first value bound to `name` among `members`, if any.
pub open spec fn spec_find(members: Seq<(String, DynValue)>, name: Seq<char>) -> Option<DynValue>
    decreases members.len(),
{
    if members.len() == 0 {
        None
    } else if members[0].0@ == name {
        Some(members[0].1)
    } else {
        spec_find(members.skip(1), name)
    }
}

/// Looks a member up by name; returns the first match, as `spec_find` does.
pub fn find_member<'a>(members: &'a Vec<(String, DynValue)>, name: &String) -> (r: Option<
    &'a DynValue,
>)
    ensures
        match r {
            Some(v) => spec_find(members@, name@) == Some(*v),
            None => spec_find(members@, name@) is None,
        },
{
    proof {
        assert(members@.skip(0) =~= members@);
    }
    let n = members.len();
    for i in 0..n
        invariant
            n == members@.len(),
            spec_find(members@, name@) == spec_find(members@.skip(i as int), name@),
    {
        proof {
            assert(members@.skip(i as int)[0] == members@[i as int]);
        }
        let m = &members[i];
        if m.0.eq(name) {
            return Some(&m.1);
        }
        proof {
            assert(members@.skip(i as int).skip(1) =~= members@.skip(i + 1));
        }
    }
    None
}

} // verus!
