//! A structured value model for everything that crosses the sandbox
//! boundary: request payloads, sandbox outputs, and response bodies.
//!
//! Values are trees of `JsonValue`; an object is an ordered list of
//! members and a lookup finds the first member with a given key.

use vstd::prelude::*;

verus! {

/// One `key: value` member of an object.
#[derive(Debug, PartialEq)]
pub struct JsonMember {
    pub key: String,
    pub value: JsonValue,
}

/// A structured (JSON-shaped) value. Numbers are integral: the sandbox
/// protocol of this core only relies on integral numbers (status codes,
/// counters), and fractional numbers are out of the verified surface.
#[derive(Debug, PartialEq)]
pub enum JsonValue {
    Null,
    Bool(bool),
    Int(i64),
    Str(String),
    Arr(Vec<JsonValue>),
    Obj(Vec<JsonMember>),
}

/// The value of the first member of `members` whose key reads `k`, if any.
pub open spec fn obj_lookup(members: Seq<JsonMember>, k: Seq<char>) -> Option<JsonValue>
    decreases members.len(),
{
    if members.len() == 0 {
        None
    } else if members[0].key@ == k {
        Some(members[0].value)
    } else {
        obj_lookup(members.skip(1), k)
    }
}

/// Whether an object member list carries the key `k`.
pub open spec fn obj_has_key(members: Seq<JsonMember>, k: Seq<char>) -> bool {
    obj_lookup(members, k) is Some
}

pub(crate) proof fn lemma_obj_lookup_step(members: Seq<JsonMember>, k: Seq<char>, i: int)
    requires
        0 <= i <= members.len(),
        forall|j: int| 0 <= j < i ==> members[j].key@ != k,
    ensures
        obj_lookup(members, k) == obj_lookup(members.skip(i), k),
    decreases i,
{
    if i == 0 {
        assert(members.skip(0) =~= members);
    } else {
        lemma_obj_lookup_step(members.skip(1), k, i - 1);
        assert(members.skip(1).skip(i - 1) =~= members.skip(i));
    }
}

impl JsonValue {
    /// The first member of `members` with key `k`, searched front to back.
    pub fn lookup<'a>(members: &'a Vec<JsonMember>, k: &str) -> (r: Option<&'a JsonValue>)
        ensures
            match r {
                Some(v) => obj_lookup(members@, k@) == Some(*v),
                None => obj_lookup(members@, k@) is None,
            },
    {
        let mut i: usize = 0;
        while i < members.len()
            invariant
                i <= members@.len(),
                forall|j: int| 0 <= j < i ==> members@[j].key@ != k@,
            decreases members@.len() - i,
        {
            if crate::strutil::str_eq(members[i].key.as_str(), k) {
                proof {
                    lemma_obj_lookup_step(members@, k@, i as int);
                    assert(members@.skip(i as int)[0] == members@[i as int]);
                }
                return Some(&members[i].value);
            }
            i += 1;
        }
        proof {
            lemma_obj_lookup_step(members@, k@, members@.len() as int);
        }
        None
    }
}

} // verus!
