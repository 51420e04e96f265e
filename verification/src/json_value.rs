//! A plain model of a JSON document: the claims tree that a decoded
//! presentation yields, and the value a constraint filter is checked against.
//!
//! Numbers are carried as 64-bit signed integers; a number outside that range
//! is recorded only as present (`OtherNumber`), since its exact value plays no
//! part in the verified checks.

use vstd::prelude::*;

verus! {

/// One JSON value: the generic tree a decoded presentation is queried against.
#[derive(Debug)]
pub enum JsonValue {
    Null,
    Bool(bool),
    Int(i64),
    /// A number with no 64-bit-integer reading; only its presence is kept.
    OtherNumber,
    String(String),
    Array(Vec<JsonValue>),
    Object(Vec<(String, JsonValue)>),
}

impl JsonValue {
    /// Whether `key` is among the members of `obj`.
    pub open spec fn spec_obj_has_key(obj: Seq<(String, JsonValue)>, key: Seq<char>) -> bool {
        exists|i: int| 0 <= i < obj.len() && #[trigger] obj[i].0@ == key
    }

    /// The member of `obj` named `key`, reading from the back so that a
    /// later duplicate of a key shadows an earlier one.
    pub open spec fn spec_obj_get(obj: Seq<(String, JsonValue)>, key: Seq<char>) -> Option<JsonValue>
        decreases obj.len(),
    {
        if obj.len() == 0 {
            None
        } else if obj.last().0@ == key {
            Some(obj.last().1)
        } else {
            Self::spec_obj_get(obj.drop_last(), key)
        }
    }

    /// A key is found by `spec_obj_get` exactly when the object has it.
    pub proof fn lemma_obj_get_has_key(obj: Seq<(String, JsonValue)>, key: Seq<char>)
        ensures
            Self::spec_obj_get(obj, key) is Some <==> Self::spec_obj_has_key(obj, key),
        decreases obj.len(),
    {
        if obj.len() > 0 {
            Self::lemma_obj_get_has_key(obj.drop_last(), key);
            if obj.last().0@ == key {
                assert(obj[obj.len() - 1].0@ == key);
            } else if Self::spec_obj_has_key(obj, key) {
                let i = choose|i: int| 0 <= i < obj.len() && #[trigger] obj[i].0@ == key;
                assert(obj.drop_last()[i] == obj[i]);
            } else {
                assert(forall|i: int|
                    0 <= i < obj.drop_last().len() ==> #[trigger] obj.drop_last()[i] == obj[i]);
            }
        }
    }

    /// Looks a member up by key, the last binding of the key winning.
    pub fn obj_get<'a>(obj: &'a Vec<(String, JsonValue)>, key: &String) -> (r: Option<&'a JsonValue>)
        ensures
            match r {
                Some(v) => Self::spec_obj_get(obj@, key@) == Some(*v),
                None => Self::spec_obj_get(obj@, key@) is None,
            },
    {
        let mut i: usize = obj.len();
        assert(obj@.take(obj.len() as int) =~= obj@);
        while i > 0
            invariant
                i <= obj.len(),
                Self::spec_obj_get(obj@, key@) == Self::spec_obj_get(obj@.take(i as int), key@),
            decreases i,
        {
            i = i - 1;
            assert(obj@.take(i as int + 1).drop_last() =~= obj@.take(i as int));
            assert(obj@.take(i as int + 1).last() == obj@[i as int]);
            if obj[i].0.eq(key) {
                return Some(&obj[i].1);
            }
        }
        assert(obj@.take(0) =~= Seq::<(String, JsonValue)>::empty());
        None
    }
}

} // verus!
