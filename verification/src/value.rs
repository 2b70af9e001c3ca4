//! The JSON value tree that the formatter walks: a tagged union over
//! strings, numbers, booleans, null, ordered arrays and ordered
//! objects. Numbers are carried as their decimal text form, exactly as
//! the parser rendered them, so the formatter never re-derives
//! precision. Object members are an ordered sequence of pairs:
//! insertion order is significant and preserved.

use vstd::prelude::*;

verus! {

/// One node of a parsed JSON document.
pub enum Json {
    /// A JSON string (unescaped content).
    Text(String),
    /// A JSON number, as its canonical decimal text.
    Num(String),
    /// A JSON boolean.
    Bool(bool),
    /// JSON null.
    Null,
    /// A JSON array, in element order.
    Arr(Vec<Json>),
    /// A JSON object, as key/value pairs in source order.
    Obj(Vec<(String, Json)>),
}

/// Nesting depth of a value: 0 for leaves, one more than the deepest
/// child for arrays and objects.
pub open spec fn height(v: Json) -> nat
    decreases v, 0int,
{
    match v {
        Json::Arr(a) => 1 + elems_height(a@),
        Json::Obj(o) => 1 + members_height(o@),
        _ => 0,
    }
}

/// Height of the deepest element of a sequence of values.
pub open spec fn elems_height(s: Seq<Json>) -> nat
    decreases s, 1int,
{
    if s.len() == 0 {
        0
    } else {
        let h0 = height(s[0]);
        let hr = elems_height(s.drop_first());
        if h0 >= hr {
            h0
        } else {
            hr
        }
    }
}

/// Height of the deepest value among a sequence of key/value pairs.
pub open spec fn members_height(s: Seq<(String, Json)>) -> nat
    decreases s, 2int,
{
    if s.len() == 0 {
        0
    } else {
        let h0 = pair_height(s[0]);
        let hr = members_height(s.drop_first());
        if h0 >= hr {
            h0
        } else {
            hr
        }
    }
}

/// Height of the value of one key/value pair.
pub open spec fn pair_height(p: (String, Json)) -> nat
    decreases p, 1int,
{
    height(p.1)
}

/// Every element's height is bounded by the sequence's height.
pub proof fn lemma_elem_height(s: Seq<Json>, i: int)
    requires
        0 <= i < s.len(),
    ensures
        height(s[i]) <= elems_height(s),
    decreases s.len(),
{
    if i > 0 {
        lemma_elem_height(s.drop_first(), i - 1);
        assert(s.drop_first()[i - 1] == s[i]);
    }
}

/// Every pair's value height is bounded by the sequence's height.
pub proof fn lemma_member_height(s: Seq<(String, Json)>, i: int)
    requires
        0 <= i < s.len(),
    ensures
        height(s[i].1) <= members_height(s),
    decreases s.len(),
{
    if i == 0 {
        assert(pair_height(s[0]) == height(s[0].1));
        assert(members_height(s) >= pair_height(s[0]));
    } else {
        lemma_member_height(s.drop_first(), i - 1);
        assert(s.drop_first()[i - 1] == s[i]);
        assert(members_height(s) >= members_height(s.drop_first()));
    }
}

} // verus!
