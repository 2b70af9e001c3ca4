//! The tree-to-text transformation: walking a JSON value tree and
//! emitting indented Lua table syntax. Indentation is one tab per
//! nesting level, every key is a bracketed double-quoted string, and
//! every entry — including the last of its container — ends with a
//! comma and a newline.

use vstd::prelude::*;

use crate::escape::{escape_seq, validate_string};
use crate::value::{height, lemma_elem_height, lemma_member_height, members_height, Json};

verus! {

/// The indentation for a nesting depth: that many tab characters.
pub open spec fn indent_seq(depth: nat) -> Seq<char>
    decreases depth,
{
    if depth == 0 {
        Seq::empty()
    } else {
        indent_seq((depth - 1) as nat) + seq!['\t']
    }
}

/// An indentation is exactly as long as the depth it stands for.
pub proof fn lemma_indent_len(depth: nat)
    ensures
        indent_seq(depth).len() == depth,
    decreases depth,
{
    if depth > 0 {
        lemma_indent_len((depth - 1) as nat);
    }
}

/// What precedes a value: `["<escaped key>"] = ` when a key label is
/// present, nothing for array elements and the root document.
pub open spec fn key_prefix(key: Option<Seq<char>>) -> Seq<char> {
    match key {
        Some(k) => seq!['[', '"'] + escape_seq(k) + seq!['"', ']', ' ', '=', ' '],
        None => Seq::empty(),
    }
}

/// The Lua literal for one JSON value at the given depth, without
/// indentation, key or trailing comma.
pub open spec fn render_value(v: Json, depth: nat) -> Seq<char>
    decreases v, 0int,
{
    match v {
        Json::Text(s) => seq!['"'] + escape_seq(s@) + seq!['"'],
        Json::Num(t) => t@,
        Json::Bool(b) => if b {
            "true"@
        } else {
            "false"@
        },
        Json::Null => "nil"@,
        Json::Arr(a) => seq!['[', '\n'] + render_elems(a@, depth + 1) + indent_seq(depth)
            + seq![']'],
        Json::Obj(o) => seq!['{', '\n'] + render_members(o@, depth + 1) + indent_seq(depth)
            + seq!['}'],
    }
}

/// One full entry line (or block): indentation, optional key, the
/// value, and the unconditional trailing `,\n`.
pub open spec fn render_entry(key: Option<Seq<char>>, v: Json, depth: nat) -> Seq<char>
    decreases v, 1int,
{
    indent_seq(depth) + key_prefix(key) + render_value(v, depth) + seq![',', '\n']
}

/// The entries of an array, each rendered without a key, in order.
pub open spec fn render_elems(s: Seq<Json>, depth: nat) -> Seq<char>
    decreases s, 3int,
{
    if s.len() == 0 {
        Seq::empty()
    } else {
        render_entry(None, s[0], depth) + render_elems(s.drop_first(), depth)
    }
}

/// One object member: the value rendered under its key.
pub open spec fn render_member(p: (String, Json), depth: nat) -> Seq<char>
    decreases p, 2int,
{
    render_entry(Some(p.0@), p.1, depth)
}

/// The members of an object, each rendered under its key, in order.
pub open spec fn render_members(s: Seq<(String, Json)>, depth: nat) -> Seq<char>
    decreases s, 3int,
{
    if s.len() == 0 {
        Seq::empty()
    } else {
        render_member(s[0], depth) + render_members(s.drop_first(), depth)
    }
}

/// The whole document: `{`, a newline, the top-level members at depth
/// 1, and a closing `}` with no trailing comma or newline.
pub open spec fn render_doc(entries: Seq<(String, Json)>) -> Seq<char> {
    seq!['{', '\n'] + render_members(entries, 1) + seq!['}']
}

/// Rendering array entries distributes over concatenation: elements
/// are rendered one after another, in order, independently.
pub proof fn lemma_elems_concat(s1: Seq<Json>, s2: Seq<Json>, depth: nat)
    ensures
        render_elems(s1 + s2, depth) == render_elems(s1, depth) + render_elems(s2, depth),
    decreases s1.len(),
{
    if s1.len() == 0 {
        assert(s1 + s2 =~= s2);
        assert(render_elems(s1, depth) + render_elems(s2, depth) =~= render_elems(s2, depth));
    } else {
        assert((s1 + s2).drop_first() =~= s1.drop_first() + s2);
        lemma_elems_concat(s1.drop_first(), s2, depth);
        assert(render_elems(s1 + s2, depth) =~= render_elems(s1, depth) + render_elems(
            s2,
            depth,
        ));
    }
}

/// Rendering object members distributes over concatenation: members
/// are rendered one after another, in source order, independently —
/// the output order of `["key"] = value` lines is exactly the input
/// order of the keys, for arbitrarily many keys.
pub proof fn lemma_members_concat(s1: Seq<(String, Json)>, s2: Seq<(String, Json)>, depth: nat)
    ensures
        render_members(s1 + s2, depth) == render_members(s1, depth) + render_members(s2, depth),
    decreases s1.len(),
{
    if s1.len() == 0 {
        assert(s1 + s2 =~= s2);
        assert(render_members(s1, depth) + render_members(s2, depth) =~= render_members(
            s2,
            depth,
        ));
    } else {
        assert((s1 + s2).drop_first() =~= s1.drop_first() + s2);
        lemma_members_concat(s1.drop_first(), s2, depth);
        assert(render_members(s1 + s2, depth) =~= render_members(s1, depth) + render_members(
            s2,
            depth,
        ));
    }
}

/// Rendering one more array element appends exactly its entry.
pub proof fn lemma_elems_snoc(s: Seq<Json>, x: Json, depth: nat)
    ensures
        render_elems(s + seq![x], depth) == render_elems(s, depth) + render_entry(
            None,
            x,
            depth,
        ),
{
    lemma_elems_concat(s, seq![x], depth);
    assert(seq![x].drop_first() =~= Seq::<Json>::empty());
    assert(render_elems(seq![x], depth) == render_entry(None, x, depth) + render_elems(
        Seq::<Json>::empty(),
        depth,
    ));
    assert(render_entry(None, x, depth) + Seq::<char>::empty() =~= render_entry(None, x, depth));
}

/// Rendering one more object member appends exactly its entry.
pub proof fn lemma_members_snoc(s: Seq<(String, Json)>, p: (String, Json), depth: nat)
    ensures
        render_members(s + seq![p], depth) == render_members(s, depth) + render_member(p, depth),
{
    lemma_members_concat(s, seq![p], depth);
    assert(seq![p].drop_first() =~= Seq::<(String, Json)>::empty());
    assert(render_members(seq![p], depth) == render_member(p, depth) + render_members(
        Seq::<(String, Json)>::empty(),
        depth,
    ));
    assert(render_member(p, depth) + Seq::<char>::empty() =~= render_member(p, depth));
}

/// Each JSON primitive maps to exactly its documented Lua literal, at
/// every depth: strings double-quoted with their content escaped,
/// numbers as their decimal text, booleans as `true` and `false`,
/// null as `nil`.
pub proof fn lemma_primitive_literals(s: String, t: String, depth: nat)
    ensures
        render_value(Json::Text(s), depth) == seq!['"'] + escape_seq(s@) + seq!['"'],
        render_value(Json::Num(t), depth) == t@,
        render_value(Json::Bool(true), depth) == "true"@,
        render_value(Json::Bool(false), depth) == "false"@,
        render_value(Json::Null, depth) == "nil"@,
{
}

/// The indentation of an entry equals its nesting depth: the entry
/// opens with `depth` tabs, and when the value is an array or an
/// object, the closing bracket is indented by the same `depth` tabs
/// as the line that opened it.
pub proof fn lemma_entry_indentation(key: Option<Seq<char>>, v: Json, depth: nat)
    ensures
        render_entry(key, v, depth).len() >= depth + 2,
        render_entry(key, v, depth).take(depth as int) == indent_seq(depth),
        (v is Arr || v is Obj) ==> render_entry(key, v, depth).len() >= depth + 3,
        (v is Arr || v is Obj) ==> (({
            let r = render_entry(key, v, depth);
            r.subrange(r.len() - (depth + 3), r.len() - 3) == indent_seq(depth)
        })),
{
    lemma_indent_len(depth);
    let r = render_entry(key, v, depth);
    assert(r.take(depth as int) =~= indent_seq(depth));
    match v {
        Json::Arr(_) => {
            assert(r.subrange(r.len() - (depth + 3), r.len() - 3) =~= indent_seq(depth));
        },
        Json::Obj(_) => {
            assert(r.subrange(r.len() - (depth + 3), r.len() - 3) =~= indent_seq(depth));
        },
        _ => {},
    }
}

/// Every entry — whatever its kind and wherever it stands, the last
/// of its container included — ends with a comma and a newline.
pub proof fn lemma_trailing_comma(key: Option<Seq<char>>, v: Json, depth: nat)
    ensures
        render_entry(key, v, depth).len() >= 2,
        render_entry(key, v, depth)[render_entry(key, v, depth).len() - 2] == ',',
        render_entry(key, v, depth)[render_entry(key, v, depth).len() - 1] == '\n',
{
}

/// The document opens with `{` and a newline and closes with a final
/// `}` that has no comma or newline after it.
pub proof fn lemma_doc_shape(entries: Seq<(String, Json)>)
    ensures
        render_doc(entries).len() >= 3,
        render_doc(entries)[0] == '{',
        render_doc(entries)[1] == '\n',
        render_doc(entries)[render_doc(entries).len() - 1] == '}',
{
}

/// The key label handed to `walk`, as seen by the specification.
pub open spec fn key_view(key: Option<&str>) -> Option<Seq<char>> {
    match key {
        Some(k) => Some(k@),
        None => None,
    }
}

/// Render one entry: indentation, the optional bracketed key, the
/// value — recursing into arrays and objects one level deeper — and
/// the unconditional trailing `,\n`.
pub fn walk(key: Option<&str>, value: &Json, depth: usize) -> (r: String)
    requires
        depth + height(*value) <= usize::MAX,
    ensures
        r@ == render_entry(key_view(key), *value, depth as nat),
    decreases *value,
{
    let mut lua = get_indent(depth);
    if let Some(k) = key {
        proof {
            reveal_strlit("[\"");
            reveal_strlit("\"] = ");
        }
        lua.append("[\"");
        let ek = validate_string(k);
        lua.append(ek.as_str());
        lua.append("\"] = ");
    }
    proof {
        assert(lua@ =~= indent_seq(depth as nat) + key_prefix(key_view(key)));
    }
    let ghost pre = indent_seq(depth as nat) + key_prefix(key_view(key));
    match value {
        Json::Text(s) => {
            proof {
                reveal_strlit("\"");
            }
            lua.append("\"");
            let es = validate_string(s.as_str());
            lua.append(es.as_str());
            lua.append("\"");
            proof {
                assert(lua@ =~= pre + render_value(*value, depth as nat));
            }
        },
        Json::Num(t) => {
            lua.append(t.as_str());
            proof {
                assert(lua@ =~= pre + render_value(*value, depth as nat));
            }
        },
        Json::Bool(b) => {
            if *b {
                lua.append("true");
            } else {
                lua.append("false");
            }
            proof {
                assert(lua@ =~= pre + render_value(*value, depth as nat));
            }
        },
        Json::Null => {
            lua.append("nil");
            proof {
                assert(lua@ =~= pre + render_value(*value, depth as nat));
            }
        },
        Json::Arr(a) => {
            proof {
                reveal_strlit("[\n");
                reveal_strlit("]");
            }
            lua.append("[\n");
            let mut i: usize = 0;
            while i < a.len()
                invariant
                    *value == Json::Arr(*a),
                    depth + height(*value) <= usize::MAX,
                    i <= a.len(),
                    lua@ == pre + seq!['[', '\n'] + render_elems(
                        a@.take(i as int),
                        depth as nat + 1,
                    ),
                decreases a.len() - i,
            {
                proof {
                    lemma_elem_height(a@, i as int);
                }
                let piece = walk(None, &a[i], depth + 1);
                lua.append(piece.as_str());
                proof {
                    assert(a@.take(i as int + 1) =~= a@.take(i as int) + seq![a@[i as int]]);
                    lemma_elems_snoc(a@.take(i as int), a@[i as int], depth as nat + 1);
                    assert(lua@ =~= pre + seq!['[', '\n'] + render_elems(
                        a@.take(i as int + 1),
                        depth as nat + 1,
                    ));
                }
                i = i + 1;
            }
            proof {
                assert(a@.take(a@.len() as int) =~= a@);
            }
            let ind = get_indent(depth);
            lua.append(ind.as_str());
            lua.append("]");
            proof {
                assert(lua@ =~= pre + render_value(*value, depth as nat));
            }
        },
        Json::Obj(o) => {
            proof {
                reveal_strlit("{\n");
                reveal_strlit("}");
            }
            lua.append("{\n");
            let mut i: usize = 0;
            while i < o.len()
                invariant
                    *value == Json::Obj(*o),
                    depth + height(*value) <= usize::MAX,
                    i <= o.len(),
                    lua@ == pre + seq!['{', '\n'] + render_members(
                        o@.take(i as int),
                        depth as nat + 1,
                    ),
                decreases o.len() - i,
            {
                proof {
                    lemma_member_height(o@, i as int);
                    assert(decreases_to!(*value => o@[i as int].1));
                }
                let pair = &o[i];
                let piece = walk(Some(pair.0.as_str()), &pair.1, depth + 1);
                lua.append(piece.as_str());
                proof {
                    assert(o@.take(i as int + 1) =~= o@.take(i as int) + seq![o@[i as int]]);
                    lemma_members_snoc(o@.take(i as int), o@[i as int], depth as nat + 1);
                    assert(lua@ =~= pre + seq!['{', '\n'] + render_members(
                        o@.take(i as int + 1),
                        depth as nat + 1,
                    ));
                }
                i = i + 1;
            }
            proof {
                assert(o@.take(o@.len() as int) =~= o@);
            }
            let ind = get_indent(depth);
            lua.append(ind.as_str());
            lua.append("}");
            proof {
                assert(lua@ =~= pre + render_value(*value, depth as nat));
            }
        },
    }
    proof {
        reveal_strlit(",\n");
    }
    lua.append(",\n");
    proof {
        assert(lua@ =~= render_entry(key_view(key), *value, depth as nat));
    }
    lua
}

/// Render a whole document from its top-level members: the root braces
/// around every entry rendered at depth 1, with no newline after the
/// final `}`.
pub fn render_document(entries: &Vec<(String, Json)>) -> (r: String)
    requires
        members_height(entries@) + 1 <= usize::MAX,
    ensures
        r@ == render_doc(entries@),
{
    proof {
        reveal_strlit("{\n");
        reveal_strlit("}");
    }
    let mut lua = "{\n".to_owned();
    let mut i: usize = 0;
    while i < entries.len()
        invariant
            members_height(entries@) + 1 <= usize::MAX,
            i <= entries.len(),
            lua@ == seq!['{', '\n'] + render_members(entries@.take(i as int), 1),
        decreases entries.len() - i,
    {
        proof {
            lemma_member_height(entries@, i as int);
        }
        let pair = &entries[i];
        let piece = walk(Some(pair.0.as_str()), &pair.1, 1);
        lua.append(piece.as_str());
        proof {
            assert(entries@.take(i as int + 1) =~= entries@.take(i as int) + seq![entries@[i as int]]);
            lemma_members_snoc(entries@.take(i as int), entries@[i as int], 1);
            assert(lua@ =~= seq!['{', '\n'] + render_members(entries@.take(i as int + 1), 1));
        }
        i = i + 1;
    }
    proof {
        assert(entries@.take(entries@.len() as int) =~= entries@);
    }
    lua.append("}");
    proof {
        assert(lua@ =~= render_doc(entries@));
    }
    lua
}

/// Build the indentation for a depth: that many tab characters.
pub fn get_indent(depth: usize) -> (r: String)
    ensures
        r@ == indent_seq(depth as nat),
{
    let mut indent = String::new();
    let mut i: usize = 0;
    while i < depth
        invariant
            i <= depth,
            indent@ == indent_seq(i as nat),
        decreases depth - i,
    {
        proof {
            reveal_strlit("\t");
        }
        indent.append("\t");
        i = i + 1;
    }
    indent
}

} // verus!
