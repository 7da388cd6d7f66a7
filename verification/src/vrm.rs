//! VRM 1.0 character files: the GLB container's JSON document and the face
//! expression presets, each bound to morph targets of named mesh nodes.

use vstd::prelude::*;
use crate::named_map::{lists, NamedMap};
use crate::text::{concat_str, lex_lt};
use crate::json::{
    check_json, element, element_pointer, json_error_message, json_keys, json_kind, json_parses, json_text, keys_at,
    kind_at, length_error, length_error_text, member, member_pointer, missing_field, missing_field_text,
    read_field_usize, field_usize, json_usize, text_at, type_error, type_error_at, usize_at, JsonKind,
};
use crate::vrma::{le_u32, slice_range};

verus! {

// ---------------------------------------------------------------------------
// Container

/// Whether `bytes[at..at + 4]` spells `JSON`.
pub open spec fn json_tag_at(bytes: Seq<u8>, at: int) -> bool {
    bytes[at] == 0x4a && bytes[at + 1] == 0x53 && bytes[at + 2] == 0x4f && bytes[at + 3] == 0x4e
}

/// Where a VRM file's JSON chunk lies, or why it has none: the file must
/// hold the 20-byte header, start with `glTF`, have `JSON` as its first
/// chunk's type, and hold the whole chunk.
pub open spec fn vrm_json_chunk(bytes: Seq<u8>) -> Result<(int, int), Seq<char>> {
    if bytes.len() < 20 {
        Err("file too small to be a GLB/VRM"@)
    } else if !(bytes[0] == 0x67 && bytes[1] == 0x6c && bytes[2] == 0x54 && bytes[3] == 0x46) {
        Err("not a GLB/VRM (missing glTF magic)"@)
    } else if !json_tag_at(bytes, 16) {
        Err("GLB first chunk is not JSON"@)
    } else if 20 + le_u32(bytes, 12) > bytes.len() {
        Err("GLB JSON chunk truncated"@)
    } else {
        Ok((20, (20 + le_u32(bytes, 12)) as int))
    }
}

/// The JSON chunk of a VRM file, checked to be a JSON text. Fails with the
/// reason when the container is malformed, or with `VRM JSON: ` and the
/// parser's message when the chunk is not JSON.
pub fn vrm_json_text(bytes: &[u8]) -> (r: Result<Vec<u8>, String>)
    ensures
        match vrm_json_chunk(bytes@) {
            Ok((a, b)) => if json_parses(bytes@.subrange(a, b)) {
                r matches Ok(c) && c@ == bytes@.subrange(a, b)
            } else {
                r matches Err(m) && m@ == "VRM JSON: "@ + json_error_message(bytes@.subrange(a, b))
            },
            Err(m) => r matches Err(e) && e@ == m,
        },
{
    if bytes.len() < 20 {
        return Err(String::from_str("file too small to be a GLB/VRM"));
    }
    if bytes[0] != 0x67 || bytes[1] != 0x6c || bytes[2] != 0x54 || bytes[3] != 0x46 {
        return Err(String::from_str("not a GLB/VRM (missing glTF magic)"));
    }
    let len: u64 = bytes[12] as u64 + bytes[13] as u64 * 256 + bytes[14] as u64 * 65536 + bytes[15] as u64
        * 16777216;
    if bytes[16] != 0x4a || bytes[17] != 0x53 || bytes[18] != 0x4f || bytes[19] != 0x4e {
        return Err(String::from_str("GLB first chunk is not JSON"));
    }
    let end: u64 = 20 + len;
    if end > bytes.len() as u64 {
        return Err(String::from_str("GLB JSON chunk truncated"));
    }
    let chunk = slice_range(bytes, 20, end as usize);
    match check_json(chunk) {
        Ok(()) => Ok(vstd::slice::slice_to_vec(chunk)),
        Err(e) => Err(concat_str("VRM JSON: ", e.as_str())),
    }
}

// ---------------------------------------------------------------------------
// Expression presets

/// One morph target an expression drives: the mesh node's name and the
/// morph index on it.
#[derive(Debug)]
pub struct ExpressionBindSpec {
    pub node_name: String,
    pub morph_index: usize,
}

/// An expression preset and the morph targets it drives.
#[derive(Debug)]
pub struct ExpressionSpec {
    pub name: String,
    pub binds: Vec<ExpressionBindSpec>,
}

/// Node names as read: each node's name, if it has one.
pub open spec fn names_view(nodes: Seq<Option<String>>) -> Seq<Option<Seq<char>>> {
    nodes.map_values(
        |o: Option<String>|
            match o {
                Some(s) => Some(s@),
                None => None,
            },
    )
}

/// Presets with their binds as sequences.
pub open spec fn binds_view(presets: Map<Seq<char>, Vec<(usize, usize)>>) -> Map<Seq<char>, Seq<(usize, usize)>> {
    presets.map_values(|v: Vec<(usize, usize)>| v@)
}

/// The name of node `i`, when the node exists and has a non-empty name.
pub open spec fn node_label(names: Seq<Option<Seq<char>>>, i: int) -> Option<Seq<char>> {
    if 0 <= i < names.len() && names[i] is Some && names[i]->0.len() > 0 {
        Some(names[i]->0)
    } else {
        None
    }
}

/// The binds `(node, morph index)` whose node has a name, as (name, index).
pub open spec fn named_binds(names: Seq<Option<Seq<char>>>, binds: Seq<(usize, usize)>) -> Seq<(Seq<char>, usize)>
    decreases binds.len(),
{
    if binds.len() == 0 {
        Seq::empty()
    } else {
        let rest = named_binds(names, binds.drop_last());
        match node_label(names, binds.last().0 as int) {
            Some(n) => rest.push((n, binds.last().1)),
            None => rest,
        }
    }
}

/// The binds of `e` as (node name, morph index).
pub open spec fn bind_views(e: ExpressionSpec) -> Seq<(Seq<char>, usize)> {
    e.binds@.map_values(|b: ExpressionBindSpec| (b.node_name@, b.morph_index))
}

/// Whether `k` names a preset of `presets` with at least one named bind.
pub open spec fn usable(names: Seq<Option<Seq<char>>>, presets: Map<Seq<char>, Seq<(usize, usize)>>, k: Seq<char>) -> bool {
    presets.contains_key(k) && named_binds(names, presets[k]).len() > 0
}

/// `r` is the expression list of the nodes `names` and the presets
/// `presets`: one entry per preset with at least one named bind, holding
/// those binds in order, sorted by name.
pub open spec fn expression_list(
    r: Seq<ExpressionSpec>,
    names: Seq<Option<Seq<char>>>,
    presets: Map<Seq<char>, Seq<(usize, usize)>>,
) -> bool {
    &&& forall|i: int, j: int| 0 <= i < j < r.len() ==> lex_lt(#[trigger] r[i].name@, #[trigger] r[j].name@)
    &&& forall|k: Seq<char>| #![trigger presets.contains_key(k)]
        usable(names, presets, k) <==> exists|i: int| 0 <= i < r.len() && #[trigger] r[i].name@ == k
    &&& forall|i: int| 0 <= i < r.len() ==> bind_views(#[trigger] r[i]) == named_binds(names, presets[r[i].name@])
}

fn keep_named_binds(nodes: &[Option<String>], binds: &[(usize, usize)]) -> (r: Vec<ExpressionBindSpec>)
    ensures
        r@.map_values(|b: ExpressionBindSpec| (b.node_name@, b.morph_index)) == named_binds(names_view(nodes@), binds@),
{
    let mut r: Vec<ExpressionBindSpec> = Vec::new();
    let mut i: usize = 0;
    while i < binds.len()
        invariant
            i <= binds@.len(),
            r@.map_values(|b: ExpressionBindSpec| (b.node_name@, b.morph_index)) == named_binds(
                names_view(nodes@),
                binds@.subrange(0, i as int),
            ),
        decreases binds@.len() - i,
    {
        let (node, index) = binds[i];
        assert(binds@.subrange(0, i + 1).drop_last() =~= binds@.subrange(0, i as int));
        let ghost before = r@;
        if node < nodes.len() {
            match &nodes[node] {
                Some(name) => {
                    assert(names_view(nodes@)[node as int] == Some(name@));
                    if !name.as_str().is_empty() {
                        r.push(ExpressionBindSpec { node_name: name.clone(), morph_index: index });
                        assert(r@.map_values(|b: ExpressionBindSpec| (b.node_name@, b.morph_index))
                            =~= before.map_values(|b: ExpressionBindSpec| (b.node_name@, b.morph_index)).push(
                            (name@, index),
                        ));
                    }
                },
                None => {},
            }
        }
        i = i + 1;
    }
    assert(binds@.subrange(0, binds@.len() as int) =~= binds@);
    r
}

/// Whether one of the first `n` of `ks` spells `k`.
spec fn key_among(ks: Seq<Vec<char>>, n: int, k: Seq<char>) -> bool {
    exists|j: int| 0 <= j < n && #[trigger] ks[j]@ == k
}

/// The expressions of a VRM file: each preset (by name, from `presets`,
/// whose binds are (node index, morph index)) with the binds whose node has
/// a name among `nodes`; presets left with no bind are dropped. Sorted by
/// name.
pub fn expression_specs(nodes: &[Option<String>], presets: &NamedMap<Vec<(usize, usize)>>) -> (r: Vec<ExpressionSpec>)
    ensures
        expression_list(r@, names_view(nodes@), binds_view(presets@)),
{
    let ghost names = names_view(nodes@);
    let ghost bp = binds_view(presets@);
    let keys = presets.sorted_keys();
    let ghost ks = keys@;
    let mut r: Vec<ExpressionSpec> = Vec::new();
    let mut i: usize = 0;
    while i < keys.len()
        invariant
            i <= ks.len(),
            ks == keys@,
            names == names_view(nodes@),
            bp == binds_view(presets@),
            forall|a: int, b: int| 0 <= a < b < ks.len() ==> lex_lt(#[trigger] ks[a]@, #[trigger] ks[b]@),
            forall|k: Seq<char>| #[trigger] presets@.contains_key(k) <==> lists(ks, k),
            forall|a: int, b: int| 0 <= a < b < r@.len() ==> lex_lt(#[trigger] r@[a].name@, #[trigger] r@[b].name@),
            forall|a: int| 0 <= a < r@.len() ==> key_among(ks, i as int, #[trigger] r@[a].name@),
            forall|a: int| 0 <= a < r@.len() ==> presets@.contains_key(#[trigger] r@[a].name@)
                && bind_views(r@[a]) == named_binds(names, bp[r@[a].name@])
                && r@[a].binds@.len() > 0,
            forall|j: int| 0 <= j < i && usable(names, bp, #[trigger] ks[j]@) ==> exists|a: int| 0 <= a < r@.len() && #[trigger] r@[a].name@ == ks[j]@,
        decreases ks.len() - i,
    {
        assert(lists(ks, ks[i as int]@));
        let binds = match presets.get(keys[i].as_slice()) {
            Some(b) => b,
            None => {
                assert(false);
                return r;
            },
        };
        let kept = keep_named_binds(nodes, binds.as_slice());
        if kept.len() > 0 {
            let ghost before = r@;
            proof {
                assert forall|a: int| 0 <= a < before.len() implies lex_lt(#[trigger] before[a].name@, ks[i as int]@) by {
                    assert(key_among(ks, i as int, before[a].name@));
                    let j = choose|j: int| 0 <= j < i && #[trigger] ks[j]@ == before[a].name@;
                    assert(lex_lt(ks[j]@, ks[i as int]@));
                }
            }
            r.push(ExpressionSpec { name: crate::text::string_from_chars(keys[i].as_slice()), binds: kept });
            proof {
                assert forall|a: int| 0 <= a < r@.len() implies key_among(ks, i + 1, #[trigger] r@[a].name@) by {
                    if a < before.len() {
                        assert(r@[a] == before[a]);
                        assert(key_among(ks, i as int, before[a].name@));
                        let j = choose|j: int| 0 <= j < i && #[trigger] ks[j]@ == before[a].name@;
                        assert(ks[j]@ == r@[a].name@);
                    } else {
                        assert(ks[i as int]@ == r@[a].name@);
                    }
                }
                assert forall|j: int| 0 <= j < i + 1 && usable(names, bp, #[trigger] ks[j]@) implies exists|a: int| 0 <= a < r@.len() && #[trigger] r@[a].name@ == ks[j]@ by {
                    if j < i {
                        let a = choose|a: int| 0 <= a < before.len() && #[trigger] before[a].name@ == ks[j]@;
                        assert(r@[a] == before[a]);
                    } else {
                        assert(r@[before.len() as int].name@ == ks[j]@);
                    }
                }
            }
        } else {
            proof {
                assert(!usable(names, bp, ks[i as int]@));
            }
        }
        i = i + 1;
    }
    proof {
        assert forall|k: Seq<char>| #![trigger bp.contains_key(k)]
            usable(names, bp, k) <==> exists|a: int| 0 <= a < r@.len() && #[trigger] r@[a].name@ == k by {
            if usable(names, bp, k) {
                assert(lists(ks, k));
                let j = choose|j: int| 0 <= j < ks.len() && #[trigger] ks[j]@ == k;
                assert(usable(names, bp, ks[j]@));
            }
            if exists|a: int| 0 <= a < r@.len() && #[trigger] r@[a].name@ == k {
                let a = choose|a: int| 0 <= a < r@.len() && #[trigger] r@[a].name@ == k;
                assert(presets@.contains_key(r@[a].name@));
                assert(bind_views(r@[a]).len() == r@[a].binds@.len());
            }
        }
    }
    r
}

} // verus!

verus! {

// ---------------------------------------------------------------------------
// Reading the presets from the document

/// Where a VRM 1.0 file keeps its expression presets.
pub open spec fn preset_ptr() -> Seq<char> {
    "/extensions/VRMC_vrm/expressions/preset"@
}

/// The names of the first `n` nodes of the document `bytes`.
pub open spec fn vrm_node_names(bytes: Seq<u8>, n: nat) -> Seq<Option<Seq<char>>> {
    Seq::new(n, |i: int| json_text(bytes, member(element("/nodes"@, i as nat), "name"@)))
}

/// Whether the value at `w` reads as an `f32`: absent (the default) or a
/// number.
pub open spec fn weight_ok(bytes: Seq<u8>, w: Seq<char>) -> bool {
    json_kind(bytes, w) == JsonKind::Missing || json_kind(bytes, w) == JsonKind::Number
}

/// A morph bind written as an object, read as serde reads the struct
/// `MorphBind { node: usize, index: usize, weight: f32 }` (`weight`
/// optional, other fields ignored): the fields present are read in key
/// order (`index`, `node`, `weight`), and then a missing `node` or `index`
/// is reported.
pub open spec fn bind_from_object(bytes: Seq<u8>, b: Seq<char>) -> Result<(usize, usize), Seq<char>> {
    let w = member(b, "weight"@);
    match (field_usize(bytes, b, "index"@), field_usize(bytes, b, "node"@)) {
        (Some(Err(m)), _) => Err(m),
        (_, Some(Err(m))) => Err(m),
        (index, node) => if !weight_ok(bytes, w) {
            Err(type_error(bytes, w, "f32"@))
        } else {
            match (node, index) {
                (Some(Ok(n)), Some(Ok(x))) => Ok((n, x)),
                (None, _) => Err(missing_field("node"@)),
                _ => Err(missing_field("index"@)),
            }
        },
    }
}

/// A morph bind written as an array of `len` elements `[node, index,
/// weight]` (`weight` optional), read as serde reads the struct from a
/// sequence.
pub open spec fn bind_from_array(bytes: Seq<u8>, b: Seq<char>, len: nat) -> Result<(usize, usize), Seq<char>> {
    if len == 0 {
        Err(length_error(0, "struct MorphBind with 3 elements"@))
    } else {
        match json_usize(bytes, element(b, 0)) {
            Err(m) => Err(m),
            Ok(n) => if len == 1 {
                Err(length_error(1, "struct MorphBind with 3 elements"@))
            } else {
                match json_usize(bytes, element(b, 1)) {
                    Err(m) => Err(m),
                    Ok(x) => if len == 2 {
                        Ok((n, x))
                    } else if !weight_ok(bytes, element(b, 2)) {
                        Err(type_error(bytes, element(b, 2), "f32"@))
                    } else if len > 3 {
                        Err(length_error(len, "fewer elements in array"@))
                    } else {
                        Ok((n, x))
                    },
                }
            },
        }
    }
}

/// The morph bind at `b`: its node and morph index.
pub open spec fn morph_bind(bytes: Seq<u8>, b: Seq<char>) -> Result<(usize, usize), Seq<char>> {
    match json_kind(bytes, b) {
        JsonKind::Object => bind_from_object(bytes, b),
        JsonKind::Array(len) => bind_from_array(bytes, b, len as nat),
        _ => Err(type_error(bytes, b, "struct MorphBind"@)),
    }
}

/// The first `m` binds of the bind list at `q`; the first bind that does not
/// read stops with its message.
pub open spec fn morph_binds(bytes: Seq<u8>, q: Seq<char>, m: nat) -> Result<Seq<(usize, usize)>, Seq<char>>
    decreases m,
{
    if m == 0 {
        Ok(Seq::empty())
    } else {
        match morph_binds(bytes, q, (m - 1) as nat) {
            Err(e) => Err(e),
            Ok(s) => match morph_bind(bytes, element(q, (m - 1) as nat)) {
                Err(e) => Err(e),
                Ok(b) => Ok(s.push(b)),
            },
        }
    }
}

/// The bind list at `q`: an array of binds.
pub open spec fn bind_list(bytes: Seq<u8>, q: Seq<char>) -> Result<Seq<(usize, usize)>, Seq<char>> {
    match json_kind(bytes, q) {
        JsonKind::Array(m) => morph_binds(bytes, q, m as nat),
        _ => Err(type_error(bytes, q, "a sequence"@)),
    }
}

/// The binds of the preset at `p`, read as serde reads the struct
/// `Preset { morphTargetBinds: Vec<MorphBind> }` (the list optional): from
/// an object, or from an array holding at most the list.
pub open spec fn preset_binds(bytes: Seq<u8>, p: Seq<char>) -> Result<Seq<(usize, usize)>, Seq<char>> {
    match json_kind(bytes, p) {
        JsonKind::Object => if json_kind(bytes, member(p, "morphTargetBinds"@)) == JsonKind::Missing {
            Ok(Seq::empty())
        } else {
            bind_list(bytes, member(p, "morphTargetBinds"@))
        },
        JsonKind::Array(len) => if len == 0 {
            Ok(Seq::empty())
        } else {
            match bind_list(bytes, element(p, 0)) {
                Err(m) => Err(m),
                Ok(v) => if len > 1 {
                    Err(length_error(len as nat, "fewer elements in array"@))
                } else {
                    Ok(v)
                },
            }
        },
        _ => Err(type_error(bytes, p, "struct Preset"@)),
    }
}

/// The presets named by the first `n` of `ks`, in order; the first that
/// does not read stops with `expression '<name>': ` and its message.
pub open spec fn presets_read(bytes: Seq<u8>, ks: Seq<Seq<char>>, n: nat) -> Result<
    Map<Seq<char>, Seq<(usize, usize)>>,
    Seq<char>,
>
    decreases n,
{
    if n == 0 {
        Ok(Map::empty())
    } else {
        match presets_read(bytes, ks, (n - 1) as nat) {
            Err(e) => Err(e),
            Ok(m) => match preset_binds(bytes, member(preset_ptr(), ks[n - 1])) {
                Err(e) => Err("expression '"@ + ks[n - 1] + "': "@ + e),
                Ok(b) => Ok(m.insert(ks[n - 1], b)),
            },
        }
    }
}

/// What the JSON text of a VRM file yields: the names of its nodes and its
/// expression presets, or why it yields none.
pub open spec fn vrm_presets(bytes: Seq<u8>) -> Result<
    (Seq<Option<Seq<char>>>, Map<Seq<char>, Seq<(usize, usize)>>),
    Seq<char>,
> {
    match json_kind(bytes, "/nodes"@) {
        JsonKind::Array(n) => if json_kind(bytes, "/extensions/VRMC_vrm"@) == JsonKind::Missing {
            Err("missing extensions.VRMC_vrm (need VRM 1.0)"@)
        } else {
            match json_keys(bytes, preset_ptr()) {
                None => Err("VRM has no expressions.preset"@),
                Some(ks) => match presets_read(bytes, ks, ks.len()) {
                    Err(e) => Err(e),
                    Ok(m) => Ok((vrm_node_names(bytes, n as nat), m)),
                },
            }
        },
        _ => Err("VRM missing nodes[]"@),
    }
}

fn read_weight_ok(bytes: &[u8], w: &str) -> (r: Result<(), String>)
    requires
        json_parses(bytes@),
    ensures
        weight_ok(bytes@, w@) ==> r is Ok,
        !weight_ok(bytes@, w@) ==> (r matches Err(e) && e@ == type_error(bytes@, w@, "f32"@)),
{
    let k = kind_at(bytes, w);
    if k == JsonKind::Missing || k == JsonKind::Number {
        Ok(())
    } else {
        Err(type_error_at(bytes, w, "f32"))
    }
}

fn read_bind_from_object(bytes: &[u8], b: &str) -> (r: Result<(usize, usize), String>)
    requires
        json_parses(bytes@),
    ensures
        match bind_from_object(bytes@, b@) {
            Ok(x) => r == Ok::<(usize, usize), String>(x),
            Err(m) => r matches Err(e) && e@ == m,
        },
{
    let index = read_field_usize(bytes, b, "index");
    let node = read_field_usize(bytes, b, "node");
    let index = match index {
        Some(Err(e)) => {
            return Err(e);
        },
        Some(Ok(x)) => Some(x),
        None => None,
    };
    let node = match node {
        Some(Err(e)) => {
            return Err(e);
        },
        Some(Ok(n)) => Some(n),
        None => None,
    };
    let w = member_pointer(b, "weight");
    match read_weight_ok(bytes, w.as_str()) {
        Err(e) => {
            return Err(e);
        },
        Ok(()) => {},
    }
    match (node, index) {
        (Some(n), Some(x)) => Ok((n, x)),
        (None, _) => Err(missing_field_text("node")),
        _ => Err(missing_field_text("index")),
    }
}

fn read_bind_from_array(bytes: &[u8], b: &str, len: usize) -> (r: Result<(usize, usize), String>)
    requires
        json_parses(bytes@),
        json_kind(bytes@, b@) == JsonKind::Array(len),
    ensures
        match bind_from_array(bytes@, b@, len as nat) {
            Ok(x) => r == Ok::<(usize, usize), String>(x),
            Err(m) => r matches Err(e) && e@ == m,
        },
{
    if len == 0 {
        return Err(length_error_text(0, "struct MorphBind with 3 elements"));
    }
    let e0 = element_pointer(b, 0);
    let n = match usize_at(bytes, e0.as_str()) {
        Ok(n) => n,
        Err(e) => {
            return Err(e);
        },
    };
    if len == 1 {
        return Err(length_error_text(1, "struct MorphBind with 3 elements"));
    }
    let e1 = element_pointer(b, 1);
    let x = match usize_at(bytes, e1.as_str()) {
        Ok(x) => x,
        Err(e) => {
            return Err(e);
        },
    };
    if len == 2 {
        return Ok((n, x));
    }
    let e2 = element_pointer(b, 2);
    match read_weight_ok(bytes, e2.as_str()) {
        Err(e) => {
            return Err(e);
        },
        Ok(()) => {},
    }
    if len > 3 {
        Err(length_error_text(len, "fewer elements in array"))
    } else {
        Ok((n, x))
    }
}

fn read_morph_bind(bytes: &[u8], b: &str) -> (r: Result<(usize, usize), String>)
    requires
        json_parses(bytes@),
    ensures
        match morph_bind(bytes@, b@) {
            Ok(x) => r == Ok::<(usize, usize), String>(x),
            Err(m) => r matches Err(e) && e@ == m,
        },
{
    match kind_at(bytes, b) {
        JsonKind::Object => read_bind_from_object(bytes, b),
        JsonKind::Array(len) => read_bind_from_array(bytes, b, len),
        _ => Err(type_error_at(bytes, b, "struct MorphBind")),
    }
}

fn read_bind_list(bytes: &[u8], q: &str) -> (r: Result<Vec<(usize, usize)>, String>)
    requires
        json_parses(bytes@),
    ensures
        match bind_list(bytes@, q@) {
            Ok(x) => r matches Ok(v) && v@ == x,
            Err(m) => r matches Err(e) && e@ == m,
        },
{
    let m = match kind_at(bytes, q) {
        JsonKind::Array(m) => m,
        _ => {
            return Err(type_error_at(bytes, q, "a sequence"));
        },
    };
    let mut out: Vec<(usize, usize)> = Vec::new();
    let mut i: usize = 0;
    while i < m
        invariant
            i <= m,
            json_parses(bytes@),
            json_kind(bytes@, q@) == JsonKind::Array(m),
            morph_binds(bytes@, q@, i as nat) == Ok::<Seq<(usize, usize)>, Seq<char>>(out@),
        decreases m - i,
    {
        let b = element_pointer(q, i);
        match read_morph_bind(bytes, b.as_str()) {
            Ok(x) => {
                out.push(x);
            },
            Err(e) => {
                proof {
                    assert(morph_binds(bytes@, q@, (i + 1) as nat) == Err::<Seq<(usize, usize)>, Seq<char>>(e@));
                    lemma_morph_binds_err(bytes@, q@, (i + 1) as nat, m as nat);
                }
                return Err(e);
            },
        }
        i = i + 1;
    }
    Ok(out)
}

fn read_preset(bytes: &[u8], p: &str) -> (r: Result<Vec<(usize, usize)>, String>)
    requires
        json_parses(bytes@),
    ensures
        match preset_binds(bytes@, p@) {
            Ok(x) => r matches Ok(v) && v@ == x,
            Err(m) => r matches Err(e) && e@ == m,
        },
{
    match kind_at(bytes, p) {
        JsonKind::Object => {
            let q = member_pointer(p, "morphTargetBinds");
            if kind_at(bytes, q.as_str()) == JsonKind::Missing {
                Ok(Vec::new())
            } else {
                read_bind_list(bytes, q.as_str())
            }
        },
        JsonKind::Array(len) => {
            if len == 0 {
                return Ok(Vec::new());
            }
            let e0 = element_pointer(p, 0);
            match read_bind_list(bytes, e0.as_str()) {
                Err(e) => Err(e),
                Ok(v) => {
                    if len > 1 {
                        Err(length_error_text(len, "fewer elements in array"))
                    } else {
                        Ok(v)
                    }
                },
            }
        },
        _ => Err(type_error_at(bytes, p, "struct Preset")),
    }
}

proof fn lemma_morph_binds_err(bytes: Seq<u8>, q: Seq<char>, k: nat, m: nat)
    requires
        k <= m,
        morph_binds(bytes, q, k) is Err,
    ensures
        morph_binds(bytes, q, m) == morph_binds(bytes, q, k),
    decreases m - k,
{
    if k < m {
        lemma_morph_binds_err(bytes, q, k, (m - 1) as nat);
    }
}

proof fn lemma_presets_read_err(bytes: Seq<u8>, ks: Seq<Seq<char>>, k: nat, n: nat)
    requires
        k <= n,
        presets_read(bytes, ks, k) is Err,
    ensures
        presets_read(bytes, ks, n) == presets_read(bytes, ks, k),
    decreases n - k,
{
    if k < n {
        lemma_presets_read_err(bytes, ks, k, (n - 1) as nat);
    }
}

fn read_node_names(bytes: &[u8], n: usize) -> (r: Vec<Option<String>>)
    requires
        json_parses(bytes@),
    ensures
        names_view(r@) == vrm_node_names(bytes@, n as nat),
{
    let mut out: Vec<Option<String>> = Vec::new();
    let mut i: usize = 0;
    while i < n
        invariant
            i <= n,
            json_parses(bytes@),
            out@.len() == i,
            names_view(out@) =~= vrm_node_names(bytes@, i as nat),
        decreases n - i,
    {
        let e = element_pointer("/nodes", i);
        let q = member_pointer(e.as_str(), "name");
        let name = text_at(bytes, q.as_str());
        let ghost before = out@;
        out.push(name);
        let ghost nv = names_view(out@)[i as int];
        assert(nv == json_text(bytes@, q@));
        assert(names_view(out@) =~= vrm_node_names(bytes@, (i + 1) as nat)) by {
            assert forall|j: int| 0 <= j < i + 1 implies #[trigger] names_view(out@)[j] == vrm_node_names(
                bytes@,
                (i + 1) as nat,
            )[j] by {
                if j < i {
                    assert(out@[j] == before[j]);
                    assert(names_view(before)[j] == vrm_node_names(bytes@, i as nat)[j]);
                }
            }
        }
        i = i + 1;
    }
    out
}

fn read_presets(bytes: &[u8], keys: &Vec<String>) -> (r: Result<NamedMap<Vec<(usize, usize)>>, String>)
    requires
        json_parses(bytes@),
    ensures
        match presets_read(bytes@, keys@.map_values(|k: String| k@), keys@.len()) {
            Ok(m) => r matches Ok(v) && binds_view(v@) == m,
            Err(m) => r matches Err(e) && e@ == m,
        },
{
    let ghost ks = keys@.map_values(|k: String| k@);
    let mut presets: NamedMap<Vec<(usize, usize)>> = NamedMap::new();
    assert(binds_view(presets@) =~= Map::<Seq<char>, Seq<(usize, usize)>>::empty());
    let mut i: usize = 0;
    while i < keys.len()
        invariant
            i <= keys@.len(),
            json_parses(bytes@),
            ks == keys@.map_values(|k: String| k@),
            presets_read(bytes@, ks, i as nat) == Ok::<Map<Seq<char>, Seq<(usize, usize)>>, Seq<char>>(
                binds_view(presets@),
            ),
        decreases keys@.len() - i,
    {
        let p = member_pointer("/extensions/VRMC_vrm/expressions/preset", keys[i].as_str());
        match read_preset(bytes, p.as_str()) {
            Ok(binds) => {
                let ghost before = presets@;
                let ghost bv = binds@;
                presets.insert(crate::text::chars_of(keys[i].as_str()), binds);
                assert(binds_view(presets@) =~= binds_view(before).insert(ks[i as int], bv));
            },
            Err(e) => {
                let mut m = concat_str("expression '", keys[i].as_str());
                m.append("': ");
                m.append(e.as_str());
                proof {
                    lemma_presets_read_err(bytes@, ks, (i + 1) as nat, keys@.len() as nat);
                }
                return Err(m);
            },
        }
        i = i + 1;
    }
    Ok(presets)
}

/// The face-expression presets of a VRM 1.0 file's bytes, sorted by name:
/// each preset with the morph binds whose node has a name. Fails as
/// [`vrm_json_text`] does, when the document has no `nodes` list, no
/// `VRMC_vrm` extension or no preset object, or when a preset does not read.
pub fn vrm_expression_presets(bytes: &[u8]) -> (r: Result<Vec<ExpressionSpec>, String>)
    ensures
        match vrm_json_chunk(bytes@) {
            Err(m) => r matches Err(e) && e@ == m,
            Ok((a, b)) => {
                let c = bytes@.subrange(a, b);
                if !json_parses(c) {
                    r matches Err(m) && m@ == "VRM JSON: "@ + json_error_message(c)
                } else {
                    match vrm_presets(c) {
                        Err(m) => r matches Err(e) && e@ == m,
                        Ok((names, presets)) => r matches Ok(v) && expression_list(v@, names, presets),
                    }
                }
            },
        },
{
    let chunk = match vrm_json_text(bytes) {
        Ok(c) => c,
        Err(e) => {
            return Err(e);
        },
    };
    let c = chunk.as_slice();
    let n = match kind_at(c, "/nodes") {
        JsonKind::Array(n) => n,
        _ => {
            return Err(String::from_str("VRM missing nodes[]"));
        },
    };
    if kind_at(c, "/extensions/VRMC_vrm") == JsonKind::Missing {
        return Err(String::from_str("missing extensions.VRMC_vrm (need VRM 1.0)"));
    }
    let keys = match keys_at(c, "/extensions/VRMC_vrm/expressions/preset") {
        Some(k) => k,
        None => {
            return Err(String::from_str("VRM has no expressions.preset"));
        },
    };
    let presets = match read_presets(c, &keys) {
        Ok(p) => p,
        Err(e) => {
            return Err(e);
        },
    };
    let nodes = read_node_names(c, n);
    Ok(expression_specs(nodes.as_slice(), &presets))
}

} // verus!
