//! Reading a JSON text: whether it parses, and what a JSON pointer
//! (RFC 6901) finds in it. The parser is serde_json's; each lookup parses
//! the text afresh, so what it finds is a function of the text and the
//! pointer alone. Pointers are built here, with their escapes.

use vstd::prelude::*;
use crate::text::{decimal, decimal_chars, push_char, string_from_chars};

verus! {

/// Whether the JSON text `bytes` parses as a JSON document (what
/// `serde_json::from_slice::<Value>` decides).
pub uninterp spec fn json_parses(bytes: Seq<u8>) -> bool;

/// The message serde_json gives for the JSON text `bytes` when it does not
/// parse.
pub uninterp spec fn json_error_message(bytes: Seq<u8>) -> Seq<char>;

/// What kind of value a pointer finds.
#[derive(Debug, Clone, Copy, PartialEq, Eq, Structural)]
pub enum JsonKind {
    /// Nothing at that pointer.
    Missing,
    Null,
    Bool,
    Number,
    Text,
    /// An array, with its length.
    Array(usize),
    Object,
}

/// The kind of value `pointer` finds in the JSON text `bytes`.
pub uninterp spec fn json_kind(bytes: Seq<u8>, pointer: Seq<char>) -> JsonKind;

/// What serde_json makes of the value `pointer` finds in `bytes` when it is
/// read as a `usize`: the number, or the error's message.
pub uninterp spec fn json_usize(bytes: Seq<u8>, pointer: Seq<char>) -> Result<usize, Seq<char>>;

/// What serde_json makes of the value `pointer` finds in `bytes` when it is
/// read as `()`: nothing, or the error's message.
pub uninterp spec fn json_unit(bytes: Seq<u8>, pointer: Seq<char>) -> Result<(), Seq<char>>;

/// The string `pointer` finds in `bytes`, if it finds a string.
pub uninterp spec fn json_text(bytes: Seq<u8>, pointer: Seq<char>) -> Option<Seq<char>>;

/// The keys, in the parser's order, of the object `pointer` finds in
/// `bytes`, if it finds an object.
pub uninterp spec fn json_keys(bytes: Seq<u8>, pointer: Seq<char>) -> Option<Seq<Seq<char>>>;

/// Checks that `bytes` is a JSON text.
///
/// Calls `serde_json::from_slice::<serde_json::Value>`; the contract claims
/// that it succeeds exactly on the texts `json_parses` names, and that its
/// error's message (`Display`) is the one `json_error_message` names.
#[verifier::external_body]
pub(crate) fn check_json(bytes: &[u8]) -> (r: Result<(), String>)
    ensures
        r is Ok <==> json_parses(bytes@),
        r matches Err(m) ==> m@ == json_error_message(bytes@),
{
    match serde_json::from_slice::<serde_json::Value>(bytes) {
        Ok(_) => Ok(()),
        Err(e) => Err(e.to_string()),
    }
}

/// The kind of value `pointer` finds in the JSON text `bytes`.
///
/// Parses with `serde_json::from_slice` and looks up with
/// `serde_json::Value::pointer`; the contract claims the kind is the one
/// `json_kind` names.
#[verifier::external_body]
pub(crate) fn kind_at(bytes: &[u8], pointer: &str) -> (k: JsonKind)
    requires
        json_parses(bytes@),
    ensures
        k == json_kind(bytes@, pointer@),
{
    let root: serde_json::Value = serde_json::from_slice(bytes).unwrap_or_default();
    match root.pointer(pointer) {
        None => JsonKind::Missing,
        Some(serde_json::Value::Null) => JsonKind::Null,
        Some(serde_json::Value::Bool(_)) => JsonKind::Bool,
        Some(serde_json::Value::Number(_)) => JsonKind::Number,
        Some(serde_json::Value::String(_)) => JsonKind::Text,
        Some(serde_json::Value::Array(a)) => JsonKind::Array(a.len()),
        Some(serde_json::Value::Object(_)) => JsonKind::Object,
    }
}

/// The value `pointer` finds in `bytes`, read as a `usize`
/// (`serde_json::from_value::<usize>` after `pointer`, with `null` where
/// nothing is found); the contract claims
/// the outcome, the error as its message, is the one `json_usize` names.
#[verifier::external_body]
pub(crate) fn usize_at(bytes: &[u8], pointer: &str) -> (r: Result<usize, String>)
    requires
        json_parses(bytes@),
    ensures
        match r {
            Ok(n) => json_usize(bytes@, pointer@) == Ok::<usize, Seq<char>>(n),
            Err(m) => json_usize(bytes@, pointer@) == Err::<usize, Seq<char>>(m@),
        },
{
    let root: serde_json::Value = serde_json::from_slice(bytes).unwrap_or_default();
    let v = root.pointer(pointer).cloned().unwrap_or_default();
    serde_json::from_value::<usize>(v).map_err(|e| e.to_string())
}

/// The value `pointer` finds in `bytes`, read as `()`
/// (`serde_json::from_value::<()>` after `pointer`, with `null` where
/// nothing is found). The contract claims the outcome is the one
/// `json_unit` names, that it succeeds exactly on `null` or nothing,
/// and that its error reads `invalid type: `, what was found, and
/// `, expected unit` (serde_json's `invalid_type` text, with the expectation
/// serde gives `()`).
#[verifier::external_body]
pub(crate) fn unit_at(bytes: &[u8], pointer: &str) -> (r: Result<(), String>)
    requires
        json_parses(bytes@),
    ensures
        match r {
            Ok(()) => json_unit(bytes@, pointer@) == Ok::<(), Seq<char>>(()),
            Err(m) => json_unit(bytes@, pointer@) == Err::<(), Seq<char>>(m@),
        },
        r is Ok <==> (json_kind(bytes@, pointer@) == JsonKind::Null || json_kind(bytes@, pointer@)
            == JsonKind::Missing),
        r matches Err(m) ==> exists|u: Seq<char>| m@ == "invalid type: "@ + u + ", expected unit"@,
{
    let root: serde_json::Value = serde_json::from_slice(bytes).unwrap_or_default();
    let v = root.pointer(pointer).cloned().unwrap_or_default();
    serde_json::from_value::<()>(v).map_err(|e| e.to_string())
}

/// The string `pointer` finds in `bytes` (`serde_json::Value::as_str` after
/// `pointer`); the contract claims it is the one `json_text` names.
#[verifier::external_body]
pub(crate) fn text_at(bytes: &[u8], pointer: &str) -> (s: Option<String>)
    requires
        json_parses(bytes@),
    ensures
        match s {
            Some(t) => json_text(bytes@, pointer@) == Some(t@),
            None => json_text(bytes@, pointer@) is None,
        },
{
    let root: serde_json::Value = serde_json::from_slice(bytes).unwrap_or_default();
    match root.pointer(pointer) {
        Some(v) => v.as_str().map(str::to_string),
        None => None,
    }
}

/// The keys of the object `pointer` finds in `bytes`
/// (`serde_json::Value::as_object` after `pointer`, keys in the map's
/// order); the contract claims they are the ones `json_keys` names.
#[verifier::external_body]
pub(crate) fn keys_at(bytes: &[u8], pointer: &str) -> (ks: Option<Vec<String>>)
    requires
        json_parses(bytes@),
    ensures
        match ks {
            Some(v) => json_keys(bytes@, pointer@) == Some(v@.map_values(|k: String| k@)),
            None => json_keys(bytes@, pointer@) is None,
        },
{
    let root: serde_json::Value = serde_json::from_slice(bytes).unwrap_or_default();
    match root.pointer(pointer) {
        Some(v) => v.as_object().map(|m| m.keys().cloned().collect()),
        None => None,
    }
}

// ---------------------------------------------------------------------------
// Pointers

/// A key as a pointer token: `~` written `~0`, `/` written `~1`.
pub open spec fn escaped(k: Seq<char>) -> Seq<char>
    decreases k.len(),
{
    if k.len() == 0 {
        Seq::empty()
    } else {
        escaped(k.drop_last()) + if k.last() == '~' {
            seq!['~', '0']
        } else if k.last() == '/' {
            seq!['~', '1']
        } else {
            seq![k.last()]
        }
    }
}

/// The pointer to member `k` of the value at `p`.
pub open spec fn member(p: Seq<char>, k: Seq<char>) -> Seq<char> {
    p + seq!['/'] + escaped(k)
}

/// The pointer to element `i` of the array at `p`.
pub open spec fn element(p: Seq<char>, i: nat) -> Seq<char> {
    p + seq!['/'] + decimal(i)
}

/// The pointer to member `k` of the value at `p`.
pub fn member_pointer(p: &str, k: &str) -> (r: String)
    ensures
        r@ == member(p@, k@),
{
    let mut r = String::from_str(p);
    push_char(&mut r, '/');
    let ghost start = r@;
    let cs = crate::text::chars_of(k);
    let mut i: usize = 0;
    while i < cs.len()
        invariant
            i <= cs@.len(),
            cs@ == k@,
            r@ == start + escaped(cs@.subrange(0, i as int)),
        decreases cs@.len() - i,
    {
        assert(cs@.subrange(0, i + 1).drop_last() =~= cs@.subrange(0, i as int));
        let c = cs[i];
        if c == '~' {
            push_char(&mut r, '~');
            push_char(&mut r, '0');
        } else if c == '/' {
            push_char(&mut r, '~');
            push_char(&mut r, '1');
        } else {
            push_char(&mut r, c);
        }
        assert(r@ =~= start + escaped(cs@.subrange(0, i + 1)));
        i = i + 1;
    }
    assert(cs@.subrange(0, cs@.len() as int) =~= k@);
    r
}

/// The pointer to element `i` of the array at `p`.
pub fn element_pointer(p: &str, i: usize) -> (r: String)
    ensures
        r@ == element(p@, i as nat),
{
    let mut r = String::from_str(p);
    push_char(&mut r, '/');
    let digits = string_from_chars(decimal_chars(i).as_slice());
    r.append(digits.as_str());
    r
}

// ---------------------------------------------------------------------------
// serde's messages

/// How serde_json names the value at `p` in a type error: `null` for null,
/// else what its `invalid_type` message for `()` names.
pub open spec fn unexpected_text(bytes: Seq<u8>, p: Seq<char>) -> Seq<char> {
    match json_unit(bytes, p) {
        Err(m) => m.subrange(14, m.len() - 15),
        Ok(_) => "null"@,
    }
}

/// serde's message for the value at `p` when `expected` was wanted.
pub open spec fn type_error(bytes: Seq<u8>, p: Seq<char>, expected: Seq<char>) -> Seq<char> {
    "invalid type: "@ + unexpected_text(bytes, p) + ", expected "@ + expected
}

/// serde's message for a sequence of `len` elements when `expected` was
/// wanted.
pub open spec fn length_error(len: nat, expected: Seq<char>) -> Seq<char> {
    "invalid length "@ + decimal(len) + ", expected "@ + expected
}

/// serde's message for a struct field that is absent.
pub open spec fn missing_field(name: Seq<char>) -> Seq<char> {
    "missing field `"@ + name + "`"@
}

/// Builds [`type_error`] for the value at `p`.
pub fn type_error_at(bytes: &[u8], p: &str, expected: &str) -> (m: String)
    requires
        json_parses(bytes@),
    ensures
        m@ == type_error(bytes@, p@, expected@),
{
    let mut m = String::from_str("invalid type: ");
    proof {
        reveal_strlit("invalid type: ");
        reveal_strlit(", expected unit");
    }
    match unit_at(bytes, p) {
        Ok(()) => {
            m.append("null");
        },
        Err(e) => {
            let cs = crate::text::chars_of(e.as_str());
            let ghost u = choose|u: Seq<char>| e@ == "invalid type: "@ + u + ", expected unit"@;
            assert(cs@.len() == 14 + u.len() + 15);
            assert(cs@.subrange(14, cs@.len() - 15) =~= u);
            let mid = crate::text::string_from_range(cs.as_slice(), 14, cs.len() - 15);
            m.append(mid.as_str());
        },
    }
    m.append(", expected ");
    m.append(expected);
    m
}

/// Builds [`length_error`].
pub fn length_error_text(len: usize, expected: &str) -> (m: String)
    ensures
        m@ == length_error(len as nat, expected@),
{
    let mut m = String::from_str("invalid length ");
    let digits = string_from_chars(decimal_chars(len).as_slice());
    m.append(digits.as_str());
    m.append(", expected ");
    m.append(expected);
    m
}

/// Builds [`missing_field`].
pub fn missing_field_text(name: &str) -> (m: String)
    ensures
        m@ == missing_field(name@),
{
    let mut m = crate::text::concat_str("missing field `", name);
    m.append("`");
    m
}

// ---------------------------------------------------------------------------
// Fields

/// Field `name` of the object at `p` read as a `usize`: `None` when absent.
pub open spec fn field_usize(bytes: Seq<u8>, p: Seq<char>, name: Seq<char>) -> Option<Result<usize, Seq<char>>> {
    if json_kind(bytes, member(p, name)) == JsonKind::Missing {
        None
    } else {
        Some(json_usize(bytes, member(p, name)))
    }
}

/// Reads field `name` of the object at `p` (see [`field_usize`]).
pub fn read_field_usize(bytes: &[u8], p: &str, name: &str) -> (r: Option<Result<usize, String>>)
    requires
        json_parses(bytes@),
    ensures
        match field_usize(bytes@, p@, name@) {
            None => r is None,
            Some(Ok(n)) => r == Some(Ok::<usize, String>(n)),
            Some(Err(m)) => r matches Some(Err(e)) && e@ == m,
        },
{
    let q = member_pointer(p, name);
    if kind_at(bytes, q.as_str()) == JsonKind::Missing {
        None
    } else {
        Some(usize_at(bytes, q.as_str()))
    }
}

/// A node reference `{ "node": n }` at `p`, read as serde reads a struct
/// with one `usize` field `node`: from an object (other fields ignored) or
/// from a one-element array; anything else is a type error.
pub open spec fn node_ref(bytes: Seq<u8>, p: Seq<char>) -> Result<usize, Seq<char>> {
    match json_kind(bytes, p) {
        JsonKind::Object => match field_usize(bytes, p, "node"@) {
            None => Err(missing_field("node"@)),
            Some(r) => r,
        },
        JsonKind::Array(n) => if n == 0 {
            Err(length_error(0, "struct HumanBoneRef with 1 element"@))
        } else {
            match json_usize(bytes, element(p, 0)) {
                Err(m) => Err(m),
                Ok(v) => if n > 1 {
                    Err(length_error(n as nat, "fewer elements in array"@))
                } else {
                    Ok(v)
                },
            }
        },
        _ => Err(type_error(bytes, p, "struct HumanBoneRef"@)),
    }
}

/// Reads a node reference at `p` (see [`node_ref`]).
pub fn read_node_ref(bytes: &[u8], p: &str) -> (r: Result<usize, String>)
    requires
        json_parses(bytes@),
    ensures
        match node_ref(bytes@, p@) {
            Ok(n) => r == Ok::<usize, String>(n),
            Err(m) => r matches Err(e) && e@ == m,
        },
{
    match kind_at(bytes, p) {
        JsonKind::Object => match read_field_usize(bytes, p, "node") {
            None => Err(missing_field_text("node")),
            Some(r) => r,
        },
        JsonKind::Array(n) => {
            if n == 0 {
                return Err(length_error_text(0, "struct HumanBoneRef with 1 element"));
            }
            let e = element_pointer(p, 0);
            match usize_at(bytes, e.as_str()) {
                Err(m) => Err(m),
                Ok(v) => {
                    if n > 1 {
                        Err(length_error_text(n, "fewer elements in array"))
                    } else {
                        Ok(v)
                    }
                },
            }
        },
        _ => Err(type_error_at(bytes, p, "struct HumanBoneRef")),
    }
}

} // verus!
