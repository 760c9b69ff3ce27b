//! The generic block: a name, an ordered key/value map and child blocks, and
//! the key extraction protocol that typed records decode through.

use indexmap::IndexMap;
use vstd::prelude::*;
use vstd::string::StringExecFns;
use crate::decimal::{parse_i32, parse_i32_spec, parse_u16, parse_u16_spec};

verus! {

#[verifier::external_type_specification]
#[verifier::external_body]
#[verifier::reject_recursive_types(K)]
#[verifier::reject_recursive_types(V)]
#[verifier::reject_recursive_types(S)]
pub struct ExIndexMap<K, V, S>(IndexMap<K, V, S>);

/// The key/value pairs that an `IndexMap` holds, by key.
pub uninterp spec fn kv_contents(m: IndexMap<String, String>) -> Map<Seq<char>, Seq<char>>;

/// The keys of an `IndexMap`, in the map's order.
pub uninterp spec fn kv_order(m: IndexMap<String, String>) -> Seq<Seq<char>>;

/// Relies on `IndexMap::new`: the new map holds no pair.
#[verifier::external_body]
pub(crate) fn kv_new() -> (r: IndexMap<String, String>)
    ensures
        kv_contents(r).dom().is_empty(),
        kv_order(r).len() == 0,
{
    IndexMap::new()
}

/// Relies on `IndexMap::insert`: the value for `key` becomes `value`; a new
/// key goes last in order, an existing one keeps its place.
#[verifier::external_body]
pub(crate) fn kv_insert(m: &mut IndexMap<String, String>, key: String, value: String)
    ensures
        kv_contents(*final(m)) == kv_contents(*old(m)).insert(key@, value@),
        kv_order(*final(m)) == (if kv_contents(*old(m)).contains_key(key@) {
            kv_order(*old(m))
        } else {
            kv_order(*old(m)).push(key@)
        }),
{
    m.insert(key, value);
}

/// Relies on `IndexMap::shift_remove`: removes the pair for `key` and returns
/// its value, or returns `None` where `key` is absent.
#[verifier::external_body]
pub(crate) fn kv_shift_remove(m: &mut IndexMap<String, String>, key: &str) -> (r: Option<String>)
    ensures
        kv_contents(*final(m)) == kv_contents(*old(m)).remove(key@),
        r is Some <==> kv_contents(*old(m)).contains_key(key@),
        r is Some ==> r->0@ == kv_contents(*old(m))[key@],
{
    m.shift_remove(key)
}

/// Relies on `IndexMap::get`: the value for `key`, or `None` where it is absent.
#[verifier::external_body]
pub(crate) fn kv_get<'a>(m: &'a IndexMap<String, String>, key: &str) -> (r: Option<&'a String>)
    ensures
        r is Some <==> kv_contents(*m).contains_key(key@),
        r is Some ==> r->0@ == kv_contents(*m)[key@],
{
    m.get(key)
}

/// An untyped node of the block tree.
#[derive(Debug)]
pub struct VmfBlock {
    /// The kind of the block.
    pub name: String,
    /// The key/value pairs, keys unique, in insertion order.
    pub key_values: IndexMap<String, String>,
    /// The child blocks, in order.
    pub blocks: Vec<VmfBlock>,
}

impl VmfBlock {
    /// The key/value pairs of the block, by key.
    pub open spec fn kv(&self) -> Map<Seq<char>, Seq<char>> {
        kv_contents(self.key_values)
    }
}

/// What went wrong in a decode.
#[derive(Debug, Clone, PartialEq, Eq)]
pub enum VmfError {
    /// A required key is absent.
    MissingKey(String),
    /// A key is present but its value does not parse: the key and the raw value.
    ParseError(String, String),
}

/// The mathematical value of a `VmfError`.
pub enum VmfErrorView {
    MissingKey(Seq<char>),
    ParseError(Seq<char>, Seq<char>),
}

impl View for VmfError {
    type V = VmfErrorView;

    open spec fn view(&self) -> VmfErrorView {
        match self {
            VmfError::MissingKey(k) => VmfErrorView::MissingKey(k@),
            VmfError::ParseError(k, v) => VmfErrorView::ParseError(k@, v@),
        }
    }
}

/// The text of a boolean field: `1` for true, `0` for false.
pub open spec fn bool_text(b: bool) -> Seq<char> {
    if b {
        seq!['1']
    } else {
        seq!['0']
    }
}

/// How a raw value reads as a boolean: true exactly for the text `1`.
pub open spec fn bool_of(s: Seq<char>) -> bool {
    s == seq!['1']
}

/// A boolean written as `1` or `0` reads back as itself.
pub proof fn lemma_bool_text_round_trip(b: bool)
    ensures
        bool_of(bool_text(b)) == b,
{
    if !b {
        assert(bool_text(b)[0] != seq!['1'][0]);
    }
}

/// Writes a boolean as `1` or `0`.
pub fn to_01_string(b: bool) -> (r: String)
    ensures
        r@ == bool_text(b),
{
    if b {
        proof {
            reveal_strlit("1");
        }
        String::from_str("1")
    } else {
        proof {
            reveal_strlit("0");
        }
        String::from_str("0")
    }
}

/// Reads a raw value as a boolean: true exactly for the text `1`.
pub fn is_01_true(s: &str) -> (r: bool)
    ensures
        r == bool_of(s@),
{
    let n = s.unicode_len();
    if n != 1 {
        proof {
            if s@ == seq!['1'] {
                assert(s@.len() == 1);
            }
        }
        false
    } else {
        let c = s.get_char(0);
        proof {
            if c == '1' {
                assert(s@ =~= seq!['1']);
            }
        }
        c == '1'
    }
}

/// Removes `key` and returns its value; `MissingKey` where it is absent.
pub fn take_key_owned(kv: &mut IndexMap<String, String>, key: &str) -> (r: Result<String, VmfError>)
    ensures
        kv_contents(*final(kv)) == kv_contents(*old(kv)).remove(key@),
        r is Ok <==> kv_contents(*old(kv)).contains_key(key@),
        r is Ok ==> r->Ok_0@ == kv_contents(*old(kv))[key@],
        r is Err ==> r->Err_0@ == VmfErrorView::MissingKey(key@),
{
    match kv_shift_remove(kv, key) {
        Some(v) => Ok(v),
        None => Err(VmfError::MissingKey(String::from_str(key))),
    }
}

/// What reading `key` as an `i32` gives: the number, `MissingKey` where the
/// key is absent, `ParseError` with the raw value where it does not parse.
pub open spec fn i32_field(kv: Map<Seq<char>, Seq<char>>, key: Seq<char>) -> Result<i32, VmfErrorView> {
    if !kv.contains_key(key) {
        Err(VmfErrorView::MissingKey(key))
    } else {
        match parse_i32_spec(kv[key]) {
            Some(n) => Ok(n),
            None => Err(VmfErrorView::ParseError(key, kv[key])),
        }
    }
}

/// What reading `key` as a `u16` gives, as for `i32_field`.
pub open spec fn u16_field(kv: Map<Seq<char>, Seq<char>>, key: Seq<char>) -> Result<u16, VmfErrorView> {
    if !kv.contains_key(key) {
        Err(VmfErrorView::MissingKey(key))
    } else {
        match parse_u16_spec(kv[key]) {
            Some(n) => Ok(n),
            None => Err(VmfErrorView::ParseError(key, kv[key])),
        }
    }
}

/// The view of a decode result of a plain value.
pub open spec fn result_view<T>(r: Result<T, VmfError>) -> Result<T, VmfErrorView> {
    match r {
        Ok(v) => Ok(v),
        Err(e) => Err(e@),
    }
}

/// Removes `key` and parses its value as an `i32`.
pub fn take_and_parse_i32(kv: &mut IndexMap<String, String>, key: &str) -> (r: Result<i32, VmfError>)
    ensures
        kv_contents(*final(kv)) == kv_contents(*old(kv)).remove(key@),
        result_view(r) == i32_field(kv_contents(*old(kv)), key@),
{
    let raw = take_key_owned(kv, key)?;
    match parse_i32(raw.as_str()) {
        Some(n) => Ok(n),
        None => Err(VmfError::ParseError(String::from_str(key), raw)),
    }
}

/// Removes `key` and parses its value as a `u16`.
pub fn take_and_parse_u16(kv: &mut IndexMap<String, String>, key: &str) -> (r: Result<u16, VmfError>)
    ensures
        kv_contents(*final(kv)) == kv_contents(*old(kv)).remove(key@),
        result_view(r) == u16_field(kv_contents(*old(kv)), key@),
{
    let raw = take_key_owned(kv, key)?;
    match parse_u16(raw.as_str()) {
        Some(n) => Ok(n),
        None => Err(VmfError::ParseError(String::from_str(key), raw)),
    }
}

/// The value of `key`, left in place; `MissingKey` where it is absent.
pub fn get_key_ref<'a>(kv: &'a IndexMap<String, String>, key: &str) -> (r: Result<&'a String, VmfError>)
    ensures
        r is Ok <==> kv_contents(*kv).contains_key(key@),
        r is Ok ==> r->Ok_0@ == kv_contents(*kv)[key@],
        r is Err ==> r->Err_0@ == VmfErrorView::MissingKey(key@),
{
    match kv_get(kv, key) {
        Some(v) => Ok(v),
        None => Err(VmfError::MissingKey(String::from_str(key))),
    }
}

} // verus!
