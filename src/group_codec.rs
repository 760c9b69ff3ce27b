//! The block codec of the group forest: each group block holds the group's
//! own keys and one child block per child group, in order.

use vstd::prelude::*;
use vstd::string::StringExecFns;

use crate::block::{
    i32_field, kv_contents, kv_insert, kv_new, kv_order, take_and_parse_i32, take_key_owned, VmfBlock,
    VmfError, VmfErrorView,
};
use crate::decimal::{i32_text, int_text, lemma_i32_text_round_trip};
use crate::visgroup::{VisGroup, VisGroups};

verus! {

broadcast use {vstd::seq::group_seq_axioms, vstd::std_specs::vec::group_vec_axioms};

/// The error that a group block's own keys give, read in the order name,
/// identifier, color; `None` where all three are there and the identifier parses.
pub open spec fn group_fields_error(kv: Map<Seq<char>, Seq<char>>) -> Option<VmfErrorView> {
    if !kv.contains_key("name"@) {
        Some(VmfErrorView::MissingKey("name"@))
    } else {
        match i32_field(kv, "visgroupid"@) {
            Err(e) => Some(e),
            Ok(_) => if !kv.contains_key("color"@) {
                Some(VmfErrorView::MissingKey("color"@))
            } else {
                None
            },
        }
    }
}

/// The error that decoding `b` meets once its child blocks before index `i`
/// have decoded: the first child from `i` on that fails, else the block's
/// own keys.
pub open spec fn group_error_from(b: VmfBlock, i: nat) -> Option<VmfErrorView>
    decreases b, b.blocks@.len() - i,
{
    if i >= b.blocks@.len() {
        group_fields_error(b.kv())
    } else {
        match group_error_from(b.blocks@[i as int], 0) {
            Some(e) => Some(e),
            None => group_error_from(b, i + 1),
        }
    }
}

/// The error that decoding the group block `b` gives, if any: children are
/// decoded first, in order, then the block's own keys.
pub open spec fn group_error(b: VmfBlock) -> Option<VmfErrorView> {
    group_error_from(b, 0)
}

/// `g` is what the group block `b` decodes to: its own fields from the
/// block's keys, one child per child block in order, and no children
/// collection where the block has no child block.
pub open spec fn decodes_to(b: VmfBlock, g: VisGroup) -> bool
    decreases b,
{
    &&& g.name@ == b.kv()["name"@]
    &&& i32_field(b.kv(), "visgroupid"@) == Ok::<i32, VmfErrorView>(g.id)
    &&& g.color@ == b.kv()["color"@]
    &&& b.blocks@.len() == 0 ==> g.children is None
    &&& b.blocks@.len() > 0 ==> {
        &&& g.children is Some
        &&& g.children->0@.len() == b.blocks@.len()
        &&& forall|i: int|
            0 <= i < b.blocks@.len() ==> decodes_to(#[trigger] b.blocks@[i], g.children->0@[i])
    }
}

/// The key/value map that a group encodes its own fields to.
pub open spec fn group_kv(g: VisGroup) -> Map<Seq<char>, Seq<char>> {
    map!["name"@ => g.name@, "visgroupid"@ => int_text(g.id as int), "color"@ => g.color@]
}

/// `b` is the block that `g` encodes to: a "visgroup" block with the keys
/// name, identifier and color in that order, and one child block per child.
pub open spec fn encodes_to(g: VisGroup, b: VmfBlock) -> bool
    decreases g,
{
    &&& b.name@ == "visgroup"@
    &&& b.kv() == group_kv(g)
    &&& kv_order(b.key_values) == seq!["name"@, "visgroupid"@, "color"@]
    &&& match g.children {
        None => b.blocks@.len() == 0,
        Some(c) => {
            &&& b.blocks@.len() == c@.len()
            &&& forall|i: int| 0 <= i < c@.len() ==> encodes_to(#[trigger] c@[i], b.blocks@[i])
        },
    }
}

/// No group of the tree under `g`, `g` included, has an empty children collection.
pub open spec fn no_empty_children(g: VisGroup) -> bool
    decreases g,
{
    match g.children {
        None => true,
        Some(c) => c@.len() > 0 && forall|i: int|
            0 <= i < c@.len() ==> no_empty_children(#[trigger] c@[i]),
    }
}

/// The error that decoding the group blocks `bs` from index `i` on meets:
/// the first that fails.
pub open spec fn forest_error_from(bs: Seq<VmfBlock>, i: nat) -> Option<VmfErrorView>
    decreases bs.len() - i,
{
    if i >= bs.len() {
        None
    } else {
        match group_error(bs[i as int]) {
            Some(e) => Some(e),
            None => forest_error_from(bs, i + 1),
        }
    }
}

proof fn lemma_group_keys()
    ensures
        "name"@ != "visgroupid"@,
        "name"@ != "color"@,
        "visgroupid"@ != "color"@,
{
    reveal_strlit("name");
    reveal_strlit("visgroupid");
    reveal_strlit("color");
    assert("name"@.len() != "visgroupid"@.len());
    assert("name"@.len() != "color"@.len());
    assert("visgroupid"@.len() != "color"@.len());
}

impl VisGroup {
    /// Decodes a group block and, recursively, its child blocks. The first
    /// failure anywhere in the tree aborts the whole decode.
    pub fn try_from_block(block: VmfBlock) -> (r: Result<VisGroup, VmfError>)
        ensures
            match r {
                Ok(g) => group_error(block) is None && decodes_to(block, g),
                Err(e) => group_error(block) == Some(e@),
            },
        decreases block,
    {
        proof {
            lemma_group_keys();
        }
        let ghost b0 = block;
        let mut blocks = block.blocks;
        let mut kv = block.key_values;
        let n = blocks.len();
        let children = if n > 0 {
            let mut out: Vec<VisGroup> = Vec::new();
            let mut i: usize = 0;
            assert(blocks@ =~= b0.blocks@.subrange(0, n as int));
            while i < n
                invariant
                    b0 == block,
                    n == b0.blocks@.len(),
                    i <= n,
                    blocks@ == b0.blocks@.subrange(i as int, n as int),
                    out@.len() == i,
                    forall|j: int| 0 <= j < i ==> decodes_to(#[trigger] b0.blocks@[j], out@[j]),
                    group_error_from(b0, 0) == group_error_from(b0, i as nat),
                decreases n - i,
            {
                let child = blocks.remove(0);
                assert(child == b0.blocks@[i as int]);
                assert(blocks@ =~= b0.blocks@.subrange(i + 1, n as int));
                assert(decreases_to!(b0 => b0.blocks));
                assert(decreases_to!(b0.blocks => b0.blocks@));
                assert(decreases_to!(b0.blocks@ => b0.blocks@[i as int]));
                assert(group_error_from(b0, i as nat) == match group_error_from(child, 0) {
                    Some(e) => Some(e),
                    None => group_error_from(b0, (i + 1) as nat),
                });
                match VisGroup::try_from_block(child) {
                    Ok(g) => {
                        out.push(g);
                    },
                    Err(e) => {
                        return Err(e);
                    },
                }
                i = i + 1;
            }
            Some(out)
        } else {
            None
        };
        let name = take_key_owned(&mut kv, "name")?;
        let id = take_and_parse_i32(&mut kv, "visgroupid")?;
        let color = take_key_owned(&mut kv, "color")?;
        Ok(VisGroup { name, id, color, children })
    }

    /// Encodes into a group block, the children, recursively, as child blocks.
    pub fn into_block(self) -> (r: VmfBlock)
        ensures
            encodes_to(self, r),
        decreases self,
    {
        proof {
            lemma_group_keys();
        }
        let ghost g0 = self;
        let mut key_values = kv_new();
        kv_insert(&mut key_values, String::from_str("name"), self.name);
        kv_insert(&mut key_values, String::from_str("visgroupid"), i32_text(self.id));
        kv_insert(&mut key_values, String::from_str("color"), self.color);
        assert(kv_contents(key_values) =~= group_kv(g0));
        assert(kv_order(key_values) =~= seq!["name"@, "visgroupid"@, "color"@]);
        let mut blocks: Vec<VmfBlock> = Vec::new();
        if let Some(children) = self.children {
            let mut children = children;
            let n = children.len();
            let mut i: usize = 0;
            assert(children@ =~= g0.children->0@.subrange(0, n as int));
            while i < n
                invariant
                    g0 == self,
                    g0.children is Some,
                    n == g0.children->0@.len(),
                    i <= n,
                    children@ == g0.children->0@.subrange(i as int, n as int),
                    blocks@.len() == i,
                    forall|j: int| 0 <= j < i ==> encodes_to(#[trigger] g0.children->0@[j], blocks@[j]),
                decreases n - i,
            {
                let child = children.remove(0);
                assert(child == g0.children->0@[i as int]);
                assert(children@ =~= g0.children->0@.subrange(i + 1, n as int));
                assert(decreases_to!(g0 => g0.children));
                assert(decreases_to!(g0.children => g0.children->0));
                assert(decreases_to!(g0.children->0 => g0.children->0@));
                assert(decreases_to!(g0.children->0@ => g0.children->0@[i as int]));
                blocks.push(child.into_block());
                i = i + 1;
            }
        }
        VmfBlock { name: String::from_str("visgroup"), key_values, blocks }
    }
}

/// Each group of `gs` is what the block at its index in `bs` decodes to.
pub open spec fn forest_decodes_to(bs: Seq<VmfBlock>, gs: Seq<VisGroup>) -> bool {
    &&& gs.len() == bs.len()
    &&& forall|i: int| 0 <= i < bs.len() ==> decodes_to(#[trigger] bs[i], gs[i])
}

/// Each block of `bs` is what the group at its index in `gs` encodes to.
pub open spec fn forest_encodes_to(gs: Seq<VisGroup>, bs: Seq<VmfBlock>) -> bool {
    &&& bs.len() == gs.len()
    &&& forall|i: int| 0 <= i < gs.len() ==> encodes_to(#[trigger] gs[i], bs[i])
}

impl VisGroups {
    /// Decodes a visgroups block: one group per child block, in order. The
    /// first group that fails aborts the whole decode.
    pub fn try_from_block(block: VmfBlock) -> (r: Result<VisGroups, VmfError>)
        ensures
            match r {
                Ok(v) => forest_error_from(block.blocks@, 0) is None && forest_decodes_to(
                    block.blocks@,
                    v.groups@,
                ),
                Err(e) => forest_error_from(block.blocks@, 0) == Some(e@),
            },
    {
        let ghost bs = block.blocks@;
        let mut blocks = block.blocks;
        let n = blocks.len();
        let mut groups: Vec<VisGroup> = Vec::new();
        let mut i: usize = 0;
        assert(blocks@ =~= bs.subrange(0, n as int));
        while i < n
            invariant
                bs == block.blocks@,
                n == bs.len(),
                i <= n,
                blocks@ == bs.subrange(i as int, n as int),
                groups@.len() == i,
                forall|j: int| 0 <= j < i ==> decodes_to(#[trigger] bs[j], groups@[j]),
                forest_error_from(bs, 0) == forest_error_from(bs, i as nat),
            decreases n - i,
        {
            let child = blocks.remove(0);
            assert(child == bs[i as int]);
            assert(blocks@ =~= bs.subrange(i + 1, n as int));
            assert(forest_error_from(bs, i as nat) == match group_error(child) {
                Some(e) => Some(e),
                None => forest_error_from(bs, (i + 1) as nat),
            });
            match VisGroup::try_from_block(child) {
                Ok(g) => {
                    groups.push(g);
                },
                Err(e) => {
                    return Err(e);
                },
            }
            i = i + 1;
        }
        Ok(VisGroups { groups })
    }

    /// Encodes into a visgroups block: no keys, one child block per group.
    pub fn into_block(self) -> (r: VmfBlock)
        ensures
            r.name@ == "visgroups"@,
            r.kv().dom().is_empty(),
            forest_encodes_to(self.groups@, r.blocks@),
    {
        let ghost gs = self.groups@;
        let mut groups = self.groups;
        let n = groups.len();
        let mut blocks: Vec<VmfBlock> = Vec::new();
        let mut i: usize = 0;
        assert(groups@ =~= gs.subrange(0, n as int));
        while i < n
            invariant
                n == gs.len(),
                i <= n,
                groups@ == gs.subrange(i as int, n as int),
                blocks@.len() == i,
                forall|j: int| 0 <= j < i ==> encodes_to(#[trigger] gs[j], blocks@[j]),
            decreases n - i,
        {
            let group = groups.remove(0);
            assert(group == gs[i as int]);
            assert(groups@ =~= gs.subrange(i + 1, n as int));
            blocks.push(group.into_block());
            i = i + 1;
        }
        VmfBlock { name: String::from_str("visgroups"), key_values: kv_new(), blocks }
    }
}

proof fn lemma_group_error_from_children_ok(b: VmfBlock, i: nat)
    requires
        forall|j: int| i <= j < b.blocks@.len() ==> group_error(#[trigger] b.blocks@[j]) is None,
    ensures
        group_error_from(b, i) == group_fields_error(b.kv()),
    decreases b.blocks@.len() - i,
{
    if i < b.blocks@.len() {
        lemma_group_error_from_children_ok(b, i + 1);
    }
}

proof fn lemma_group_error_from_fields(b: VmfBlock, i: nat)
    ensures
        group_fields_error(b.kv()) is Some ==> group_error_from(b, i) is Some,
    decreases b.blocks@.len() - i,
{
    if i < b.blocks@.len() {
        lemma_group_error_from_fields(b, i + 1);
    }
}

/// The keys that a group cannot be decoded without, in the order read.
pub open spec fn group_required_keys() -> Seq<Seq<char>> {
    seq!["name"@, "visgroupid"@, "color"@]
}

/// A group block without one of its required keys fails to decode; where
/// its child blocks decode, the other required keys are there and the
/// identifier parses, the failure is `MissingKey` for that key.
pub proof fn lemma_visgroup_missing_key(b: VmfBlock, k: Seq<char>)
    requires
        group_required_keys().contains(k),
        !b.kv().contains_key(k),
    ensures
        group_error(b) is Some,
        (forall|j: int| 0 <= j < b.blocks@.len() ==> group_error(#[trigger] b.blocks@[j]) is None)
            && (k != "name"@ ==> b.kv().contains_key("name"@)) && (k != "visgroupid"@ ==> i32_field(
            b.kv(),
            "visgroupid"@,
        ) is Ok) && (k != "color"@ ==> b.kv().contains_key("color"@)) ==> group_error(b) == Some(
            VmfErrorView::MissingKey(k),
        ),
{
    lemma_group_keys();
    lemma_group_error_from_fields(b, 0);
    if forall|j: int| 0 <= j < b.blocks@.len() ==> group_error(#[trigger] b.blocks@[j]) is None {
        lemma_group_error_from_children_ok(b, 0);
    }
}

proof fn lemma_forest_error_from_none(bs: Seq<VmfBlock>, i: nat)
    requires
        forall|j: int| i <= j < bs.len() ==> group_error(#[trigger] bs[j]) is None,
    ensures
        forest_error_from(bs, i) is None,
    decreases bs.len() - i,
{
    if i < bs.len() {
        lemma_forest_error_from_none(bs, i + 1);
    }
}

/// Decoding the block that a group encodes to gives that group back, for a
/// group with no empty children collection anywhere in its tree.
pub proof fn lemma_visgroup_round_trip(g: VisGroup, b: VmfBlock)
    requires
        no_empty_children(g),
        encodes_to(g, b),
    ensures
        group_error(b) is None,
        decodes_to(b, g),
    decreases g,
{
    lemma_group_keys();
    lemma_i32_text_round_trip(g.id);
    assert(group_fields_error(b.kv()) is None);
    if g.children is Some {
        let c = g.children->0@;
        assert forall|i: int| 0 <= i < c.len() implies group_error(#[trigger] b.blocks@[i]) is None
            && decodes_to(b.blocks@[i], c[i]) by {
            assert(decreases_to!(g => g.children));
            assert(decreases_to!(g.children => g.children->0));
            assert(decreases_to!(g.children->0 => g.children->0@));
            assert(decreases_to!(g.children->0@ => g.children->0@[i]));
            lemma_visgroup_round_trip(c[i], b.blocks@[i]);
        }
    }
    lemma_group_error_from_children_ok(b, 0);
}

/// Decoding the block that a forest of groups encodes to gives that forest
/// back, for groups with no empty children collection anywhere.
pub proof fn lemma_visgroups_round_trip(v: VisGroups, b: VmfBlock)
    requires
        forall|i: int| 0 <= i < v.groups@.len() ==> no_empty_children(#[trigger] v.groups@[i]),
        forest_encodes_to(v.groups@, b.blocks@),
    ensures
        forest_error_from(b.blocks@, 0) is None,
        forest_decodes_to(b.blocks@, v.groups@),
{
    assert forall|i: int| 0 <= i < b.blocks@.len() implies group_error(#[trigger] b.blocks@[i])
        is None && decodes_to(b.blocks@[i], v.groups@[i]) by {
        lemma_visgroup_round_trip(v.groups@[i], b.blocks@[i]);
    }
    lemma_forest_error_from_none(b.blocks@, 0);
}

/// A group decoded from a block without child blocks has no children
/// collection, and encodes back to a block without child blocks.
pub proof fn lemma_no_child_blocks(b: VmfBlock, g: VisGroup, back: VmfBlock)
    requires
        b.blocks@.len() == 0,
        decodes_to(b, g),
        encodes_to(g, back),
    ensures
        g.children is None,
        back.blocks@.len() == 0,
{
}

} // verus!
