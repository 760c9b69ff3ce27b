//! The text form of groups. A group rendered at depth `d` writes its name
//! line, braces and keys at depth `d + 1`, and its children at depth `d + 1`
//! in turn, so each level of the tree sits one tab deeper than its parent.

use vstd::prelude::*;
use vstd::string::StringExecFns;

use crate::decimal::{i32_text, int_text};
use crate::emit::{
    block_close, block_open, indent_string, kv_line, push_block_close, push_block_open,
    push_kv_line, tabs,
};
use crate::visgroup::{VisGroup, VisGroups};

verus! {

broadcast use {vstd::seq::group_seq_axioms, vstd::std_specs::vec::group_vec_axioms};

/// The text of the groups `gs`, in order, each rendered at depth `d`.
pub open spec fn forest_text(gs: Seq<VisGroup>, d: nat) -> Seq<char>
    decreases gs,
{
    if gs.len() == 0 {
        Seq::empty()
    } else {
        let g = gs[gs.len() - 1];
        let inner = tabs(d + 1);
        forest_text(gs.subrange(0, gs.len() - 1), d) + block_open(inner, "visgroup"@) + kv_line(
            inner,
            "name"@,
            g.name@,
        ) + kv_line(inner, "visgroupid"@, int_text(g.id as int)) + kv_line(
            inner,
            "color"@,
            g.color@,
        ) + (if g.children is Some {
            forest_text(g.children->0@, d + 1)
        } else {
            Seq::empty()
        }) + block_close(inner)
    }
}

/// The text of the group `g` rendered at depth `d`.
pub open spec fn group_text(g: VisGroup, d: nat) -> Seq<char> {
    forest_text(seq![g], d)
}

/// The text of a visgroups collection at depth `d`.
pub open spec fn visgroups_text(v: VisGroups, d: nat) -> Seq<char> {
    block_open(tabs(d), "visgroups"@) + forest_text(v.groups@, d) + block_close(tabs(d))
}

proof fn lemma_forest_text_push(gs: Seq<VisGroup>, g: VisGroup, d: nat)
    ensures
        forest_text(gs.push(g), d) == forest_text(gs, d) + group_text(g, d),
{
    let s = gs.push(g);
    let one = seq![g];
    assert(s.subrange(0, s.len() - 1) =~= gs);
    assert(one.subrange(0, 0) =~= Seq::<VisGroup>::empty());
    assert(forest_text(Seq::<VisGroup>::empty(), d) == Seq::<char>::empty());
    assert(forest_text(s, d) =~= forest_text(gs, d) + forest_text(one, d));
}

fn push_group_text(out: &mut String, g: &VisGroup, indent: &str, Ghost(d): Ghost<nat>)
    requires
        indent@ == tabs(d),
    ensures
        final(out)@ == old(out)@ + group_text(*g, d),
    decreases g,
{
    let ghost start = out@;
    let mut inner = String::from_str(indent);
    proof {
        reveal_strlit("\t");
    }
    inner.append("\t");
    assert(inner@ =~= tabs(d + 1));
    push_block_open(out, inner.as_str(), "visgroup");
    push_kv_line(out, inner.as_str(), "name", g.name.as_str());
    push_kv_line(out, inner.as_str(), "visgroupid", i32_text(g.id).as_str());
    push_kv_line(out, inner.as_str(), "color", g.color.as_str());
    let ghost head = out@;
    let ghost kids = if g.children is Some {
        forest_text(g.children->0@, d + 1)
    } else {
        Seq::empty()
    };
    if let Some(children) = &g.children {
        let n = children.len();
        let mut i: usize = 0;
        assert(children@.subrange(0, 0) =~= Seq::<VisGroup>::empty());
        while i < n
            invariant
                g.children == Some(*children),
                n == children@.len(),
                i <= n,
                inner@ == tabs(d + 1),
                out@ == head + forest_text(children@.subrange(0, i as int), d + 1),
            decreases n - i,
        {
            proof {
                assert(decreases_to!(g => g.children));
                assert(decreases_to!(g.children => g.children->0));
                assert(decreases_to!(g.children->0 => g.children->0@));
                assert(decreases_to!(g.children->0@ => g.children->0@[i as int]));
            }
            push_group_text(out, &children[i], inner.as_str(), Ghost((d + 1) as nat));
            proof {
                lemma_forest_text_push(children@.subrange(0, i as int), children@[i as int], d + 1);
                assert(children@.subrange(0, i as int).push(children@[i as int]) =~= children@.subrange(
                    0,
                    i + 1,
                ));
            }
            i = i + 1;
        }
        assert(children@.subrange(0, n as int) =~= children@);
        assert(out@ == head + kids);
    } else {
        assert(out@ =~= head + kids);
    }
    push_block_close(out, inner.as_str());
    proof {
        let one = seq![*g];
        let inner_s = tabs(d + 1);
        assert(one.subrange(0, 0) =~= Seq::<VisGroup>::empty());
        assert(one[0] == *g);
        assert(forest_text(Seq::<VisGroup>::empty(), d) == Seq::<char>::empty());
        assert(group_text(*g, d) == Seq::<char>::empty() + block_open(inner_s, "visgroup"@)
            + kv_line(inner_s, "name"@, g.name@) + kv_line(inner_s, "visgroupid"@, int_text(g.id as int))
            + kv_line(inner_s, "color"@, g.color@) + kids + block_close(inner_s));
        assert(final(out)@ =~= start + group_text(*g, d));
    }
}

impl VisGroup {
    /// The text form at depth `indent_level`: the group's own lines sit one
    /// tab deeper, and its children one tab deeper again.
    pub fn to_vmf_string(&self, indent_level: usize) -> (r: String)
        ensures
            r@ == group_text(*self, indent_level as nat),
    {
        let indent = indent_string(indent_level);
        let mut output = String::new();
        push_group_text(&mut output, self, indent.as_str(), Ghost(indent_level as nat));
        output
    }
}

impl VisGroups {
    /// The text form at depth `indent_level`; without groups, just the braces.
    pub fn to_vmf_string(&self, indent_level: usize) -> (r: String)
        ensures
            r@ == visgroups_text(*self, indent_level as nat),
    {
        let indent = indent_string(indent_level);
        let mut output = String::new();
        push_block_open(&mut output, indent.as_str(), "visgroups");
        let ghost head = output@;
        let n = self.groups.len();
        let mut i: usize = 0;
        assert(self.groups@.subrange(0, 0) =~= Seq::<VisGroup>::empty());
        while i < n
            invariant
                n == self.groups@.len(),
                i <= n,
                indent@ == tabs(indent_level as nat),
                output@ == head + forest_text(self.groups@.subrange(0, i as int), indent_level as nat),
            decreases n - i,
        {
            push_group_text(&mut output, &self.groups[i], indent.as_str(), Ghost(indent_level as nat));
            proof {
                lemma_forest_text_push(self.groups@.subrange(0, i as int), self.groups@[i as int], indent_level as nat);
                assert(self.groups@.subrange(0, i as int).push(self.groups@[i as int]) =~= self.groups@.subrange(
                    0,
                    i + 1,
                ));
            }
            i = i + 1;
        }
        assert(self.groups@.subrange(0, n as int) =~= self.groups@);
        push_block_close(&mut output, indent.as_str());
        assert(output@ =~= visgroups_text(*self, indent_level as nat));
        output
    }
}

} // verus!
