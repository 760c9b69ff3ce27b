//! The hierarchical group record: a forest of named, identified, colored
//! groups, with pre-order lookup by identifier and by name, the block codec
//! and the text form.

use vstd::prelude::*;

verus! {

broadcast use {vstd::seq::group_seq_axioms, vstd::std_specs::vec::group_vec_axioms};

/// A group of the editor, possibly holding child groups.
#[derive(Debug, Default, PartialEq)]
pub struct VisGroup {
    /// The name of the group.
    pub name: String,
    /// The identifier of the group.
    pub id: i32,
    /// The color of the group in the editor.
    pub color: String,
    /// The child groups, if any.
    pub children: Option<Vec<VisGroup>>,
}

/// The top-level groups of a map file, in order.
#[derive(Debug, Default, PartialEq)]
pub struct VisGroups {
    /// The top-level groups.
    pub groups: Vec<VisGroup>,
}

/// Whether the child groups of `g` hold a match for `p` anywhere below it.
pub open spec fn has_match_below(g: VisGroup, p: spec_fn(VisGroup) -> bool) -> bool {
    g.children is Some && find_first(g.children->0@, p) is Some
}

/// The first group of the forest `gs`, in pre-order (a group, then its
/// children in order, then its next sibling), that satisfies `p`.
pub open spec fn find_first(gs: Seq<VisGroup>, p: spec_fn(VisGroup) -> bool) -> Option<VisGroup>
    decreases gs,
{
    if gs.len() == 0 {
        None
    } else if p(gs[0]) {
        Some(gs[0])
    } else if gs[0].children is Some && find_first(gs[0].children->0@, p) is Some {
        find_first(gs[0].children->0@, p)
    } else {
        find_first(gs.drop_first(), p)
    }
}

/// The test of a group's identifier.
pub open spec fn id_is(id: i32) -> spec_fn(VisGroup) -> bool {
    |g: VisGroup| g.id == id
}

/// The test of a group's name.
pub open spec fn name_is(name: Seq<char>) -> spec_fn(VisGroup) -> bool {
    |g: VisGroup| g.name@ == name
}

/// The group that an optional reference points to.
pub open spec fn found(r: Option<&VisGroup>) -> Option<VisGroup> {
    match r {
        Some(g) => Some(*g),
        None => None,
    }
}

/// Relies on `str`'s `==`: two strings are equal exactly when they hold the
/// same characters.
#[verifier::external_body]
fn str_eq(a: &str, b: &str) -> (r: bool)
    ensures
        r == (a@ == b@),
{
    a == b
}

proof fn lemma_find_step(gs: Seq<VisGroup>, i: int, p: spec_fn(VisGroup) -> bool)
    requires
        0 <= i < gs.len(),
        !p(gs[i]),
        !has_match_below(gs[i], p),
    ensures
        find_first(gs.subrange(i, gs.len() as int), p) == find_first(
            gs.subrange(i + 1, gs.len() as int),
            p,
        ),
{
    let s = gs.subrange(i, gs.len() as int);
    assert(s[0] == gs[i]);
    assert(s.drop_first() =~= gs.subrange(i + 1, gs.len() as int));
}

proof fn lemma_find_hit(gs: Seq<VisGroup>, i: int, p: spec_fn(VisGroup) -> bool)
    requires
        0 <= i < gs.len(),
    ensures
        p(gs[i]) ==> find_first(gs.subrange(i, gs.len() as int), p) == Some(gs[i]),
        !p(gs[i]) && has_match_below(gs[i], p) ==> find_first(gs.subrange(i, gs.len() as int), p)
            == find_first(gs[i].children->0@, p),
{
    let s = gs.subrange(i, gs.len() as int);
    assert(s[0] == gs[i]);
}

/// The first group with identifier `id_to_find`, in pre-order.
fn find_visgroup_by_id(groups: &[VisGroup], id_to_find: i32) -> (r: Option<&VisGroup>)
    ensures
        found(r) == find_first(groups@, id_is(id_to_find)),
    decreases groups@,
{
    let ghost p = id_is(id_to_find);
    let n = groups.len();
    let mut i: usize = 0;
    assert(groups@.subrange(0, n as int) =~= groups@);
    while i < n
        invariant
            n == groups@.len(),
            i <= n,
            p == id_is(id_to_find),
            find_first(groups@, p) == find_first(groups@.subrange(i as int, n as int), p),
        decreases n - i,
    {
        let group = &groups[i];
        proof {
            lemma_find_hit(groups@, i as int, p);
        }
        if group.id == id_to_find {
            return Some(group);
        }
        if let Some(children) = &group.children {
            if let Some(found) = find_visgroup_by_id(children.as_slice(), id_to_find) {
                return Some(found);
            }
        }
        proof {
            lemma_find_step(groups@, i as int, p);
        }
        i = i + 1;
    }
    None
}

/// The first group named `name_to_find`, in pre-order.
fn find_visgroup_by_name<'a>(groups: &'a [VisGroup], name_to_find: &str) -> (r: Option<&'a VisGroup>)
    ensures
        found(r) == find_first(groups@, name_is(name_to_find@)),
    decreases groups@,
{
    let ghost p = name_is(name_to_find@);
    let n = groups.len();
    let mut i: usize = 0;
    assert(groups@.subrange(0, n as int) =~= groups@);
    while i < n
        invariant
            n == groups@.len(),
            i <= n,
            p == name_is(name_to_find@),
            find_first(groups@, p) == find_first(groups@.subrange(i as int, n as int), p),
        decreases n - i,
    {
        let group = &groups[i];
        proof {
            lemma_find_hit(groups@, i as int, p);
        }
        if str_eq(group.name.as_str(), name_to_find) {
            return Some(group);
        }
        if let Some(children) = &group.children {
            if let Some(found) = find_visgroup_by_name(children.as_slice(), name_to_find) {
                return Some(found);
            }
        }
        proof {
            lemma_find_step(groups@, i as int, p);
        }
        i = i + 1;
    }
    None
}

/// `new` is the forest `old` with its first group that satisfies `p`, in
/// pre-order, replaced by `g`, and nothing else changed.
pub open spec fn replaced_first(
    old: Seq<VisGroup>,
    new: Seq<VisGroup>,
    p: spec_fn(VisGroup) -> bool,
    g: VisGroup,
) -> bool
    decreases old,
{
    if old.len() == 0 {
        new.len() == 0
    } else if p(old[0]) {
        new == old.update(0, g)
    } else if old[0].children is Some && find_first(old[0].children->0@, p) is Some {
        &&& new.len() == old.len()
        &&& new.drop_first() == old.drop_first()
        &&& new[0].name == old[0].name
        &&& new[0].id == old[0].id
        &&& new[0].color == old[0].color
        &&& new[0].children is Some
        &&& replaced_first(old[0].children->0@, new[0].children->0@, p, g)
    } else {
        &&& new.len() == old.len()
        &&& new[0] == old[0]
        &&& replaced_first(old.drop_first(), new.drop_first(), p, g)
    }
}

/// No group of `gs` before index `i` is a match or holds one below it.
pub open spec fn no_hit_before(gs: Seq<VisGroup>, i: int, p: spec_fn(VisGroup) -> bool) -> bool {
    forall|j: int| 0 <= j < i ==> !p(#[trigger] gs[j]) && !has_match_below(gs[j], p)
}

proof fn lemma_replaced_lift(
    old: Seq<VisGroup>,
    new: Seq<VisGroup>,
    p: spec_fn(VisGroup) -> bool,
    g: VisGroup,
    i: int,
)
    requires
        0 <= i < old.len(),
        no_hit_before(old, i, p),
        new == old.update(i, new[i]),
        (p(old[i]) && new[i] == g) || (!p(old[i]) && has_match_below(old[i], p)
            && new[i].name == old[i].name && new[i].id == old[i].id && new[i].color
            == old[i].color && new[i].children is Some && replaced_first(
            old[i].children->0@,
            new[i].children->0@,
            p,
            g,
        )),
    ensures
        replaced_first(old, new, p, g),
    decreases i,
{
    if i == 0 {
        assert(new.drop_first() =~= old.drop_first());
        if p(old[0]) {
            assert(new =~= old.update(0, g));
        }
    } else {
        let o = old.drop_first();
        let n = new.drop_first();
        assert(n =~= o.update(i - 1, n[i - 1]));
        assert forall|j: int| 0 <= j < i - 1 implies !p(#[trigger] o[j]) && !has_match_below(o[j], p) by {
            assert(o[j] == old[j + 1]);
        }
        lemma_replaced_lift(o, n, p, g, i - 1);
        assert(new[0] == old[0]);
    }
}

/// The first group with identifier `id_to_find`, in pre-order, for change in place.
fn find_visgroup_by_id_mut(groups: &mut Vec<VisGroup>, id_to_find: i32) -> (r: Option<&mut VisGroup>)
    ensures
        match r {
            Some(g) => find_first(old(groups)@, id_is(id_to_find)) == Some(*g) && replaced_first(
                old(groups)@,
                final(groups)@,
                id_is(id_to_find),
                *final(g),
            ),
            None => find_first(old(groups)@, id_is(id_to_find)) is None && final(groups)@ == old(
                groups,
            )@,
        },
    decreases old(groups)@,
{
    let ghost p = id_is(id_to_find);
    let n = groups.len();
    let mut i: usize = 0;
    assert(groups@.subrange(0, n as int) =~= groups@);
    while i < n
        invariant
            n == groups@.len(),
            i <= n,
            p == id_is(id_to_find),
            find_first(groups@, p) == find_first(groups@.subrange(i as int, n as int), p),
            no_hit_before(groups@, i as int, p),
        ensures
            i <= n,
            find_first(groups@, p) == find_first(groups@.subrange(i as int, n as int), p),
            no_hit_before(groups@, i as int, p),
            i < n ==> p(groups@[i as int]) || has_match_below(groups@[i as int], p),
        decreases n - i,
    {
        let group = &groups[i];
        if group.id == id_to_find {
            break;
        }
        if let Some(children) = &group.children {
            if find_visgroup_by_id(children.as_slice(), id_to_find).is_some() {
                break;
            }
        }
        proof {
            lemma_find_step(groups@, i as int, p);
        }
        i = i + 1;
    }
    if i == n {
        return None;
    }
    proof {
        lemma_find_hit(groups@, i as int, p);
    }
    let ghost before = groups@;
    let group = &mut groups[i];
    if group.id == id_to_find {
        proof {
            assert(after_borrow(groups)@ == before.update(i as int, *final(group)));
            lemma_replaced_lift(before, after_borrow(groups)@, p, *final(group), i as int);
        }
        return Some(group);
    }
    let ghost fg = *final(group);
    proof {
        assert(after_borrow(groups)@ == before.update(i as int, fg));
    }
    match &mut group.children {
        Some(children) => {
            let ghost fc = *final(children);
            proof {
                assert(fg.children == Some(fc));
            }
            let r = find_visgroup_by_id_mut(children, id_to_find);
            proof {
                if r is Some {
                    lemma_replaced_lift(before, before.update(i as int, fg), p, *final(r->0), i as int);
                }
            }
            r
        },
        None => None,
    }
}

/// The first group with name `name_to_find`, in pre-order, for change in place.
fn find_visgroup_by_name_mut<'a>(groups: &'a mut Vec<VisGroup>, name_to_find: &str) -> (r: Option<&'a mut VisGroup>)
    ensures
        match r {
            Some(g) => find_first(old(groups)@, name_is(name_to_find@)) == Some(*g) && replaced_first(
                old(groups)@,
                final(groups)@,
                name_is(name_to_find@),
                *final(g),
            ),
            None => find_first(old(groups)@, name_is(name_to_find@)) is None && final(groups)@ == old(
                groups,
            )@,
        },
    decreases old(groups)@,
{
    let ghost p = name_is(name_to_find@);
    let n = groups.len();
    let mut i: usize = 0;
    assert(groups@.subrange(0, n as int) =~= groups@);
    while i < n
        invariant
            n == groups@.len(),
            i <= n,
            p == name_is(name_to_find@),
            find_first(groups@, p) == find_first(groups@.subrange(i as int, n as int), p),
            no_hit_before(groups@, i as int, p),
        ensures
            i <= n,
            find_first(groups@, p) == find_first(groups@.subrange(i as int, n as int), p),
            no_hit_before(groups@, i as int, p),
            i < n ==> p(groups@[i as int]) || has_match_below(groups@[i as int], p),
        decreases n - i,
    {
        let group = &groups[i];
        if str_eq(group.name.as_str(), name_to_find) {
            break;
        }
        if let Some(children) = &group.children {
            if find_visgroup_by_name(children.as_slice(), name_to_find).is_some() {
                break;
            }
        }
        proof {
            lemma_find_step(groups@, i as int, p);
        }
        i = i + 1;
    }
    if i == n {
        return None;
    }
    proof {
        lemma_find_hit(groups@, i as int, p);
    }
    let ghost before = groups@;
    let group = &mut groups[i];
    if str_eq(group.name.as_str(), name_to_find) {
        proof {
            assert(after_borrow(groups)@ == before.update(i as int, *final(group)));
            lemma_replaced_lift(before, after_borrow(groups)@, p, *final(group), i as int);
        }
        return Some(group);
    }
    let ghost fg = *final(group);
    proof {
        assert(after_borrow(groups)@ == before.update(i as int, fg));
    }
    match &mut group.children {
        Some(children) => {
            let ghost fc = *final(children);
            proof {
                assert(fg.children == Some(fc));
            }
            let r = find_visgroup_by_name_mut(children, name_to_find);
            proof {
                if r is Some {
                    lemma_replaced_lift(before, before.update(i as int, fg), p, *final(r->0), i as int);
                }
            }
            r
        },
        None => None,
    }
}

/// Some group of the forest `gs`, at any depth, satisfies `p`.
pub open spec fn any_match(gs: Seq<VisGroup>, p: spec_fn(VisGroup) -> bool) -> bool
    decreases gs,
{
    exists|i: int|
        0 <= i < gs.len() && (p(#[trigger] gs[i]) || (gs[i].children is Some && any_match(
            gs[i].children->0@,
            p,
        )))
}

/// Lookup finds a group exactly when some group of the forest, at any
/// depth, passes the test, and the group it finds passes it; in particular
/// an empty forest, or one where no group passes, gives `None`.
pub proof fn lemma_find_first_some_iff(gs: Seq<VisGroup>, p: spec_fn(VisGroup) -> bool)
    ensures
        find_first(gs, p) is Some <==> any_match(gs, p),
        find_first(gs, p) is Some ==> p(find_first(gs, p)->0),
        gs.len() == 0 ==> find_first(gs, p) is None,
    decreases gs,
{
    if gs.len() > 0 {
        let rest = gs.drop_first();
        assert(decreases_to!(gs => gs.subrange(1, gs.len() as int)));
        assert(rest == gs.subrange(1, gs.len() as int));
        lemma_find_first_some_iff(rest, p);
        if gs[0].children is Some {
            assert(decreases_to!(gs => gs[0]));
            assert(decreases_to!(gs[0] => gs[0].children));
            assert(decreases_to!(gs[0].children => gs[0].children->0));
            assert(decreases_to!(gs[0].children->0 => gs[0].children->0@));
            lemma_find_first_some_iff(gs[0].children->0@, p);
        }
        if any_match(rest, p) {
            let i = choose|i: int|
                0 <= i < rest.len() && (p(#[trigger] rest[i]) || (rest[i].children is Some
                    && any_match(rest[i].children->0@, p)));
            assert(gs[i + 1] == rest[i]);
        }
        if any_match(gs, p) {
            let i = choose|i: int|
                0 <= i < gs.len() && (p(#[trigger] gs[i]) || (gs[i].children is Some && any_match(
                    gs[i].children->0@,
                    p,
                )));
            if i > 0 {
                assert(rest[i - 1] == gs[i]);
            }
        }
    }
}

impl VisGroups {
    /// The first group named `name`, searching each top-level group and then
    /// its children before the next top-level group; `None` where there is none.
    pub fn find_by_name(&self, name: &str) -> (r: Option<&VisGroup>)
        ensures
            found(r) == find_first(self.groups@, name_is(name@)),
    {
        find_visgroup_by_name(self.groups.as_slice(), name)
    }

    /// As `find_by_name`, for change in place: what is written through the
    /// result lands in the forest, in place of that group.
    pub fn find_by_name_mut(&mut self, name: &str) -> (r: Option<&mut VisGroup>)
        ensures
            match r {
                Some(g) => find_first(old(self).groups@, name_is(name@)) == Some(*g)
                    && replaced_first(old(self).groups@, final(self).groups@, name_is(name@), *final(g)),
                None => find_first(old(self).groups@, name_is(name@)) is None
                    && final(self).groups@ == old(self).groups@,
            },
    {
        find_visgroup_by_name_mut(&mut self.groups, name)
    }

    /// The first group with identifier `id`, in the same order as `find_by_name`.
    pub fn find_by_id(&self, id: i32) -> (r: Option<&VisGroup>)
        ensures
            found(r) == find_first(self.groups@, id_is(id)),
    {
        find_visgroup_by_id(self.groups.as_slice(), id)
    }

    /// As `find_by_id`, for change in place: what is written through the
    /// result lands in the forest, in place of that group.
    pub fn find_by_id_mut(&mut self, id: i32) -> (r: Option<&mut VisGroup>)
        ensures
            match r {
                Some(g) => find_first(old(self).groups@, id_is(id)) == Some(*g)
                    && replaced_first(old(self).groups@, final(self).groups@, id_is(id), *final(g)),
                None => find_first(old(self).groups@, id_is(id)) is None
                    && final(self).groups@ == old(self).groups@,
            },
    {
        find_visgroup_by_id_mut(&mut self.groups, id)
    }
}

} // verus!
