use indexmap::IndexMap;
use vmf_metadata::{VisGroup, VisGroups, VmfBlock, VmfError};

fn group(name: &str, id: i32, children: Option<Vec<VisGroup>>) -> VisGroup {
    VisGroup { name: name.to_string(), id, color: "0 255 0".to_string(), children }
}

/// A(1, [B(2), C(3, [D(2)])])
fn sample_forest() -> VisGroups {
    let d = group("D", 2, None);
    let c = group("C", 3, Some(vec![d]));
    let b = group("B", 2, None);
    let a = group("A", 1, Some(vec![b, c]));
    VisGroups { groups: vec![a] }
}

fn group_block(pairs: &[(&str, &str)], blocks: Vec<VmfBlock>) -> VmfBlock {
    let mut key_values = IndexMap::new();
    for (k, v) in pairs {
        key_values.insert(k.to_string(), v.to_string());
    }
    VmfBlock { name: "visgroup".to_string(), key_values, blocks }
}

fn leaf_block(name: &str, id: &str) -> VmfBlock {
    group_block(&[("name", name), ("visgroupid", id), ("color", "1 2 3")], Vec::new())
}

#[test]
fn find_by_id_returns_first_preorder_match() {
    let forest = sample_forest();
    let found = forest.find_by_id(2).unwrap();
    assert_eq!(found.name, "B");
    assert_eq!(forest.find_by_id(3).unwrap().name, "C");
    assert_eq!(forest.find_by_id(1).unwrap().name, "A");
}

#[test]
fn find_by_name_reaches_nested_groups() {
    let forest = sample_forest();
    let d = forest.find_by_name("D").unwrap();
    assert_eq!(d.id, 2);
    assert!(d.children.is_none());
}

#[test]
fn lookup_absent_gives_none() {
    let empty = VisGroups { groups: Vec::new() };
    assert!(empty.find_by_id(1).is_none());
    assert!(empty.find_by_name("A").is_none());
    let forest = sample_forest();
    assert!(forest.find_by_id(99).is_none());
    assert!(forest.find_by_name("Z").is_none());
    assert!(forest.find_by_name("d").is_none());
}

#[test]
fn find_by_id_mut_edits_in_place() {
    let mut forest = sample_forest();
    {
        let c = forest.find_by_id_mut(3).unwrap();
        c.color = "255 0 0".to_string();
    }
    assert_eq!(forest.find_by_id(3).unwrap().color, "255 0 0");
    assert_eq!(forest.find_by_name("D").unwrap().color, "0 255 0");
    assert_eq!(forest.find_by_id(1).unwrap().color, "0 255 0");
}

#[test]
fn find_by_name_mut_edits_nested_group() {
    let mut forest = sample_forest();
    forest.find_by_name_mut("D").unwrap().id = 40;
    assert_eq!(forest.find_by_id(40).unwrap().name, "D");
    assert_eq!(forest.find_by_id(2).unwrap().name, "B");
    assert!(forest.find_by_name_mut("nothing").is_none());
    assert!(forest.find_by_id_mut(99).is_none());
}

#[test]
fn decode_nested_groups() {
    let inner = leaf_block("D", "4");
    let c = group_block(&[("name", "C"), ("visgroupid", "3"), ("color", "9 9 9")], vec![inner]);
    let b = leaf_block("B", "2");
    let a = group_block(&[("name", "A"), ("visgroupid", "1"), ("color", "0 0 0")], vec![b, c]);
    let top = VmfBlock { name: "visgroups".to_string(), key_values: IndexMap::new(), blocks: vec![a] };
    let forest = VisGroups::try_from_block(top).unwrap();
    assert_eq!(forest.groups.len(), 1);
    let a = &forest.groups[0];
    assert_eq!(a.name, "A");
    assert_eq!(a.color, "0 0 0");
    let kids = a.children.as_ref().unwrap();
    assert_eq!(kids.len(), 2);
    assert_eq!(kids[0].name, "B");
    assert!(kids[0].children.is_none());
    assert_eq!(kids[1].children.as_ref().unwrap()[0].id, 4);
}

#[test]
fn zero_child_blocks_give_no_children() {
    let g = VisGroup::try_from_block(leaf_block("B", "2")).unwrap();
    assert!(g.children.is_none());
    let back = g.into_block();
    assert!(back.blocks.is_empty());
}

#[test]
fn nested_failure_aborts_whole_decode() {
    let broken = group_block(&[("name", "D"), ("visgroupid", "4")], Vec::new());
    let a = group_block(&[("name", "A"), ("visgroupid", "1"), ("color", "0 0 0")], vec![leaf_block("B", "2"), broken]);
    assert_eq!(VisGroup::try_from_block(a), Err(VmfError::MissingKey("color".to_string())));
}

#[test]
fn child_failure_comes_before_own_keys() {
    let broken = group_block(&[("name", "D"), ("visgroupid", "x"), ("color", "0")], Vec::new());
    let a = group_block(&[("visgroupid", "1"), ("color", "0 0 0")], vec![broken]);
    assert_eq!(
        VisGroup::try_from_block(a),
        Err(VmfError::ParseError("visgroupid".to_string(), "x".to_string()))
    );
}

#[test]
fn group_missing_name() {
    let b = group_block(&[("visgroupid", "1"), ("color", "0 0 0")], Vec::new());
    assert_eq!(VisGroup::try_from_block(b), Err(VmfError::MissingKey("name".to_string())));
}

#[test]
fn visgroups_round_trip() {
    let forest = sample_forest();
    let back = VisGroups::try_from_block(sample_forest().into_block()).unwrap();
    assert_eq!(back, forest);
}

#[test]
fn group_encodes_keys_and_children() {
    let b = group("A", -5, Some(vec![group("B", 2, None)])).into_block();
    assert_eq!(b.name, "visgroup");
    let keys: Vec<&String> = b.key_values.keys().collect();
    assert_eq!(keys, vec!["name", "visgroupid", "color"]);
    assert_eq!(b.key_values.get("visgroupid").unwrap(), "-5");
    assert_eq!(b.blocks.len(), 1);
    assert_eq!(b.blocks[0].key_values.get("name").unwrap(), "B");
}

#[test]
fn visgroups_encodes_to_block_without_keys() {
    let b = sample_forest().into_block();
    assert_eq!(b.name, "visgroups");
    assert!(b.key_values.is_empty());
    assert_eq!(b.blocks.len(), 1);
}

#[test]
fn visgroups_text() {
    let forest = VisGroups { groups: vec![group("A", 1, Some(vec![group("B", 2, None)]))] };
    let expected = "visgroups\n{\n\
\tvisgroup\n\t{\n\t\t\"name\" \"A\"\n\t\t\"visgroupid\" \"1\"\n\t\t\"color\" \"0 255 0\"\n\
\t\tvisgroup\n\t\t{\n\t\t\t\"name\" \"B\"\n\t\t\t\"visgroupid\" \"2\"\n\t\t\t\"color\" \"0 255 0\"\n\t\t}\n\
\t}\n}\n";
    assert_eq!(forest.to_vmf_string(0), expected);
}

#[test]
fn empty_visgroups_text() {
    let forest = VisGroups { groups: Vec::new() };
    assert_eq!(forest.to_vmf_string(1), "\tvisgroups\n\t{\n\t}\n");
}

#[test]
fn emission_is_deterministic() {
    let forest = sample_forest();
    let first = forest.to_vmf_string(2);
    let second = forest.to_vmf_string(2);
    assert_eq!(first, second);
    let g = &forest.groups[0];
    assert_eq!(g.to_vmf_string(0), g.to_vmf_string(0));
}
