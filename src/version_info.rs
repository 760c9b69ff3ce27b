//! The version info record: four integers and the prefab flag.

use vstd::prelude::*;
use vstd::string::StringExecFns;

use crate::block::{
    bool_of, bool_text, get_key_ref, i32_field, lemma_bool_text_round_trip, is_01_true, kv_insert, kv_new,
    kv_order, take_and_parse_i32, to_01_string, VmfBlock, VmfError, VmfErrorView,
};
use crate::decimal::{i32_text, int_text, lemma_i32_text_round_trip};
use crate::emit::{
    block_close, block_open, indent_string, kv_line, push_block_close, push_block_open,
    push_kv_line, tabs,
};

verus! {

/// The version info of a map file.
#[derive(Debug, Default, Clone, Copy, PartialEq, Eq, Structural)]
pub struct VersionInfo {
    /// The editor version.
    pub editor_version: i32,
    /// The editor build number.
    pub editor_build: i32,
    /// The map version.
    pub map_version: i32,
    /// The format version.
    pub format_version: i32,
    /// Whether the map is a prefab.
    pub prefab: bool,
}

/// The record that a versioninfo key/value map decodes to: the four numbers
/// are read in declaration order, then the prefab flag, and the first key
/// that is absent or does not parse is the error.
pub open spec fn version_info_of(kv: Map<Seq<char>, Seq<char>>) -> Result<VersionInfo, VmfErrorView> {
    match i32_field(kv, "editorversion"@) {
        Err(e) => Err(e),
        Ok(editor_version) => match i32_field(kv, "editorbuild"@) {
            Err(e) => Err(e),
            Ok(editor_build) => match i32_field(kv, "mapversion"@) {
                Err(e) => Err(e),
                Ok(map_version) => match i32_field(kv, "formatversion"@) {
                    Err(e) => Err(e),
                    Ok(format_version) => if !kv.contains_key("prefab"@) {
                        Err(VmfErrorView::MissingKey("prefab"@))
                    } else {
                        Ok(
                            VersionInfo {
                                editor_version,
                                editor_build,
                                map_version,
                                format_version,
                                prefab: bool_of(kv["prefab"@]),
                            },
                        )
                    },
                },
            },
        },
    }
}

/// The key/value map that a version info encodes to.
pub open spec fn version_info_kv(v: VersionInfo) -> Map<Seq<char>, Seq<char>> {
    map![
        "editorversion"@ => int_text(v.editor_version as int),
        "editorbuild"@ => int_text(v.editor_build as int),
        "mapversion"@ => int_text(v.map_version as int),
        "formatversion"@ => int_text(v.format_version as int),
        "prefab"@ => bool_text(v.prefab),
    ]
}

/// The keys of an encoded version info, in emission order.
pub open spec fn version_info_keys() -> Seq<Seq<char>> {
    seq!["editorversion"@, "editorbuild"@, "mapversion"@, "formatversion"@, "prefab"@]
}

/// The text form of a version info at depth `indent`.
pub open spec fn version_info_text(v: VersionInfo, indent: nat) -> Seq<char> {
    let t = tabs(indent);
    block_open(t, "versioninfo"@) + kv_line(t, "editorversion"@, int_text(v.editor_version as int))
        + kv_line(t, "editorbuild"@, int_text(v.editor_build as int)) + kv_line(
        t,
        "mapversion"@,
        int_text(v.map_version as int),
    ) + kv_line(t, "formatversion"@, int_text(v.format_version as int)) + kv_line(
        t,
        "prefab"@,
        bool_text(v.prefab),
    ) + block_close(t)
}

proof fn lemma_version_info_keys()
    ensures
        "editorversion"@ != "editorbuild"@,
        "editorversion"@ != "mapversion"@,
        "editorversion"@ != "formatversion"@,
        "editorversion"@ != "prefab"@,
        "editorbuild"@ != "mapversion"@,
        "editorbuild"@ != "formatversion"@,
        "editorbuild"@ != "prefab"@,
        "mapversion"@ != "formatversion"@,
        "mapversion"@ != "prefab"@,
        "formatversion"@ != "prefab"@,
{
    reveal_strlit("editorversion");
    reveal_strlit("editorbuild");
    reveal_strlit("mapversion");
    reveal_strlit("formatversion");
    reveal_strlit("prefab");
    assert("editorversion"@[0] != "mapversion"@[0]);
    assert("editorversion"@[0] != "formatversion"@[0]);
    assert("editorversion"@[0] != "prefab"@[0]);
    assert("editorversion"@.len() != "editorbuild"@.len());
    assert("editorbuild"@[0] != "mapversion"@[0]);
    assert("editorbuild"@[0] != "formatversion"@[0]);
    assert("editorbuild"@[0] != "prefab"@[0]);
    assert("mapversion"@[0] != "formatversion"@[0]);
    assert("mapversion"@[0] != "prefab"@[0]);
    assert("formatversion"@[0] != "prefab"@[0]);
}

impl VersionInfo {
    /// Decodes a versioninfo block; leftover keys and child blocks are ignored.
    pub fn try_from_block(block: VmfBlock) -> (r: Result<VersionInfo, VmfError>)
        ensures
            match r {
                Ok(v) => version_info_of(block.kv()) == Ok::<VersionInfo, VmfErrorView>(v),
                Err(e) => version_info_of(block.kv()) == Err::<VersionInfo, VmfErrorView>(e@),
            },
    {
        proof {
            lemma_version_info_keys();
        }
        let mut block = block;
        let kv = &mut block.key_values;
        let editor_version = take_and_parse_i32(kv, "editorversion")?;
        let editor_build = take_and_parse_i32(kv, "editorbuild")?;
        let map_version = take_and_parse_i32(kv, "mapversion")?;
        let format_version = take_and_parse_i32(kv, "formatversion")?;
        let prefab = is_01_true(get_key_ref(kv, "prefab")?.as_str());
        Ok(VersionInfo { editor_version, editor_build, map_version, format_version, prefab })
    }

    /// Encodes into a versioninfo block with the keys in declaration order.
    pub fn into_block(self) -> (r: VmfBlock)
        ensures
            r.name@ == "versioninfo"@,
            r.kv() == version_info_kv(self),
            kv_order(r.key_values) == version_info_keys(),
            r.blocks@.len() == 0,
    {
        proof {
            lemma_version_info_keys();
        }
        let mut key_values = kv_new();
        kv_insert(&mut key_values, String::from_str("editorversion"), i32_text(self.editor_version));
        kv_insert(&mut key_values, String::from_str("editorbuild"), i32_text(self.editor_build));
        kv_insert(&mut key_values, String::from_str("mapversion"), i32_text(self.map_version));
        kv_insert(&mut key_values, String::from_str("formatversion"), i32_text(self.format_version));
        kv_insert(&mut key_values, String::from_str("prefab"), to_01_string(self.prefab));
        let r = VmfBlock { name: String::from_str("versioninfo"), key_values, blocks: Vec::new() };
        assert(r.kv() =~= version_info_kv(self));
        assert(kv_order(r.key_values) =~= version_info_keys());
        r
    }

    /// The text form at depth `indent_level`.
    pub fn to_vmf_string(&self, indent_level: usize) -> (r: String)
        ensures
            r@ == version_info_text(*self, indent_level as nat),
    {
        let indent = indent_string(indent_level);
        let mut output = String::new();
        push_block_open(&mut output, indent.as_str(), "versioninfo");
        push_kv_line(&mut output, indent.as_str(), "editorversion", i32_text(self.editor_version).as_str());
        push_kv_line(&mut output, indent.as_str(), "editorbuild", i32_text(self.editor_build).as_str());
        push_kv_line(&mut output, indent.as_str(), "mapversion", i32_text(self.map_version).as_str());
        push_kv_line(&mut output, indent.as_str(), "formatversion", i32_text(self.format_version).as_str());
        push_kv_line(&mut output, indent.as_str(), "prefab", to_01_string(self.prefab).as_str());
        push_block_close(&mut output, indent.as_str());
        output
    }
}

/// Decoding what a version info encodes to gives that version info back.
pub proof fn lemma_version_info_round_trip(v: VersionInfo)
    ensures
        version_info_of(version_info_kv(v)) == Ok::<VersionInfo, VmfErrorView>(v),
{
    lemma_version_info_keys();
    lemma_i32_text_round_trip(v.editor_version);
    lemma_i32_text_round_trip(v.editor_build);
    lemma_i32_text_round_trip(v.map_version);
    lemma_i32_text_round_trip(v.format_version);
    let kv = version_info_kv(v);
    assert(kv["prefab"@] == bool_text(v.prefab));
    lemma_bool_text_round_trip(v.prefab);
}

/// A versioninfo block without one of its required keys fails to decode;
/// where every other required key is there and the numbers parse, the
/// failure is `MissingKey` for that key.
pub proof fn lemma_version_info_missing_key(kv: Map<Seq<char>, Seq<char>>, k: Seq<char>)
    requires
        version_info_keys().contains(k),
        !kv.contains_key(k),
    ensures
        version_info_of(kv) is Err,
        (forall|j: int|
            0 <= j < 4 && version_info_keys()[j] != k ==> #[trigger] i32_field(
                kv,
                version_info_keys()[j],
            ) is Ok) && (k != "prefab"@ ==> kv.contains_key("prefab"@)) ==> version_info_of(kv)
            == Err::<VersionInfo, VmfErrorView>(VmfErrorView::MissingKey(k)),
{
    lemma_version_info_keys();
    let keys = version_info_keys();
    let i = choose|i: int| 0 <= i < keys.len() && keys[i] == k;
    if (forall|j: int| 0 <= j < 4 && keys[j] != k ==> #[trigger] i32_field(kv, keys[j]) is Ok) {
        assert(i32_field(kv, keys[0]) is Ok || i == 0);
        assert(i32_field(kv, keys[1]) is Ok || i == 1);
        assert(i32_field(kv, keys[2]) is Ok || i == 2);
        assert(i32_field(kv, keys[3]) is Ok || i == 3);
    }
}

/// The prefab flag of a decoded version info is true exactly when its raw
/// value is the text `1`: `0`, `true` and the empty text all give false.
pub proof fn lemma_version_info_prefab_flag(kv: Map<Seq<char>, Seq<char>>)
    requires
        version_info_of(kv) is Ok,
    ensures
        version_info_of(kv)->Ok_0.prefab == (kv["prefab"@] == seq!['1']),
{
}

} // verus!
