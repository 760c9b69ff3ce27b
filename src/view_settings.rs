//! The view settings record: three required flags, the grid spacing and the
//! 3D grid flag, the last two optional.

use vstd::prelude::*;
use vstd::string::StringExecFns;

use crate::block::{
    bool_of, bool_text, get_key_ref, is_01_true, kv_insert, kv_new, kv_order,
    lemma_bool_text_round_trip, take_and_parse_u16, to_01_string, u16_field, VmfBlock, VmfError,
    VmfErrorView,
};
use crate::decimal::{int_text, lemma_u16_text_round_trip, u16_text};
use crate::emit::{
    block_close, block_open, indent_string, kv_line, push_block_close, push_block_open,
    push_kv_line, tabs,
};

verus! {

/// The grid spacing that a block without a readable one decodes to.
pub const DEFAULT_GRID_SPACING: u16 = 64;

/// The view settings of a map file.
#[derive(Debug, Clone, Copy, PartialEq, Eq, Structural)]
pub struct ViewSettings {
    /// Whether snapping to the grid is enabled.
    pub snap_to_grid: bool,
    /// Whether the grid is shown in the editor.
    pub show_grid: bool,
    /// Whether the logical grid is shown in the editor.
    pub show_logical_grid: bool,
    /// The grid spacing.
    pub grid_spacing: u16,
    /// Whether the 3D grid is shown in the editor.
    pub show_3d_grid: bool,
}

/// The record that a viewsettings key/value map decodes to. The three flags
/// are required, in declaration order; the grid spacing falls back to 64
/// where it is absent or does not parse, the 3D grid flag to false where it
/// is absent.
pub open spec fn view_settings_of(kv: Map<Seq<char>, Seq<char>>) -> Result<ViewSettings, VmfErrorView> {
    if !kv.contains_key("bSnapToGrid"@) {
        Err(VmfErrorView::MissingKey("bSnapToGrid"@))
    } else if !kv.contains_key("bShowGrid"@) {
        Err(VmfErrorView::MissingKey("bShowGrid"@))
    } else if !kv.contains_key("bShowLogicalGrid"@) {
        Err(VmfErrorView::MissingKey("bShowLogicalGrid"@))
    } else {
        Ok(
            ViewSettings {
                snap_to_grid: bool_of(kv["bSnapToGrid"@]),
                show_grid: bool_of(kv["bShowGrid"@]),
                show_logical_grid: bool_of(kv["bShowLogicalGrid"@]),
                grid_spacing: match u16_field(kv, "nGridSpacing"@) {
                    Ok(n) => n,
                    Err(_) => DEFAULT_GRID_SPACING,
                },
                show_3d_grid: kv.contains_key("bShow3DGrid"@) && bool_of(kv["bShow3DGrid"@]),
            },
        )
    }
}

/// The key/value map that view settings encode to.
pub open spec fn view_settings_kv(v: ViewSettings) -> Map<Seq<char>, Seq<char>> {
    map![
        "bSnapToGrid"@ => bool_text(v.snap_to_grid),
        "bShowGrid"@ => bool_text(v.show_grid),
        "bShowLogicalGrid"@ => bool_text(v.show_logical_grid),
        "nGridSpacing"@ => int_text(v.grid_spacing as int),
        "bShow3DGrid"@ => bool_text(v.show_3d_grid),
    ]
}

/// The keys of encoded view settings, in emission order.
pub open spec fn view_settings_keys() -> Seq<Seq<char>> {
    seq!["bSnapToGrid"@, "bShowGrid"@, "bShowLogicalGrid"@, "nGridSpacing"@, "bShow3DGrid"@]
}

/// The text form of view settings at depth `indent`.
pub open spec fn view_settings_text(v: ViewSettings, indent: nat) -> Seq<char> {
    let t = tabs(indent);
    block_open(t, "viewsettings"@) + kv_line(t, "bSnapToGrid"@, bool_text(v.snap_to_grid))
        + kv_line(t, "bShowGrid"@, bool_text(v.show_grid)) + kv_line(
        t,
        "bShowLogicalGrid"@,
        bool_text(v.show_logical_grid),
    ) + kv_line(t, "nGridSpacing"@, int_text(v.grid_spacing as int)) + kv_line(
        t,
        "bShow3DGrid"@,
        bool_text(v.show_3d_grid),
    ) + block_close(t)
}

proof fn lemma_view_settings_keys()
    ensures
        "bSnapToGrid"@ != "bShowGrid"@,
        "bSnapToGrid"@ != "bShowLogicalGrid"@,
        "bSnapToGrid"@ != "nGridSpacing"@,
        "bSnapToGrid"@ != "bShow3DGrid"@,
        "bShowGrid"@ != "bShowLogicalGrid"@,
        "bShowGrid"@ != "nGridSpacing"@,
        "bShowGrid"@ != "bShow3DGrid"@,
        "bShowLogicalGrid"@ != "nGridSpacing"@,
        "bShowLogicalGrid"@ != "bShow3DGrid"@,
        "nGridSpacing"@ != "bShow3DGrid"@,
{
    reveal_strlit("bSnapToGrid");
    reveal_strlit("bShowGrid");
    reveal_strlit("bShowLogicalGrid");
    reveal_strlit("nGridSpacing");
    reveal_strlit("bShow3DGrid");
    assert("bSnapToGrid"@[2] != "bShow3DGrid"@[2]);
    assert("bShowGrid"@.len() != "bShowLogicalGrid"@.len());
    assert("bShowGrid"@.len() != "nGridSpacing"@.len());
    assert("bSnapToGrid"@.len() != "bShowGrid"@.len());
    assert("bSnapToGrid"@.len() != "bShowLogicalGrid"@.len());
    assert("bSnapToGrid"@.len() != "nGridSpacing"@.len());
    assert("bShowGrid"@.len() != "bShow3DGrid"@.len());
    assert("bShowLogicalGrid"@.len() != "nGridSpacing"@.len());
    assert("bShowLogicalGrid"@.len() != "bShow3DGrid"@.len());
    assert("nGridSpacing"@.len() != "bShow3DGrid"@.len());
}

impl Default for ViewSettings {
    fn default() -> (r: ViewSettings)
        ensures
            r == (ViewSettings {
                snap_to_grid: true,
                show_grid: true,
                show_logical_grid: false,
                grid_spacing: 8,
                show_3d_grid: false,
            }),
    {
        ViewSettings {
            snap_to_grid: true,
            show_grid: true,
            show_logical_grid: false,
            grid_spacing: 8,
            show_3d_grid: false,
        }
    }
}

impl ViewSettings {
    /// Decodes a viewsettings block; leftover keys and child blocks are ignored.
    pub fn try_from_block(block: VmfBlock) -> (r: Result<ViewSettings, VmfError>)
        ensures
            match r {
                Ok(v) => view_settings_of(block.kv()) == Ok::<ViewSettings, VmfErrorView>(v),
                Err(e) => view_settings_of(block.kv()) == Err::<ViewSettings, VmfErrorView>(e@),
            },
    {
        proof {
            lemma_view_settings_keys();
        }
        let mut block = block;
        let kv = &mut block.key_values;
        let snap_to_grid = is_01_true(get_key_ref(kv, "bSnapToGrid")?.as_str());
        let show_grid = is_01_true(get_key_ref(kv, "bShowGrid")?.as_str());
        let show_logical_grid = is_01_true(get_key_ref(kv, "bShowLogicalGrid")?.as_str());
        let grid_spacing = match take_and_parse_u16(kv, "nGridSpacing") {
            Ok(n) => n,
            Err(_) => DEFAULT_GRID_SPACING,
        };
        let show_3d_grid = match get_key_ref(kv, "bShow3DGrid") {
            Ok(v) => is_01_true(v.as_str()),
            Err(_) => false,
        };
        Ok(ViewSettings { snap_to_grid, show_grid, show_logical_grid, grid_spacing, show_3d_grid })
    }

    /// Encodes into a viewsettings block with the keys in declaration order.
    pub fn into_block(self) -> (r: VmfBlock)
        ensures
            r.name@ == "viewsettings"@,
            r.kv() == view_settings_kv(self),
            kv_order(r.key_values) == view_settings_keys(),
            r.blocks@.len() == 0,
    {
        proof {
            lemma_view_settings_keys();
        }
        let mut key_values = kv_new();
        kv_insert(&mut key_values, String::from_str("bSnapToGrid"), to_01_string(self.snap_to_grid));
        kv_insert(&mut key_values, String::from_str("bShowGrid"), to_01_string(self.show_grid));
        kv_insert(&mut key_values, String::from_str("bShowLogicalGrid"), to_01_string(self.show_logical_grid));
        kv_insert(&mut key_values, String::from_str("nGridSpacing"), u16_text(self.grid_spacing));
        kv_insert(&mut key_values, String::from_str("bShow3DGrid"), to_01_string(self.show_3d_grid));
        let r = VmfBlock { name: String::from_str("viewsettings"), key_values, blocks: Vec::new() };
        assert(r.kv() =~= view_settings_kv(self));
        assert(kv_order(r.key_values) =~= view_settings_keys());
        r
    }

    /// The text form at depth `indent_level`.
    pub fn to_vmf_string(&self, indent_level: usize) -> (r: String)
        ensures
            r@ == view_settings_text(*self, indent_level as nat),
    {
        let indent = indent_string(indent_level);
        let mut output = String::new();
        push_block_open(&mut output, indent.as_str(), "viewsettings");
        push_kv_line(&mut output, indent.as_str(), "bSnapToGrid", to_01_string(self.snap_to_grid).as_str());
        push_kv_line(&mut output, indent.as_str(), "bShowGrid", to_01_string(self.show_grid).as_str());
        push_kv_line(&mut output, indent.as_str(), "bShowLogicalGrid", to_01_string(self.show_logical_grid).as_str());
        push_kv_line(&mut output, indent.as_str(), "nGridSpacing", u16_text(self.grid_spacing).as_str());
        push_kv_line(&mut output, indent.as_str(), "bShow3DGrid", to_01_string(self.show_3d_grid).as_str());
        push_block_close(&mut output, indent.as_str());
        output
    }
}

/// Decoding what view settings encode to gives those view settings back.
pub proof fn lemma_view_settings_round_trip(v: ViewSettings)
    ensures
        view_settings_of(view_settings_kv(v)) == Ok::<ViewSettings, VmfErrorView>(v),
{
    lemma_view_settings_keys();
    lemma_u16_text_round_trip(v.grid_spacing);
    lemma_bool_text_round_trip(v.snap_to_grid);
    lemma_bool_text_round_trip(v.show_grid);
    lemma_bool_text_round_trip(v.show_logical_grid);
    lemma_bool_text_round_trip(v.show_3d_grid);
}

/// The keys that view settings cannot be decoded without, in the order read.
pub open spec fn view_settings_required_keys() -> Seq<Seq<char>> {
    seq!["bSnapToGrid"@, "bShowGrid"@, "bShowLogicalGrid"@]
}

/// A viewsettings block without one of its required keys fails to decode;
/// where the other required keys are there, the failure is `MissingKey` for
/// that key.
pub proof fn lemma_view_settings_missing_key(kv: Map<Seq<char>, Seq<char>>, k: Seq<char>)
    requires
        view_settings_required_keys().contains(k),
        !kv.contains_key(k),
    ensures
        view_settings_of(kv) is Err,
        (forall|j: int|
            0 <= j < 3 && view_settings_required_keys()[j] != k ==> kv.contains_key(
                #[trigger] view_settings_required_keys()[j],
            )) ==> view_settings_of(kv) == Err::<ViewSettings, VmfErrorView>(
            VmfErrorView::MissingKey(k),
        ),
{
    lemma_view_settings_keys();
    let keys = view_settings_required_keys();
    let i = choose|i: int| 0 <= i < keys.len() && keys[i] == k;
    if (forall|j: int| 0 <= j < 3 && keys[j] != k ==> kv.contains_key(#[trigger] keys[j])) {
        assert(kv.contains_key(keys[0]) || i == 0);
        assert(kv.contains_key(keys[1]) || i == 1);
        assert(kv.contains_key(keys[2]) || i == 2);
    }
}

/// With the required keys there, decoding succeeds whatever the optional
/// keys hold: an absent or unreadable grid spacing gives 64, an absent 3D
/// grid flag gives false, and each flag is true exactly when its raw value
/// is the text `1`.
pub proof fn lemma_view_settings_optional_fallback(kv: Map<Seq<char>, Seq<char>>)
    requires
        kv.contains_key("bSnapToGrid"@),
        kv.contains_key("bShowGrid"@),
        kv.contains_key("bShowLogicalGrid"@),
    ensures
        view_settings_of(kv) is Ok,
        u16_field(kv, "nGridSpacing"@) is Err ==> view_settings_of(kv)->Ok_0.grid_spacing == 64,
        !kv.contains_key("nGridSpacing"@) ==> view_settings_of(kv)->Ok_0.grid_spacing == 64,
        !kv.contains_key("bShow3DGrid"@) ==> !view_settings_of(kv)->Ok_0.show_3d_grid,
        view_settings_of(kv)->Ok_0.snap_to_grid == (kv["bSnapToGrid"@] == seq!['1']),
        view_settings_of(kv)->Ok_0.show_grid == (kv["bShowGrid"@] == seq!['1']),
        view_settings_of(kv)->Ok_0.show_logical_grid == (kv["bShowLogicalGrid"@] == seq!['1']),
        kv.contains_key("bShow3DGrid"@) ==> view_settings_of(kv)->Ok_0.show_3d_grid == (
        kv["bShow3DGrid"@] == seq!['1']),
{
}

} // verus!
