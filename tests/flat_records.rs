use indexmap::IndexMap;
use vmf_metadata::{VersionInfo, ViewSettings, VmfBlock, VmfError};

fn block(name: &str, pairs: &[(&str, &str)]) -> VmfBlock {
    let mut key_values = IndexMap::new();
    for (k, v) in pairs {
        key_values.insert(k.to_string(), v.to_string());
    }
    VmfBlock { name: name.to_string(), key_values, blocks: Vec::new() }
}

fn version_block(prefab: &str) -> VmfBlock {
    block(
        "versioninfo",
        &[
            ("editorversion", "400"),
            ("editorbuild", "8973"),
            ("mapversion", "12"),
            ("formatversion", "100"),
            ("prefab", prefab),
        ],
    )
}

#[test]
fn version_info_decodes_all_fields() {
    let v = VersionInfo::try_from_block(version_block("1")).unwrap();
    assert_eq!(
        v,
        VersionInfo {
            editor_version: 400,
            editor_build: 8973,
            map_version: 12,
            format_version: 100,
            prefab: true,
        }
    );
}

#[test]
fn version_info_round_trip() {
    let v = VersionInfo {
        editor_version: -7,
        editor_build: i32::MAX,
        map_version: i32::MIN,
        format_version: 0,
        prefab: false,
    };
    let back = VersionInfo::try_from_block(v.into_block()).unwrap();
    assert_eq!(back, v);
}

#[test]
fn version_info_encodes_keys_in_order() {
    let v = VersionInfo {
        editor_version: 400,
        editor_build: -3,
        map_version: 1,
        format_version: 100,
        prefab: true,
    };
    let b = v.into_block();
    assert_eq!(b.name, "versioninfo");
    assert!(b.blocks.is_empty());
    let pairs: Vec<(String, String)> =
        b.key_values.iter().map(|(k, v)| (k.clone(), v.clone())).collect();
    let expected: Vec<(String, String)> = vec![
        ("editorversion".to_string(), "400".to_string()),
        ("editorbuild".to_string(), "-3".to_string()),
        ("mapversion".to_string(), "1".to_string()),
        ("formatversion".to_string(), "100".to_string()),
        ("prefab".to_string(), "1".to_string()),
    ];
    assert_eq!(pairs, expected);
}

#[test]
fn version_info_missing_first_key() {
    let b = block(
        "versioninfo",
        &[("editorbuild", "1"), ("mapversion", "2"), ("formatversion", "3"), ("prefab", "0")],
    );
    assert_eq!(
        VersionInfo::try_from_block(b),
        Err(VmfError::MissingKey("editorversion".to_string()))
    );
}

#[test]
fn version_info_missing_prefab() {
    let b = block(
        "versioninfo",
        &[("editorversion", "1"), ("editorbuild", "1"), ("mapversion", "2"), ("formatversion", "3")],
    );
    assert_eq!(VersionInfo::try_from_block(b), Err(VmfError::MissingKey("prefab".to_string())));
}

#[test]
fn version_info_parse_error_carries_raw_value() {
    let b = block(
        "versioninfo",
        &[
            ("editorversion", "400"),
            ("editorbuild", "abc"),
            ("mapversion", "2"),
            ("formatversion", "3"),
            ("prefab", "0"),
        ],
    );
    assert_eq!(
        VersionInfo::try_from_block(b),
        Err(VmfError::ParseError("editorbuild".to_string(), "abc".to_string()))
    );
}

#[test]
fn version_info_number_out_of_range_is_parse_error() {
    let b = block(
        "versioninfo",
        &[
            ("editorversion", "2147483648"),
            ("editorbuild", "1"),
            ("mapversion", "2"),
            ("formatversion", "3"),
            ("prefab", "0"),
        ],
    );
    assert_eq!(
        VersionInfo::try_from_block(b),
        Err(VmfError::ParseError("editorversion".to_string(), "2147483648".to_string()))
    );
}

#[test]
fn version_info_accepts_plus_sign() {
    let b = block(
        "versioninfo",
        &[
            ("editorversion", "+7"),
            ("editorbuild", "-0"),
            ("mapversion", "007"),
            ("formatversion", "3"),
            ("prefab", "1"),
        ],
    );
    let v = VersionInfo::try_from_block(b).unwrap();
    assert_eq!(v.editor_version, 7);
    assert_eq!(v.editor_build, 0);
    assert_eq!(v.map_version, 7);
}

#[test]
fn boolean_is_true_only_for_one() {
    for raw in ["0", "true", "", "01", " 1", "yes"] {
        let v = VersionInfo::try_from_block(version_block(raw)).unwrap();
        assert!(!v.prefab, "raw value {:?}", raw);
    }
    assert!(VersionInfo::try_from_block(version_block("1")).unwrap().prefab);
}

#[test]
fn version_info_text() {
    let v = VersionInfo {
        editor_version: 400,
        editor_build: 8973,
        map_version: 1,
        format_version: 100,
        prefab: false,
    };
    let expected = "\tversioninfo\n\t{\n\t\t\"editorversion\" \"400\"\n\t\t\"editorbuild\" \"8973\"\n\t\t\"mapversion\" \"1\"\n\t\t\"formatversion\" \"100\"\n\t\t\"prefab\" \"0\"\n\t}\n";
    assert_eq!(v.to_vmf_string(1), expected);
    assert_eq!(v.to_vmf_string(1), v.to_vmf_string(1));
}

fn view_block(pairs: &[(&str, &str)]) -> VmfBlock {
    block("viewsettings", pairs)
}

#[test]
fn view_settings_decodes_all_fields() {
    let b = view_block(&[
        ("bSnapToGrid", "1"),
        ("bShowGrid", "0"),
        ("bShowLogicalGrid", "1"),
        ("nGridSpacing", "16"),
        ("bShow3DGrid", "1"),
    ]);
    assert_eq!(
        ViewSettings::try_from_block(b).unwrap(),
        ViewSettings {
            snap_to_grid: true,
            show_grid: false,
            show_logical_grid: true,
            grid_spacing: 16,
            show_3d_grid: true,
        }
    );
}

#[test]
fn view_settings_optional_keys_fall_back() {
    let b = view_block(&[("bSnapToGrid", "1"), ("bShowGrid", "1"), ("bShowLogicalGrid", "0")]);
    let v = ViewSettings::try_from_block(b).unwrap();
    assert_eq!(v.grid_spacing, 64);
    assert!(!v.show_3d_grid);
}

#[test]
fn view_settings_unreadable_spacing_falls_back() {
    for raw in ["abc", "70000", "-1", ""] {
        let b = view_block(&[
            ("bSnapToGrid", "1"),
            ("bShowGrid", "1"),
            ("bShowLogicalGrid", "0"),
            ("nGridSpacing", raw),
        ]);
        assert_eq!(ViewSettings::try_from_block(b).unwrap().grid_spacing, 64, "raw {:?}", raw);
    }
}

#[test]
fn view_settings_missing_required_flag() {
    let b = view_block(&[("bSnapToGrid", "1"), ("bShowLogicalGrid", "0"), ("nGridSpacing", "8")]);
    assert_eq!(
        ViewSettings::try_from_block(b),
        Err(VmfError::MissingKey("bShowGrid".to_string()))
    );
}

#[test]
fn view_settings_round_trip() {
    let v = ViewSettings {
        snap_to_grid: false,
        show_grid: true,
        show_logical_grid: false,
        grid_spacing: 65535,
        show_3d_grid: true,
    };
    assert_eq!(ViewSettings::try_from_block(v.into_block()).unwrap(), v);
}

#[test]
fn view_settings_default_values() {
    let v = ViewSettings::default();
    assert!(v.snap_to_grid);
    assert!(v.show_grid);
    assert!(!v.show_logical_grid);
    assert_eq!(v.grid_spacing, 8);
    assert!(!v.show_3d_grid);
}

#[test]
fn view_settings_text() {
    let v = ViewSettings {
        snap_to_grid: true,
        show_grid: true,
        show_logical_grid: false,
        grid_spacing: 64,
        show_3d_grid: false,
    };
    let expected = "viewsettings\n{\n\t\"bSnapToGrid\" \"1\"\n\t\"bShowGrid\" \"1\"\n\t\"bShowLogicalGrid\" \"0\"\n\t\"nGridSpacing\" \"64\"\n\t\"bShow3DGrid\" \"0\"\n}\n";
    assert_eq!(v.to_vmf_string(0), expected);
}
