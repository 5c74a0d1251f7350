use last_legend_dob::sqpath::{Expansion, FileType, SqPackNumber, SqPath, SqPathBuf};

#[test]
fn basic_sqpath() {
    let iref = SqPath::new("asdasd");
    assert_eq!(iref.as_str(), "asdasd");
}

#[test]
fn sqpath_as_refs() {
    let a: SqPath = SqPath::new("uwu");
    let s = String::from("uwu");
    let b: SqPath = SqPath::new(&s);
    let sqpb = SqPathBuf::new("uwu");
    let c: &SqPath = sqpb.as_sq_path();
    assert_eq!(a.as_str(), "uwu");
    assert_eq!(b.as_str(), "uwu");
    assert_eq!(c.as_str(), "uwu");
}

#[test]
fn basic_sqpathbuf() {
    let sqpb = SqPathBuf::new("uwu");
    assert_eq!(sqpb.as_str(), "uwu");
}

#[test]
fn new_params_any() {
    SqPathBuf::new("uwu");
    let s = String::from("uwu");
    SqPathBuf::new(&s);
}

#[test]
fn sq_index_path() {
    let sq_path = SqPath::new("music/ffxiv");
    let sq_index_path = sq_path.sq_index_hash();
    assert_eq!(sq_index_path, 0x0AF269D6);

    let sq_path = SqPath::new("BGM_System_Title.scd");
    let sq_index_path = sq_path.sq_index_hash();
    assert_eq!(sq_index_path, 0xE3B71579);

    let sq_pathbuf: SqPathBuf = sq_path.to_owned();
    let sq_index_path = sq_pathbuf.sq_index_hash();
    assert_eq!(sq_index_path, 0xE3B71579);
}

#[test]
fn to_owned_and_borrow() {
    let sqpath = SqPath::new("uwu");
    let a: SqPathBuf = sqpath.to_owned();
    assert_eq!(a.as_str(), sqpath.as_str());

    let x: &SqPath = a.as_sq_path();
    assert_eq!(x.as_str(), a.as_str());
}

#[test]
fn file_type_parse() {
    let sqpath = SqPath::new("music/ffxiv/BGM_System_Title.scd");
    let ftype = FileType::parse_from_sqpath(&sqpath);
    assert!(ftype.is_some());
    assert_eq!(ftype.unwrap(), FileType::Music);

    let sqpath = SqPath::new("exd/ffxiv/root.exl");
    let ftype = FileType::parse_from_sqpath(&sqpath);
    assert!(ftype.is_some());
    assert_eq!(ftype.unwrap(), FileType::EXD);
}

#[test]
fn file_type_index_fragment() {
    assert_eq!(FileType::Common.file_name_prefix_bytes(), *b"00");
    assert_eq!(FileType::BGCommon.file_name_prefix_bytes(), *b"01");
    assert_eq!(FileType::BG.file_name_prefix_bytes(), *b"02");
    assert_eq!(FileType::Cut.file_name_prefix_bytes(), *b"03");
    assert_eq!(FileType::Chara.file_name_prefix_bytes(), *b"04");
    assert_eq!(FileType::Shader.file_name_prefix_bytes(), *b"05");
    assert_eq!(FileType::UI.file_name_prefix_bytes(), *b"06");
    assert_eq!(FileType::Sound.file_name_prefix_bytes(), *b"07");
    assert_eq!(FileType::VFX.file_name_prefix_bytes(), *b"08");
    assert_eq!(FileType::UIScript.file_name_prefix_bytes(), *b"09");
    assert_eq!(FileType::EXD.file_name_prefix_bytes(), *b"0a");
    assert_eq!(FileType::GameScript.file_name_prefix_bytes(), *b"0b");
    assert_eq!(FileType::Music.file_name_prefix_bytes(), *b"0c");
    assert_eq!(FileType::SqpackTest.file_name_prefix_bytes(), *b"12");
    assert_eq!(FileType::Debug.file_name_prefix_bytes(), *b"13");
}

#[test]
fn file_type_parse_and_as_str_eq() {
    assert_eq!(
        FileType::parse_from_sqpath(&SqPath::new("common/ffxiv/asdfdfh"))
            .unwrap()
            .as_str(),
        "common"
    );
    assert_eq!(
        FileType::parse_from_sqpath(&SqPath::new("bgcommon/ex1/asdfdfh"))
            .unwrap()
            .as_str(),
        "bgcommon"
    );
    assert_eq!(
        FileType::parse_from_sqpath(&SqPath::new("bg/ex2/asdfdfh"))
            .unwrap()
            .as_str(),
        "bg"
    );
    assert_eq!(
        FileType::parse_from_sqpath(&SqPath::new("cut/ex3/dfsdfg"))
            .unwrap()
            .as_str(),
        "cut"
    );
    assert_eq!(
        FileType::parse_from_sqpath(&SqPath::new("chara/ffxiv/sdfgdfs"))
            .unwrap()
            .as_str(),
        "chara"
    );
    assert_eq!(
        FileType::parse_from_sqpath(&SqPath::new("shader/ffxiv/fdgsdgs"))
            .unwrap()
            .as_str(),
        "shader"
    );
    assert_eq!(
        FileType::parse_from_sqpath(&SqPath::new("ui/ex3/srdsfvr"))
            .unwrap()
            .as_str(),
        "ui"
    );
    assert_eq!(
        FileType::parse_from_sqpath(&SqPath::new("sound/ffxiv/sdfgdfg"))
            .unwrap()
            .as_str(),
        "sound"
    );
    assert_eq!(
        FileType::parse_from_sqpath(&SqPath::new("vfx/ffxiv/sdfdfg"))
            .unwrap()
            .as_str(),
        "vfx"
    );
    assert_eq!(
        FileType::parse_from_sqpath(&SqPath::new("ui_script/ffxiv/sdfsdf"))
            .unwrap()
            .as_str(),
        "ui_script"
    );
    assert_eq!(
        FileType::parse_from_sqpath(&SqPath::new("exd/ffxiv/sdfdsfg"))
            .unwrap()
            .as_str(),
        "exd"
    );
    assert_eq!(
        FileType::parse_from_sqpath(&SqPath::new("game_script/ffxiv/sdfdsfg"))
            .unwrap()
            .as_str(),
        "game_script"
    );
    assert_eq!(
        FileType::parse_from_sqpath(&SqPath::new("music/ffxiv/sdfdsfg"))
            .unwrap()
            .as_str(),
        "music"
    );
    assert_eq!(
        FileType::parse_from_sqpath(&SqPath::new("_sqpack_test/ffxiv/sdfdsfg"))
            .unwrap()
            .as_str(),
        "_sqpack_test"
    );
    assert_eq!(
        FileType::parse_from_sqpath(&SqPath::new("_debug/ffxiv/sdfdsfg"))
            .unwrap()
            .as_str(),
        "_debug"
    );
}

#[test]
fn file_type_file_name_prefix() {
    assert_eq!(FileType::Common.file_name_prefix(), 0x00u8);
    assert_eq!(FileType::BGCommon.file_name_prefix(), 0x01u8);
    assert_eq!(FileType::BG.file_name_prefix(), 0x02u8);
    assert_eq!(FileType::Cut.file_name_prefix(), 0x03u8);
    assert_eq!(FileType::Chara.file_name_prefix(), 0x04u8);
    assert_eq!(FileType::Shader.file_name_prefix(), 0x05u8);
    assert_eq!(FileType::UI.file_name_prefix(), 0x06u8);
    assert_eq!(FileType::Sound.file_name_prefix(), 0x07u8);
    assert_eq!(FileType::VFX.file_name_prefix(), 0x08u8);
    assert_eq!(FileType::UIScript.file_name_prefix(), 0x09u8);
    assert_eq!(FileType::EXD.file_name_prefix(), 0x0au8);
    assert_eq!(FileType::GameScript.file_name_prefix(), 0x0bu8);
    assert_eq!(FileType::Music.file_name_prefix(), 0x0cu8);
    assert_eq!(FileType::SqpackTest.file_name_prefix(), 0x12u8);
    assert_eq!(FileType::Debug.file_name_prefix(), 0x13u8);
}

#[test]
fn expansion_parse() {
    let sqpath = SqPath::new("music/ffxiv/BGM_System_Title.scd");
    let exp = Expansion::parse_from_sqpath(&sqpath);
    assert!(exp.is_some());
    assert_eq!(exp.unwrap(), Expansion::FFXIV);

    let sqpath = SqPath::new("music/ex2/dfgdfgsdfg.scd");
    let exp = Expansion::parse_from_sqpath(&sqpath);
    assert!(exp.is_some());
    assert_eq!(exp.unwrap(), Expansion::Stormblood);
}

#[test]
fn expansion_index_fragment() {
    assert_eq!(Expansion::FFXIV.file_name_prefix_bytes(), *b"00");
    assert_eq!(Expansion::Heavensward.file_name_prefix_bytes(), *b"01");
    assert_eq!(Expansion::Stormblood.file_name_prefix_bytes(), *b"02");
    assert_eq!(Expansion::Shadowbringers.file_name_prefix_bytes(), *b"03");
}

#[test]
fn expansion_parse_and_as_str_eq() {
    assert_eq!(
        Expansion::parse_from_sqpath(&SqPath::new("common/ffxiv/dfgsdfg.asd"))
            .unwrap()
            .as_str(),
        "ffxiv"
    );
    assert_eq!(
        Expansion::parse_from_sqpath(&SqPath::new("bgcommon/ex1/asdasd.fgh"))
            .unwrap()
            .as_str(),
        "ex1"
    );
    assert_eq!(
        Expansion::parse_from_sqpath(&SqPath::new("bg/ex2/dfhdfgh.hhjg"))
            .unwrap()
            .as_str(),
        "ex2"
    );
    assert_eq!(
        Expansion::parse_from_sqpath(&SqPath::new("cut/ex3/dfghds.yss"))
            .unwrap()
            .as_str(),
        "ex3"
    );
    assert_eq!(
        Expansion::parse_from_sqpath(&SqPath::new("cut/ex3/165_dfghds.yss"))
            .unwrap()
            .as_str(),
        "ex3"
    );
}

#[test]
fn expansion_file_name_prefix() {
    assert_eq!(Expansion::FFXIV.file_name_prefix(), 0x00u8);
    assert_eq!(Expansion::Heavensward.file_name_prefix(), 0x01u8);
    assert_eq!(Expansion::Stormblood.file_name_prefix(), 0x02u8);
    assert_eq!(Expansion::Shadowbringers.file_name_prefix(), 0x03u8);
}

#[test]
fn parse_sqpack_number() {
    assert_eq!(
        SqPackNumber::parse_from_sqpath(&SqPath::new("common/ffxiv/sdfsfda.adasd"))
            .unwrap()
            .0,
        0
    );
    assert_eq!(
        SqPackNumber::parse_from_sqpath(&SqPath::new("common/ex2/001_sdfsfda.adasd"))
            .unwrap()
            .0,
        1
    );
    assert_eq!(
        SqPackNumber::parse_from_sqpath(&SqPath::new("common/ex2/00b_sdfsfda.adasd"))
            .unwrap()
            .0,
        11
    );
}

#[test]
fn sqpack_number_prefix() {
    assert_eq!(
        std::str::from_utf8(&SqPackNumber(0).file_name_prefix_bytes()).unwrap(),
        "00"
    );
    assert_eq!(
        std::str::from_utf8(&SqPackNumber(1).file_name_prefix_bytes()).unwrap(),
        "01"
    );
    assert_eq!(
        std::str::from_utf8(&SqPackNumber(10).file_name_prefix_bytes()).unwrap(),
        "0a"
    );
    assert_eq!(
        std::str::from_utf8(&SqPackNumber(16).file_name_prefix_bytes()).unwrap(),
        "10"
    );
    assert_eq!(
        std::str::from_utf8(&SqPackNumber(255).file_name_prefix_bytes()).unwrap(),
        "ff"
    );
}

#[test]
fn sqpack_index_path() {
    let index = SqPath::new("music/ffxiv/BGM_System_Title.scd")
        .sqpack_index_path("/home/uwu/ffxiv/sqpack/");
    let pb = index.unwrap();
    assert_eq!(pb, "/home/uwu/ffxiv/sqpack/ffxiv/0c0000.win32.index2");

    let path = "/home/uwu/ffxiv/sqpack";
    assert_eq!(
        SqPath::new("music/ex3/BGM_EX3_Event_05.scd")
            .sqpack_index_path(path)
            .unwrap(),
        "/home/uwu/ffxiv/sqpack/ex3/0c0300.win32.index2"
    );
    assert_eq!(
        SqPath::new("common/ex2/0fe_uwu.owo")
            .sqpack_index_path(path)
            .unwrap(),
        "/home/uwu/ffxiv/sqpack/ex2/0002fe.win32.index2"
    );
}

#[test]
fn hash_ignores_ascii_case() {
    let lower = SqPath::new("music/ffxiv/bgm_system_title.scd");
    let mixed = SqPath::new("MuSiC/FfXiV/BGM_System_Title.SCD");
    assert_eq!(lower.sq_index_hash(), mixed.sq_index_hash());
    assert_eq!(
        SqPath::new("music/ffxiv").sq_index_hash(),
        SqPath::new("MUSIC/FFXIV").sq_index_hash()
    );
}

#[test]
fn invalid_paths_resolve_to_nothing() {
    // An unknown category, an unknown expansion, and too few segments.
    assert!(SqPath::new("nonsense/ffxiv/a.scd").sqpack_index_path("/r").is_none());
    assert!(SqPath::new("music/ex9/a.scd").sqpack_index_path("/r").is_none());
    assert!(SqPath::new("music/ffxiv").sqpack_index_path("/r").is_none());
    assert!(SqPath::new("music").sqpack_index_path("/r").is_none());
}
