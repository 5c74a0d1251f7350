//! Logical paths into the archive: hashing, category/expansion parsing and
//! index-file path resolution.
use vstd::prelude::*;
use vstd::string::StrSliceExecFns;
use vstd::string::StringExecFns;
use vstd::utf8::{encode_utf8, encode_scalar, has_width_1_encoding};
use crate::strutil::{
    char_pos_from, char_pos_from_shift, find_char, find_char_between,
    lemma_char_pos_shift_subrange, str_eq, hex_byte_chars, hex_digit_ascii, push_hex_byte,
};

verus! {

/// A location within the archive's data files, such as
/// `music/ffxiv/BGM_System_Title.scd`.
#[derive(Debug)]
pub struct SqPath {
    inner: String,
}

/// An owned location within the archive's data files; the owned counterpart
/// of [`SqPath`].
#[derive(Debug)]
pub struct SqPathBuf {
    inner: SqPath,
}

impl View for SqPath {
    type V = Seq<char>;

    closed spec fn view(&self) -> Seq<char> {
        self.inner@
    }
}

impl View for SqPathBuf {
    type V = Seq<char>;

    closed spec fn view(&self) -> Seq<char> {
        self.inner@
    }
}

impl SqPath {
    /// Creates a new SqPath holding the given characters.
    pub fn new(s: &str) -> (r: SqPath)
        ensures
            r@ == s@,
    {
        SqPath { inner: String::from_str(s) }
    }

    /// Returns this path as a reference to a string.
    pub fn as_str(&self) -> (r: &str)
        ensures
            r@ == self@,
    {
        self.inner.as_str()
    }

    /// Copies this path into its owned counterpart.
    pub fn to_owned(&self) -> (r: SqPathBuf)
        ensures
            r@ == self@,
    {
        SqPathBuf { inner: SqPath { inner: self.inner.clone() } }
    }
}

impl SqPathBuf {
    /// Creates a new owned path holding the given characters.
    pub fn new(s: &str) -> (r: SqPathBuf)
        ensures
            r@ == s@,
    {
        SqPathBuf { inner: SqPath::new(s) }
    }

    /// Borrows this owned path as a [`SqPath`].
    pub fn as_sq_path(&self) -> (r: &SqPath)
        ensures
            r@ == self@,
    {
        &self.inner
    }

    /// Returns this path as a reference to a string.
    pub fn as_str(&self) -> (r: &str)
        ensures
            r@ == self@,
    {
        self.inner.as_str()
    }

    /// Copies this owned path.
    pub fn to_owned(&self) -> (r: SqPathBuf)
        ensures
            r@ == self@,
    {
        self.inner.to_owned()
    }
}

/// The category of a path: the index file it can be found in. Each category
/// is named by the first path segment and carries a one-byte code.
#[derive(Copy, Clone, Eq, PartialEq, Structural, Debug, Hash)]
pub enum FileType {
    Common,
    BGCommon,
    BG,
    Cut,
    Chara,
    Shader,
    UI,
    Sound,
    VFX,
    UIScript,
    EXD,
    GameScript,
    Music,
    SqpackTest,
    Debug,
}

/// The game expansion a file belongs to, named by the second path segment.
#[derive(Copy, Clone, Eq, PartialEq, Structural, Debug, Hash)]
pub enum Expansion {
    FFXIV,
    Heavensward,
    Stormblood,
    Shadowbringers,
    Endwalker,
}

/// The numerical index of the specific index/dat file, parsed from an
/// optional hex prefix of the third path segment.
#[derive(Copy, Clone, Eq, PartialEq, Structural, Debug)]
pub struct SqPackNumber(pub u8);

/// The first path segment, up to the first `/`; nothing when the path has
/// no `/` at all.
pub open spec fn spec_first_seg(s: Seq<char>) -> Option<Seq<char>> {
    match char_pos_from(s, '/', 0) {
        Some(i) => Some(s.take(i)),
        None => None,
    }
}

/// The second path segment: between the first `/` and the second, or the
/// rest of the path when there is no second `/`.
pub open spec fn spec_second_seg(s: Seq<char>) -> Option<Seq<char>> {
    match char_pos_from(s, '/', 0) {
        None => None,
        Some(i) => match char_pos_from(s, '/', i + 1) {
            None => Some(s.skip(i + 1)),
            Some(j) => Some(s.subrange(i + 1, j)),
        },
    }
}

/// The third path segment, present only when the path has at least two `/`.
pub open spec fn spec_third_seg(s: Seq<char>) -> Option<Seq<char>> {
    match char_pos_from(s, '/', 0) {
        None => None,
        Some(i) => match char_pos_from(s, '/', i + 1) {
            None => None,
            Some(j) => match char_pos_from(s, '/', j + 1) {
                None => Some(s.skip(j + 1)),
                Some(k) => Some(s.subrange(j + 1, k)),
            },
        },
    }
}

/// The category named by a first path segment.
pub open spec fn file_type_from_name(t: Seq<char>) -> Option<FileType> {
    if t == "common"@ {
        Some(FileType::Common)
    } else if t == "bgcommon"@ {
        Some(FileType::BGCommon)
    } else if t == "bg"@ {
        Some(FileType::BG)
    } else if t == "cut"@ {
        Some(FileType::Cut)
    } else if t == "chara"@ {
        Some(FileType::Chara)
    } else if t == "shader"@ {
        Some(FileType::Shader)
    } else if t == "ui"@ {
        Some(FileType::UI)
    } else if t == "sound"@ {
        Some(FileType::Sound)
    } else if t == "vfx"@ {
        Some(FileType::VFX)
    } else if t == "ui_script"@ {
        Some(FileType::UIScript)
    } else if t == "exd"@ {
        Some(FileType::EXD)
    } else if t == "game_script"@ {
        Some(FileType::GameScript)
    } else if t == "music"@ {
        Some(FileType::Music)
    } else if t == "_sqpack_test"@ {
        Some(FileType::SqpackTest)
    } else if t == "_debug"@ {
        Some(FileType::Debug)
    } else {
        None
    }
}

/// The category implied by the first segment of a path.
pub open spec fn spec_parse_file_type(s: Seq<char>) -> Option<FileType> {
    match spec_first_seg(s) {
        Some(t) => file_type_from_name(t),
        None => None,
    }
}

/// The expansion named by a second path segment.
pub open spec fn expansion_from_name(t: Seq<char>) -> Option<Expansion> {
    if t == "ffxiv"@ {
        Some(Expansion::FFXIV)
    } else if t == "ex1"@ {
        Some(Expansion::Heavensward)
    } else if t == "ex2"@ {
        Some(Expansion::Stormblood)
    } else if t == "ex3"@ {
        Some(Expansion::Shadowbringers)
    } else if t == "ex4"@ {
        Some(Expansion::Endwalker)
    } else {
        None
    }
}

/// The expansion implied by the second segment of a path.
pub open spec fn spec_parse_expansion(s: Seq<char>) -> Option<Expansion> {
    match spec_second_seg(s) {
        Some(t) => expansion_from_name(t),
        None => None,
    }
}

/// The name of a category, as it stands in a path.
pub open spec fn file_type_name(ft: FileType) -> Seq<char> {
    match ft {
        FileType::Common => "common"@,
        FileType::BGCommon => "bgcommon"@,
        FileType::BG => "bg"@,
        FileType::Cut => "cut"@,
        FileType::Chara => "chara"@,
        FileType::Shader => "shader"@,
        FileType::UI => "ui"@,
        FileType::Sound => "sound"@,
        FileType::VFX => "vfx"@,
        FileType::UIScript => "ui_script"@,
        FileType::EXD => "exd"@,
        FileType::GameScript => "game_script"@,
        FileType::Music => "music"@,
        FileType::SqpackTest => "_sqpack_test"@,
        FileType::Debug => "_debug"@,
    }
}

/// The one-byte code of a category.
pub open spec fn file_type_code(ft: FileType) -> u8 {
    match ft {
        FileType::Common => 0x00,
        FileType::BGCommon => 0x01,
        FileType::BG => 0x02,
        FileType::Cut => 0x03,
        FileType::Chara => 0x04,
        FileType::Shader => 0x05,
        FileType::UI => 0x06,
        FileType::Sound => 0x07,
        FileType::VFX => 0x08,
        FileType::UIScript => 0x09,
        FileType::EXD => 0x0a,
        FileType::GameScript => 0x0b,
        FileType::Music => 0x0c,
        FileType::SqpackTest => 0x12,
        FileType::Debug => 0x13,
    }
}

/// The name of an expansion, as it stands in a path.
pub open spec fn expansion_name(e: Expansion) -> Seq<char> {
    match e {
        Expansion::FFXIV => "ffxiv"@,
        Expansion::Heavensward => "ex1"@,
        Expansion::Stormblood => "ex2"@,
        Expansion::Shadowbringers => "ex3"@,
        Expansion::Endwalker => "ex4"@,
    }
}

/// The one-byte code of an expansion.
pub open spec fn expansion_code(e: Expansion) -> u8 {
    match e {
        Expansion::FFXIV => 0x00,
        Expansion::Heavensward => 0x01,
        Expansion::Stormblood => 0x02,
        Expansion::Shadowbringers => 0x03,
        Expansion::Endwalker => 0x04,
    }
}

/// The numeric value of one hex digit character, upper or lower case.
pub open spec fn hex_val(c: char) -> Option<u8> {
    let u = c as u32;
    if 0x30 <= u <= 0x39 {
        Some((u - 0x30) as u8)
    } else if 0x61 <= u <= 0x66 {
        Some((u - 0x61 + 10) as u8)
    } else if 0x41 <= u <= 0x46 {
        Some((u - 0x41 + 10) as u8)
    } else {
        None
    }
}

/// Fold hex digits left to right onto `acc`; nothing on a bad digit or
/// when the value outgrows one byte.
pub open spec fn fold_hex_u8(s: Seq<char>, acc: int) -> Option<int>
    decreases s.len(),
{
    if s.len() == 0 {
        Some(acc)
    } else {
        match hex_val(s[0]) {
            None => None,
            Some(d) => if acc * 16 + d > 255 {
                None
            } else {
                fold_hex_u8(s.drop_first(), acc * 16 + d)
            },
        }
    }
}

/// A one-byte hex number parsed as `u8::from_str_radix(s, 16)` parses it:
/// an optional leading `+`, then at least one hex digit, value at most 255.
pub open spec fn spec_parse_hex_u8(s: Seq<char>) -> Option<u8> {
    let digits = if s.len() > 0 && s[0] == '+' {
        s.drop_first()
    } else {
        s
    };
    if digits.len() == 0 {
        None
    } else {
        match fold_hex_u8(digits, 0) {
            Some(v) => Some(v as u8),
            None => None,
        }
    }
}

/// What a hex parse returns once folding the remaining `digits` onto `acc`
/// decides it.
pub open spec fn fold_result(digits: Seq<char>, acc: int) -> Option<u8> {
    match fold_hex_u8(digits, acc) {
        Some(v) => Some(v as u8),
        None => None,
    }
}

/// The pack number implied by the third segment of a path: its leading
/// part up to the first `_`, read as hex, or zero when that fails.
pub open spec fn spec_parse_sqpack_number(s: Seq<char>) -> Option<SqPackNumber> {
    match spec_third_seg(s) {
        None => None,
        Some(t) => {
            let part = match char_pos_from(t, '_', 0) {
                Some(u) => t.take(u),
                None => t,
            };
            match spec_parse_hex_u8(part) {
                Some(v) => Some(SqPackNumber(v)),
                None => Some(SqPackNumber(0)),
            }
        },
    }
}

/// Parse the leading hex byte of the characters of `s` between `from` and
/// `to`, as [`spec_parse_hex_u8`] describes.
fn parse_hex_u8(s: &str, from: usize, to: usize) -> (r: Option<u8>)
    requires
        from <= to <= s@.len(),
    ensures
        r == spec_parse_hex_u8(s@.subrange(from as int, to as int)),
{
    let ghost whole = s@.subrange(from as int, to as int);
    let mut i: usize = from;
    if i < to && s.get_char(i) == '+' {
        i = i + 1;
        proof {
            assert(whole[0] == '+');
        }
    }
    let ghost digits = s@.subrange(i as int, to as int);
    proof {
        if whole.len() > 0 && whole[0] == '+' {
            assert(digits =~= whole.drop_first());
        } else {
            assert(digits =~= whole);
        }
    }
    if i == to {
        return None;
    }
    let mut acc: u32 = 0;
    proof {
        assert(spec_parse_hex_u8(whole) == fold_result(digits, 0));
    }
    while i < to
        invariant
            from <= i <= to <= s@.len(),
            acc <= 255,
            spec_parse_hex_u8(s@.subrange(from as int, to as int)) == fold_result(
                s@.subrange(i as int, to as int),
                acc as int,
            ),
        decreases to - i,
    {
        let ghost rest = s@.subrange(i as int, to as int);
        let c = s.get_char(i);
        proof {
            assert(rest[0] == c);
            assert(rest.drop_first() =~= s@.subrange(i as int + 1, to as int));
        }
        let u = c as u32;
        let d: u32 = if 0x30 <= u && u <= 0x39 {
            u - 0x30
        } else if 0x61 <= u && u <= 0x66 {
            u - 0x61 + 10
        } else if 0x41 <= u && u <= 0x46 {
            u - 0x41 + 10
        } else {
            proof {
                assert(hex_val(c) is None);
                assert(fold_hex_u8(rest, acc as int) is None);
            }
            return None;
        };
        proof {
            assert(hex_val(c) == Some(d as u8));
        }
        if acc * 16 + d > 255 {
            proof {
                assert(fold_hex_u8(rest, acc as int) is None);
            }
            return None;
        }
        acc = acc * 16 + d;
        i = i + 1;
    }
    proof {
        assert(s@.subrange(to as int, to as int) =~= Seq::<char>::empty());
    }
    Some(acc as u8)
}

impl FileType {
    /// Parses the category implied by the first segment of `sqpath`.
    pub fn parse_from_sqpath(sqpath: &SqPath) -> (r: Option<FileType>)
        ensures
            r == spec_parse_file_type(sqpath@),
    {
        let s = sqpath.as_str();
        match find_char(s, '/', 0) {
            None => None,
            Some(i) => {
                let seg = s.substring_char(0, i);
                proof {
                    assert(seg@ =~= sqpath@.take(
                        char_pos_from(sqpath@, '/', 0)->0,
                    ));
                }
                if str_eq(seg, "common") {
                    Some(FileType::Common)
                } else if str_eq(seg, "bgcommon") {
                    Some(FileType::BGCommon)
                } else if str_eq(seg, "bg") {
                    Some(FileType::BG)
                } else if str_eq(seg, "cut") {
                    Some(FileType::Cut)
                } else if str_eq(seg, "chara") {
                    Some(FileType::Chara)
                } else if str_eq(seg, "shader") {
                    Some(FileType::Shader)
                } else if str_eq(seg, "ui") {
                    Some(FileType::UI)
                } else if str_eq(seg, "sound") {
                    Some(FileType::Sound)
                } else if str_eq(seg, "vfx") {
                    Some(FileType::VFX)
                } else if str_eq(seg, "ui_script") {
                    Some(FileType::UIScript)
                } else if str_eq(seg, "exd") {
                    Some(FileType::EXD)
                } else if str_eq(seg, "game_script") {
                    Some(FileType::GameScript)
                } else if str_eq(seg, "music") {
                    Some(FileType::Music)
                } else if str_eq(seg, "_sqpack_test") {
                    Some(FileType::SqpackTest)
                } else if str_eq(seg, "_debug") {
                    Some(FileType::Debug)
                } else {
                    None
                }
            },
        }
    }

    /// The two lowercase hex characters of this category's code, as ASCII
    /// bytes; index and dat file names begin with them.
    pub fn file_name_prefix_bytes(&self) -> (r: [u8; 2])
        ensures
            r@ == seq![
                hex_digit_ascii(file_type_code(*self) as int / 16),
                hex_digit_ascii(file_type_code(*self) as int % 16),
            ],
    {
        hex_ascii_pair(self.file_name_prefix())
    }

    /// The one-byte code of this category.
    pub fn file_name_prefix(&self) -> (r: u8)
        ensures
            r == file_type_code(*self),
    {
        match self {
            FileType::Common => 0x00,
            FileType::BGCommon => 0x01,
            FileType::BG => 0x02,
            FileType::Cut => 0x03,
            FileType::Chara => 0x04,
            FileType::Shader => 0x05,
            FileType::UI => 0x06,
            FileType::Sound => 0x07,
            FileType::VFX => 0x08,
            FileType::UIScript => 0x09,
            FileType::EXD => 0x0a,
            FileType::GameScript => 0x0b,
            FileType::Music => 0x0c,
            FileType::SqpackTest => 0x12,
            FileType::Debug => 0x13,
        }
    }

    /// The name of this category, as it stands in a path.
    pub fn as_str(&self) -> (r: &'static str)
        ensures
            r@ == file_type_name(*self),
    {
        match self {
            FileType::Common => "common",
            FileType::BGCommon => "bgcommon",
            FileType::BG => "bg",
            FileType::Cut => "cut",
            FileType::Chara => "chara",
            FileType::Shader => "shader",
            FileType::UI => "ui",
            FileType::Sound => "sound",
            FileType::VFX => "vfx",
            FileType::UIScript => "ui_script",
            FileType::EXD => "exd",
            FileType::GameScript => "game_script",
            FileType::Music => "music",
            FileType::SqpackTest => "_sqpack_test",
            FileType::Debug => "_debug",
        }
    }
}

impl Expansion {
    /// Parses the expansion implied by the second segment of `sqpath`.
    pub fn parse_from_sqpath(sqpath: &SqPath) -> (r: Option<Expansion>)
        ensures
            r == spec_parse_expansion(sqpath@),
    {
        let s = sqpath.as_str();
        let n = s.unicode_len();
        let i = match find_char(s, '/', 0) {
            None => {
                return None;
            },
            Some(i) => i,
        };
        let seg = match find_char(s, '/', i + 1) {
            None => {
                let g = s.substring_char(i + 1, n);
                proof {
                    assert(g@ =~= s@.skip(i + 1));
                }
                g
            },
            Some(j) => s.substring_char(i + 1, j),
        };
        proof {
            assert(spec_second_seg(s@) == Some(seg@));
        }
        if str_eq(seg, "ffxiv") {
            Some(Expansion::FFXIV)
        } else if str_eq(seg, "ex1") {
            Some(Expansion::Heavensward)
        } else if str_eq(seg, "ex2") {
            Some(Expansion::Stormblood)
        } else if str_eq(seg, "ex3") {
            Some(Expansion::Shadowbringers)
        } else if str_eq(seg, "ex4") {
            Some(Expansion::Endwalker)
        } else {
            None
        }
    }

    /// The two lowercase hex characters of this expansion's code, as ASCII
    /// bytes; they follow the category prefix in index and dat file names.
    pub fn file_name_prefix_bytes(&self) -> (r: [u8; 2])
        ensures
            r@ == seq![
                hex_digit_ascii(expansion_code(*self) as int / 16),
                hex_digit_ascii(expansion_code(*self) as int % 16),
            ],
    {
        hex_ascii_pair(self.file_name_prefix())
    }

    /// The one-byte code of this expansion.
    pub fn file_name_prefix(&self) -> (r: u8)
        ensures
            r == expansion_code(*self),
    {
        match self {
            Expansion::FFXIV => 0x00,
            Expansion::Heavensward => 0x01,
            Expansion::Stormblood => 0x02,
            Expansion::Shadowbringers => 0x03,
            Expansion::Endwalker => 0x04,
        }
    }

    /// The name of this expansion, as it stands in a path.
    pub fn as_str(&self) -> (r: &'static str)
        ensures
            r@ == expansion_name(*self),
    {
        match self {
            Expansion::FFXIV => "ffxiv",
            Expansion::Heavensward => "ex1",
            Expansion::Stormblood => "ex2",
            Expansion::Shadowbringers => "ex3",
            Expansion::Endwalker => "ex4",
        }
    }
}

impl SqPackNumber {
    /// Parses the pack number implied by the third segment of `sqpath`:
    /// its leading part up to the first `_`, read as one hex byte, or zero
    /// when that part is not a hex byte.
    pub fn parse_from_sqpath(sqpath: &SqPath) -> (r: Option<SqPackNumber>)
        ensures
            r == spec_parse_sqpack_number(sqpath@),
    {
        let s = sqpath.as_str();
        let n = s.unicode_len();
        let i = match find_char(s, '/', 0) {
            None => {
                return None;
            },
            Some(i) => i,
        };
        let j = match find_char(s, '/', i + 1) {
            None => {
                return None;
            },
            Some(j) => j,
        };
        let end = match find_char(s, '/', j + 1) {
            None => n,
            Some(k) => k,
        };
        let ghost t = spec_third_seg(s@)->0;
        proof {
            assert(t =~= s@.subrange(j + 1, end as int));
        }
        let part_end = match find_char_between(s, '_', j + 1, end) {
            None => end,
            Some(u) => u,
        };
        proof {
            lemma_char_pos_shift_subrange(s@, '_', j + 1, end as int, j + 1);
            match char_pos_from(t, '_', 0) {
                Some(u) => {
                    assert(t.take(u) =~= s@.subrange(j + 1, part_end as int));
                },
                None => {
                    assert(t =~= s@.subrange(j + 1, part_end as int));
                },
            }
        }
        let val = match parse_hex_u8(s, j + 1, part_end) {
            Some(v) => v,
            None => 0,
        };
        Some(SqPackNumber(val))
    }

    /// The two lowercase hex characters of this pack number, as ASCII
    /// bytes; they follow the expansion prefix in index and dat file names.
    pub fn file_name_prefix_bytes(&self) -> (r: [u8; 2])
        ensures
            r@ == seq![
                hex_digit_ascii(self.0 as int / 16),
                hex_digit_ascii(self.0 as int % 16),
            ],
    {
        hex_ascii_pair(self.0)
    }
}

/// The two lowercase ASCII hex digits of a byte.
fn hex_ascii_pair(b: u8) -> (r: [u8; 2])
    ensures
        r@ == seq![hex_digit_ascii(b as int / 16), hex_digit_ascii(b as int % 16)],
{
    let hi = b / 16;
    let lo = b % 16;
    let hb: u8 = if hi < 10 {
        0x30 + hi
    } else {
        0x61 + (hi - 10)
    };
    let lb: u8 = if lo < 10 {
        0x30 + lo
    } else {
        0x61 + (lo - 10)
    };
    let r = [hb, lb];
    proof {
        assert(r@ =~= seq![hex_digit_ascii(b as int / 16), hex_digit_ascii(b as int % 16)]);
    }
    r
}


/// The CRC-32/JAMCRC checksum of a byte sequence: reflected in and out,
/// polynomial 0x04C11DB7, initial value all ones, no final xor. Named, not
/// defined: an outside crate computes it.
pub uninterp spec fn crc32_jamcrc(data: Seq<u8>) -> u32;

/// Relies on crc's `Crc::<u32>::checksum` with the JAMCRC parameters: a
/// table-driven CRC-32, a pure function of the input bytes.
#[verifier::external_body]
fn crc32_jamcrc_checksum(data: &Vec<u8>) -> (r: u32)
    ensures
        r == crc32_jamcrc(data@),
{
    crc::Crc::<u32>::new(&crc::CRC_32_JAMCRC).checksum(data.as_slice())
}

/// A byte with an ASCII uppercase letter folded to lowercase.
pub open spec fn lower_byte(b: u8) -> u8 {
    if 0x41 <= b <= 0x5a {
        (b + 0x20) as u8
    } else {
        b
    }
}

/// The bytes of a sequence with ASCII uppercase letters folded to lowercase.
pub open spec fn ascii_lower_bytes(s: Seq<u8>) -> Seq<u8> {
    Seq::new(s.len(), |i: int| lower_byte(s[i]))
}

/// The index hash of a path: the CRC-32/JAMCRC of its UTF-8 bytes with
/// ASCII letters lowercased.
pub open spec fn sq_hash_of(path: Seq<char>) -> u32 {
    crc32_jamcrc(ascii_lower_bytes(encode_utf8(path)))
}

/// A character code with an ASCII uppercase letter folded to lowercase.
pub open spec fn lower_char_u32(c: char) -> u32 {
    let u = c as u32;
    if 0x41 <= u <= 0x5a {
        (u + 0x20) as u32
    } else {
        u
    }
}

/// Whether two characters are equal up to ASCII case.
pub open spec fn char_case_eq(x: char, y: char) -> bool {
    lower_char_u32(x) == lower_char_u32(y)
}

/// Whether two paths differ only in the ASCII case of their characters.
pub open spec fn eq_ignore_ascii_case(a: Seq<char>, b: Seq<char>) -> bool {
    a.len() == b.len() && forall|i: int| 0 <= i < a.len() ==> char_case_eq(a[i], b[i])
}

/// Lowercasing bytes distributes over concatenation.
proof fn lemma_lower_distributes(a: Seq<u8>, b: Seq<u8>)
    ensures
        ascii_lower_bytes(a + b) == ascii_lower_bytes(a) + ascii_lower_bytes(b),
{
    assert(ascii_lower_bytes(a + b) =~= ascii_lower_bytes(a) + ascii_lower_bytes(b));
}

/// Two characters equal up to ASCII case have UTF-8 encodings that are
/// equal once lowercased.
proof fn lemma_lower_scalar_case(x: char, y: char)
    requires
        char_case_eq(x, y),
    ensures
        ascii_lower_bytes(encode_scalar(x as u32)) == ascii_lower_bytes(encode_scalar(y as u32)),
{
    let ux = x as u32;
    let uy = y as u32;
    if ux == uy {
        assert(ascii_lower_bytes(encode_scalar(ux)) =~= ascii_lower_bytes(encode_scalar(uy)));
    } else {
        // Exactly one of the two is an uppercase ASCII letter; both sides
        // are single-byte encodings of letters that lowercase alike.
        assert(has_width_1_encoding(ux) && has_width_1_encoding(uy));
        assert(ux & 0x7f == ux) by (bit_vector)
            requires
                ux <= 0x7f,
        ;
        assert(uy & 0x7f == uy) by (bit_vector)
            requires
                uy <= 0x7f,
        ;
        assert(encode_scalar(ux) =~= seq![ux as u8]);
        assert(encode_scalar(uy) =~= seq![uy as u8]);
        assert(lower_byte(ux as u8) == lower_byte(uy as u8));
        assert(ascii_lower_bytes(encode_scalar(ux)) =~= ascii_lower_bytes(encode_scalar(uy)));
    }
}

/// Paths that differ only in ASCII case have lowercased byte encodings
/// that are equal.
proof fn lemma_lower_encode_eq(a: Seq<char>, b: Seq<char>)
    requires
        eq_ignore_ascii_case(a, b),
    ensures
        ascii_lower_bytes(encode_utf8(a)) == ascii_lower_bytes(encode_utf8(b)),
    decreases a.len(),
{
    if a.len() == 0 {
        assert(ascii_lower_bytes(encode_utf8(a)) =~= ascii_lower_bytes(encode_utf8(b)));
    } else {
        lemma_lower_scalar_case(a[0], b[0]);
        assert(eq_ignore_ascii_case(a.drop_first(), b.drop_first()));
        lemma_lower_encode_eq(a.drop_first(), b.drop_first());
        lemma_lower_distributes(encode_scalar(a[0] as u32), encode_utf8(a.drop_first()));
        lemma_lower_distributes(encode_scalar(b[0] as u32), encode_utf8(b.drop_first()));
    }
}

/// The hash ignores ASCII case: for all paths differing only in the ASCII
/// case of their characters, the index hash is equal.
pub proof fn lemma_hash_ignores_ascii_case(a: Seq<char>, b: Seq<char>)
    requires
        eq_ignore_ascii_case(a, b),
    ensures
        sq_hash_of(a) == sq_hash_of(b),
{
    lemma_lower_encode_eq(a, b);
}

/// A repository root ready to have a relative path appended: unchanged when
/// empty or already ending in `/`, else with `/` appended.
pub open spec fn spec_repo_join(repo: Seq<char>) -> Seq<char> {
    if repo.len() == 0 || repo[repo.len() - 1] == '/' {
        repo
    } else {
        repo + seq!['/']
    }
}

/// The basename of the index file for a category, expansion and pack
/// number: three hex bytes then the index suffix.
pub open spec fn spec_index_file_name(ft: FileType, e: Expansion, spn: u8) -> Seq<char> {
    hex_byte_chars(file_type_code(ft) as int) + hex_byte_chars(expansion_code(e) as int)
        + hex_byte_chars(spn as int) + ".win32.index2"@
}

/// The full path of the index file that holds a logical path: the
/// repository root, the expansion directory, then the index basename;
/// nothing when the category, expansion or pack number does not parse.
pub open spec fn spec_index_path(repo: Seq<char>, path: Seq<char>) -> Option<Seq<char>> {
    if spec_parse_file_type(path) is Some && spec_parse_expansion(path) is Some
        && spec_parse_sqpack_number(path) is Some {
        let ft = spec_parse_file_type(path)->0;
        let e = spec_parse_expansion(path)->0;
        let spn = spec_parse_sqpack_number(path)->0;
        Some(
            spec_repo_join(repo) + expansion_name(e) + seq!['/'] + spec_index_file_name(
                ft,
                e,
                spn.0,
            ),
        )
    } else {
        None
    }
}

impl SqPath {
    /// The index hash of this path: the CRC-32/JAMCRC of its bytes,
    /// ASCII-lowercased. Index files key their entries by this hash.
    pub fn sq_index_hash(&self) -> (r: u32)
        ensures
            r == sq_hash_of(self@),
    {
        let bytes = self.inner.as_str().as_bytes_vec();
        let n = bytes.len();
        let mut low: Vec<u8> = Vec::new();
        let mut i: usize = 0;
        while i < n
            invariant
                0 <= i <= n,
                n == bytes@.len(),
                low@.len() == i,
                forall|j: int| 0 <= j < i ==> low@[j] == lower_byte(bytes@[j]),
            decreases n - i,
        {
            let b = bytes[i];
            let lb: u8 = if 0x41 <= b && b <= 0x5a {
                b + 0x20
            } else {
                b
            };
            low.push(lb);
            i += 1;
        }
        proof {
            assert(low@ =~= ascii_lower_bytes(encode_utf8(self@)));
        }
        crc32_jamcrc_checksum(&low)
    }

    /// The path of the index file that locates this path inside the
    /// repository rooted at `sqpack`.
    pub fn sqpack_index_path(&self, sqpack: &str) -> (r: Option<String>)
        ensures
            match r {
                Some(p) => spec_index_path(sqpack@, self@) == Some(p@),
                None => spec_index_path(sqpack@, self@) is None,
            },
    {
        let ft = match FileType::parse_from_sqpath(self) {
            Some(v) => v,
            None => {
                return None;
            },
        };
        let e = match Expansion::parse_from_sqpath(self) {
            Some(v) => v,
            None => {
                return None;
            },
        };
        let spn = match SqPackNumber::parse_from_sqpath(self) {
            Some(v) => v,
            None => {
                return None;
            },
        };
        let mut out = String::new();
        out.append(sqpack);
        let n = sqpack.unicode_len();
        if n > 0 && sqpack.get_char(n - 1) != '/' {
            out.append("/");
        }
        proof {
            reveal_strlit("/");
            assert(out@ =~= spec_repo_join(sqpack@));
        }
        out.append(e.as_str());
        out.append("/");
        push_hex_byte(&mut out, ft.file_name_prefix());
        push_hex_byte(&mut out, e.file_name_prefix());
        push_hex_byte(&mut out, spn.0);
        out.append(".win32.index2");
        proof {
            reveal_strlit("/");
            assert(out@ =~= spec_index_path(sqpack@, self@)->0);
        }
        Some(out)
    }
}

impl SqPathBuf {
    /// The index hash of this path; see [`SqPath::sq_index_hash`].
    pub fn sq_index_hash(&self) -> (r: u32)
        ensures
            r == sq_hash_of(self@),
    {
        self.inner.sq_index_hash()
    }

    /// The index file path for this path; see [`SqPath::sqpack_index_path`].
    pub fn sqpack_index_path(&self, sqpack: &str) -> (r: Option<String>)
        ensures
            match r {
                Some(p) => spec_index_path(sqpack@, self@) == Some(p@),
                None => spec_index_path(sqpack@, self@) is None,
            },
    {
        self.inner.sqpack_index_path(sqpack)
    }
}

} // verus!

