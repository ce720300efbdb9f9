//! Problem payloads: script text spliced between fixed prologue and
//! epilogue bytes, and the character conversions they need.

use vstd::prelude::*;
use vstd::string::StringExecFns;
use vstd::utf8::encode_utf8;
use crate::math_render::{latex_text, latex_to_unicode};

verus! {

#[derive(Debug)]
pub enum XMLError {
    InvalidContent(String),
    GenerationFailed(String),
    EncodingError(String),
}

/// Kind of script being converted.
#[derive(Debug, Clone, Copy, PartialEq, Eq, Structural)]
pub enum ScriptType {
    Lua,
    Python,
}

/// A script with its kind.
#[derive(Debug, Clone)]
pub struct ScriptData {
    pub script_type: ScriptType,
    pub content: String,
}

/// Longest Python file name, in bytes, that a problem may reference.
pub const MAX_PYTHON_FILENAME: usize = 240;

/// Problem prologue of a Lua script, up to the opening of its CDATA section.
pub const LUA_HEADER: [u8; 280] = [
    0x54, 0x49, 0x58, 0x43, 0x30, 0x31, 0x30, 0x30, 0x2D, 0x31, 0x2E, 0x30,
    0x3F, 0x3E, 0x3C, 0x70, 0x72, 0x6F, 0x62, 0x20, 0x78, 0x6D, 0x6C, 0x6E,
    0x73, 0x3D, 0x22, 0x75, 0x72, 0x6E, 0x3A, 0x54, 0x49, 0x2E, 0x50, 0xA8,
    0x5F, 0x5B, 0x1F, 0x0A, 0x22, 0x20, 0x76, 0x65, 0x72, 0x3D, 0x22, 0x31,
    0x2E, 0x30, 0x22, 0x20, 0x70, 0x62, 0x6E, 0x61, 0x6D, 0x65, 0x3D, 0x22,
    0x22, 0x3E, 0x3C, 0x73, 0x79, 0x6D, 0x3E, 0x0E, 0x01, 0x3C, 0x63, 0x61,
    0x72, 0x64, 0x20, 0x63, 0x6C, 0x61, 0x79, 0x3D, 0x22, 0x30, 0x22, 0x20,
    0x68, 0x31, 0x3D, 0x22, 0xF1, 0x00, 0x00, 0xFF, 0x22, 0x20, 0x68, 0x32,
    0x3D, 0x22, 0xF1, 0x00, 0x00, 0xFF, 0x22, 0x20, 0x77, 0x31, 0x3D, 0x22,
    0xF1, 0x00, 0x00, 0xFF, 0x22, 0x20, 0x77, 0x32, 0x3D, 0x22, 0xF1, 0x00,
    0x00, 0xFF, 0x22, 0x3E, 0x3C, 0x69, 0x73, 0x44, 0x75, 0x6D, 0x6D, 0x79,
    0x43, 0x61, 0x72, 0x64, 0x3E, 0x30, 0x0E, 0x03, 0x3C, 0x66, 0x6C, 0x61,
    0x67, 0x3E, 0x30, 0x0E, 0x04, 0x3C, 0x77, 0x64, 0x67, 0x74, 0x20, 0x78,
    0x6D, 0x6C, 0x6E, 0x73, 0x3A, 0x73, 0x63, 0x3D, 0x22, 0x75, 0x72, 0x6E,
    0x3A, 0x54, 0x49, 0x2E, 0x53, 0xAC, 0x84, 0xF2, 0x2A, 0x41, 0x70, 0x70,
    0x22, 0x20, 0x74, 0x79, 0x70, 0x65, 0x3D, 0x22, 0x54, 0x49, 0x2E, 0x53,
    0xAC, 0x84, 0xF2, 0x2A, 0x41, 0x70, 0x70, 0x22, 0x20, 0x76, 0x65, 0x72,
    0x3D, 0x22, 0x31, 0x2E, 0x30, 0x22, 0x3E, 0x3C, 0x73, 0x63, 0x3A, 0x6D,
    0x46, 0x6C, 0x61, 0x67, 0x73, 0x3E, 0x30, 0x0E, 0x06, 0x3C, 0x73, 0x63,
    0x3A, 0x76, 0x61, 0x6C, 0x75, 0x65, 0x3E, 0x2D, 0x31, 0x0E, 0x07, 0x3C,
    0x73, 0x63, 0x3A, 0x73, 0x63, 0x72, 0x69, 0x70, 0x74, 0x20, 0x76, 0x65,
    0x72, 0x73, 0x69, 0x6F, 0x6E, 0x3D, 0x22, 0x35, 0x31, 0x32, 0x22, 0x20,
    0x69, 0x64, 0x3D, 0x22, 0x30, 0x22, 0x3E, 0x3C, 0x21, 0x5B, 0x43, 0x44,
    0x41, 0x54, 0x41, 0x5B,
];

/// Problem epilogue of a Lua script, from the closing of its CDATA section.
pub const LUA_FOOTER: [u8; 11] = [
    0x5D, 0x5D, 0x3E, 0x0E, 0x08, 0x0E, 0x05, 0x0E, 0x02, 0x0E, 0x00,
];

/// Problem prologue of a Python script, up to its file name.
pub const PY_HEADER: [u8; 242] = [
    0x54, 0x49, 0x58, 0x43, 0x30, 0x31, 0x30, 0x30, 0x2D, 0x31, 0x2E, 0x30,
    0x3F, 0x3E, 0x3C, 0x70, 0x72, 0x6F, 0x62, 0x20, 0x78, 0x6D, 0x6C, 0x6E,
    0x73, 0x3D, 0x22, 0x75, 0x72, 0x6E, 0x3A, 0x54, 0x49, 0x2E, 0x50, 0x72,
    0x6F, 0x62, 0x6C, 0x65, 0x6D, 0x22, 0x20, 0x76, 0x65, 0x72, 0x3D, 0x22,
    0x31, 0x2E, 0x30, 0x22, 0x20, 0x70, 0x62, 0x6E, 0x61, 0x6D, 0x65, 0x3D,
    0x22, 0x22, 0x3E, 0x3C, 0x73, 0x79, 0x6D, 0x3E, 0x0E, 0x01, 0x3C, 0x63,
    0x61, 0x72, 0x64, 0x20, 0x63, 0x6C, 0x61, 0x79, 0x3D, 0x22, 0x30, 0x22,
    0x20, 0x68, 0x31, 0x3D, 0x22, 0x31, 0x30, 0x30, 0x30, 0x30, 0x22, 0x20,
    0x68, 0x32, 0x3D, 0x22, 0x31, 0x30, 0x30, 0x30, 0x30, 0x22, 0x20, 0x77,
    0x31, 0x3D, 0x22, 0x31, 0x30, 0x30, 0x30, 0x30, 0x22, 0x20, 0x77, 0x32,
    0x3D, 0x22, 0x31, 0x30, 0x30, 0x30, 0x30, 0x22, 0x3E, 0x3C, 0x69, 0x73,
    0x44, 0x75, 0x6D, 0x6D, 0x79, 0x43, 0x61, 0x72, 0x64, 0x3E, 0x30, 0x0E,
    0x03, 0x3C, 0x66, 0x6C, 0x61, 0x67, 0x3E, 0x30, 0x0E, 0x04, 0x3C, 0x77,
    0x64, 0x67, 0x74, 0x20, 0x78, 0x6D, 0x6C, 0x6E, 0x73, 0x3A, 0x70, 0x79,
    0x3D, 0x22, 0x75, 0x72, 0x6E, 0x3A, 0x54, 0x49, 0x2E, 0x50, 0x79, 0x74,
    0x68, 0x6F, 0x6E, 0x45, 0x64, 0x69, 0x74, 0x6F, 0x72, 0x22, 0x20, 0x74,
    0x79, 0x70, 0x65, 0x3D, 0x22, 0x54, 0x49, 0x2E, 0x50, 0x79, 0x74, 0x68,
    0x6F, 0x6E, 0x45, 0x64, 0x69, 0x74, 0x6F, 0x72, 0x22, 0x20, 0x76, 0x65,
    0x72, 0x3D, 0x22, 0x31, 0x2E, 0x30, 0x22, 0x3E, 0x3C, 0x70, 0x79, 0x3A,
    0x64, 0x61, 0x74, 0x61, 0x3E, 0x3C, 0x70, 0x79, 0x3A, 0x6E, 0x61, 0x6D,
    0x65, 0x3E,
];

/// Problem epilogue of a Python script, after its file name.
pub const PY_FOOTER: [u8; 61] = [
    0x0E, 0x07, 0x3C, 0x70, 0x79, 0x3A, 0x64, 0x69, 0x72, 0x66, 0x3E, 0x2D,
    0x31, 0x30, 0x30, 0x30, 0x30, 0x30, 0x30, 0x30, 0x0E, 0x08, 0x0E, 0x06,
    0x3C, 0x70, 0x79, 0x3A, 0x6D, 0x46, 0x6C, 0x61, 0x67, 0x73, 0x3E, 0x31,
    0x30, 0x32, 0x34, 0x0E, 0x09, 0x3C, 0x70, 0x79, 0x3A, 0x76, 0x61, 0x6C,
    0x75, 0x65, 0x3E, 0x31, 0x30, 0x0E, 0x0A, 0x0E, 0x05, 0x0E, 0x02, 0x0E,
    0x00,
];

/// The protected default Document.xml.
pub const DEFAULT_DOCUMENT_XML: [u8; 304] = [
    0x0F, 0xCE, 0xD8, 0xD2, 0x81, 0x06, 0x86, 0x5B, 0x4A, 0x4A, 0xC5, 0xCE,
    0xA9, 0x16, 0xF2, 0xD5, 0x1D, 0xA8, 0x2F, 0x6E, 0x00, 0x22, 0xF2, 0xF0,
    0xC1, 0xA6, 0x06, 0x77, 0x4D, 0x7E, 0xA6, 0xC0, 0x3A, 0xF0, 0x5C, 0x74,
    0xBA, 0xAA, 0x44, 0x60, 0xCD, 0x58, 0xE6, 0x70, 0xD7, 0x40, 0xF6, 0x9C,
    0x17, 0xDC, 0xF0, 0x94, 0x77, 0xBF, 0xCA, 0xDE, 0xF7, 0x02, 0x09, 0xC9,
    0x62, 0xB1, 0x5D, 0xEF, 0x22, 0xFA, 0x51, 0x37, 0xA0, 0x81, 0x91, 0x48,
    0xE1, 0x83, 0x4D, 0xAD, 0x08, 0x31, 0x2D, 0xD0, 0xD3, 0xE3, 0x2D, 0x60,
    0xAB, 0x13, 0xC2, 0x98, 0x2B, 0xED, 0x39, 0x5B, 0x09, 0x24, 0x39, 0x92,
    0x2F, 0x0C, 0x7A, 0x4C, 0x95, 0x74, 0x91, 0x3B, 0x0C, 0xF4, 0x60, 0xCC,
    0x73, 0x27, 0xCB, 0x07, 0x7E, 0x7F, 0xA9, 0x17, 0x87, 0xE2, 0xAC, 0xA2,
    0x3B, 0xCC, 0xA0, 0xC4, 0xE3, 0x8E, 0x89, 0xF0, 0xC0, 0x51, 0x9F, 0xC2,
    0xBE, 0xCE, 0x28, 0x45, 0xC3, 0xD4, 0x11, 0x90, 0xA6, 0xEC, 0x53, 0xA0,
    0xFB, 0x5B, 0x46, 0x6B, 0x41, 0xAD, 0xE9, 0x53, 0xBB, 0x97, 0xDB, 0xB1,
    0xD2, 0x68, 0xE2, 0xF6, 0x36, 0x0F, 0x26, 0x36, 0x75, 0x9B, 0xE9, 0x1F,
    0x48, 0xAD, 0xE9, 0x29, 0x67, 0x00, 0x58, 0x19, 0xC3, 0xC0, 0x12, 0x76,
    0xA0, 0x4A, 0x73, 0xF3, 0xB1, 0xD3, 0x09, 0x18, 0xD6, 0x06, 0xDD, 0x97,
    0x24, 0x53, 0x3E, 0x22, 0xA4, 0xFB, 0x82, 0x50, 0x7B, 0x7C, 0x12, 0x88,
    0x4E, 0x7D, 0x41, 0x80, 0xFE, 0x72, 0x92, 0x29, 0x87, 0xE8, 0x5C, 0x56,
    0x72, 0xFF, 0x29, 0x16, 0x8C, 0x42, 0x5B, 0x8B, 0x9B, 0xA7, 0xD2, 0x08,
    0x6D, 0xD3, 0x98, 0xFF, 0x91, 0xA9, 0x9E, 0xF3, 0x93, 0xA8, 0x2E, 0x1C,
    0xB2, 0xA9, 0x6B, 0x6A, 0xDF, 0xF6, 0xCE, 0x2D, 0x15, 0x17, 0xCE, 0x6E,
    0xC0, 0x4F, 0x9A, 0x9C, 0x0E, 0xDF, 0x19, 0x8D, 0x2D, 0xFA, 0x69, 0x9F,
    0x11, 0xD2, 0x20, 0x12, 0xE0, 0x79, 0x14, 0x04, 0x4E, 0x62, 0x8F, 0x0A,
    0x2A, 0x18, 0x72, 0x5A, 0x8B, 0x80, 0xB3, 0x3C, 0x9B, 0xD5, 0x67, 0x59,
    0x4B, 0x51, 0x4D, 0xE0, 0xC3, 0x38, 0x28, 0xC3, 0xDC, 0xCD, 0x39, 0x22,
    0x12, 0x8C, 0x40, 0x55,
];

/// The header that precedes every protected problem payload.
pub const TI_ENCRYPTED_HEADER: [u8; 40] = [
    0x0F, 0xCE, 0xD8, 0xD2, 0x81, 0x06, 0x86, 0x5B, 0x99, 0xDD, 0xA2, 0x3D,
    0xD9, 0xE9, 0x4B, 0xD4, 0x31, 0xBB, 0x50, 0xB6, 0x4D, 0xB3, 0x29, 0x24,
    0x70, 0x60, 0x49, 0x38, 0x1C, 0x30, 0xF8, 0x99, 0x00, 0x4B, 0x92, 0x64,
    0xE4, 0x58, 0xE6, 0xBC,
];

/// The characters of `s`, in order.
pub(crate) fn str_chars(s: &str) -> (r: Vec<char>)
    ensures
        r@ == s@,
{
    let mut v: Vec<char> = Vec::new();
    for c in it: s.chars()
        invariant
            v@ == it.seq().take(it.index() as int),
    {
        v.push(c);
    }
    v
}

/// Relies on String's FromIterator<&char> (through collect): the string of
/// the characters, in order.
#[verifier::external_body]
pub(crate) fn string_of_chars(v: &Vec<char>) -> (r: String)
    ensures
        r@ == v@,
{
    v.iter().collect()
}

/// `s` with every `]]>` split so that it cannot close a CDATA section:
/// the `]]` is followed by `]]><![CDATA[` before the `>`.
pub open spec fn cdata_fixed(s: Seq<char>) -> Seq<char>
    decreases s.len(),
{
    if s.len() == 0 {
        s
    } else if s.len() >= 3 && s[0] == ']' && s[1] == ']' && s[2] == '>' {
        seq![']', ']'] + cdata_restart() + cdata_fixed(s.subrange(2, s.len() as int))
    } else {
        seq![s[0]] + cdata_fixed(s.subrange(1, s.len() as int))
    }
}

pub open spec fn cdata_restart() -> Seq<char> {
    seq![']', ']', '>', '<', '!', '[', 'C', 'D', 'A', 'T', 'A', '[']
}

fn push_cdata_restart(out: &mut Vec<char>)
    ensures
        final(out)@ == old(out)@ + cdata_restart(),
{
    out.push(']');
    out.push(']');
    out.push('>');
    out.push('<');
    out.push('!');
    out.push('[');
    out.push('C');
    out.push('D');
    out.push('A');
    out.push('T');
    out.push('A');
    out.push('[');
    assert(out@ =~= old(out)@ + cdata_restart());
}

proof fn lemma_cdata_step(cs: Seq<char>, i: int)
    requires
        0 <= i < cs.len(),
    ensures
        ({
            let n = cs.len() as int;
            if n - i >= 3 && cs[i] == ']' && cs[i + 1] == ']' && cs[i + 2] == '>' {
                cdata_fixed(cs.subrange(i, n)) == seq![']', ']'] + cdata_restart() + cdata_fixed(
                    cs.subrange(i + 2, n),
                )
            } else {
                cdata_fixed(cs.subrange(i, n)) == seq![cs[i]] + cdata_fixed(cs.subrange(i + 1, n))
            }
        }),
{
    let n = cs.len() as int;
    let rest = cs.subrange(i, n);
    if n - i >= 3 {
        assert(rest.subrange(2, rest.len() as int) =~= cs.subrange(i + 2, n));
    }
    assert(rest.subrange(1, rest.len() as int) =~= cs.subrange(i + 1, n));
}

/// Splits each `]]>` of `script` so that it cannot end the CDATA section
/// that holds the script.
pub fn fix_cdata_end_seq(script: &str) -> (r: Result<String, XMLError>)
    ensures
        r is Ok,
        r matches Ok(s) && s@ == cdata_fixed(script@),
{
    let cs = str_chars(script);
    let n = cs.len();
    let mut out: Vec<char> = Vec::new();
    let mut i: usize = 0;
    assert(cs@.subrange(0, n as int) =~= cs@);
    assert(out@ + cdata_fixed(cs@) =~= cdata_fixed(script@));
    while i < n
        invariant
            n == cs@.len(),
            cs@ == script@,
            i <= n,
            out@ + cdata_fixed(cs@.subrange(i as int, n as int)) == cdata_fixed(script@),
        decreases n - i,
    {
        let ghost before = out@;
        proof {
            lemma_cdata_step(cs@, i as int);
        }
        if n - i >= 3 && cs[i] == ']' && cs[i + 1] == ']' && cs[i + 2] == '>' {
            out.push(']');
            out.push(']');
            push_cdata_restart(&mut out);
            assert(out@ =~= before + (seq![']', ']'] + cdata_restart()));
            assert(out@ + cdata_fixed(cs@.subrange(i + 2, n as int)) =~= before + cdata_fixed(
                cs@.subrange(i as int, n as int),
            ));
            i += 2;
        } else {
            out.push(cs[i]);
            assert(out@ + cdata_fixed(cs@.subrange(i + 1, n as int)) =~= before + cdata_fixed(
                cs@.subrange(i as int, n as int),
            ));
            i += 1;
        }
    }
    assert(cs@.subrange(n as int, n as int) =~= Seq::<char>::empty());
    assert(out@ =~= cdata_fixed(script@));
    Ok(string_of_chars(&out))
}

/// The problem bytes of a Lua script: the prologue, the UTF-8 of the
/// script with its CDATA ends split, and the epilogue.
pub fn wrap_lua_script(script: &str, _document_name: &str) -> (r: Result<Vec<u8>, XMLError>)
    ensures
        r is Ok,
        r matches Ok(b) && b@ == LUA_HEADER@ + encode_utf8(cdata_fixed(script@)) + LUA_FOOTER@,
{
    let fixed = match fix_cdata_end_seq(script) {
        Ok(s) => s,
        Err(e) => return Err(e),
    };
    let mut result: Vec<u8> = Vec::new();
    result.extend_from_slice(&LUA_HEADER);
    result.extend_from_slice(fixed.as_str().as_bytes());
    result.extend_from_slice(&LUA_FOOTER);
    Ok(result)
}

/// The problem bytes that reference a Python file: the prologue, the UTF-8
/// of the file name, and the epilogue. A name longer than 240 bytes is
/// refused.
pub fn wrap_python_script(python_filename: &str, _document_name: &str) -> (r: Result<Vec<u8>, XMLError>)
    ensures
        encode_utf8(python_filename@).len() > MAX_PYTHON_FILENAME ==> r matches Err(
            XMLError::InvalidContent(_),
        ),
        encode_utf8(python_filename@).len() <= MAX_PYTHON_FILENAME ==> (r matches Ok(b) && b@
            == PY_HEADER@ + encode_utf8(python_filename@) + PY_FOOTER@),
{
    let name = python_filename.as_bytes();
    if name.len() > MAX_PYTHON_FILENAME {
        let msg = String::from_str("Python script filenames limited to 240 characters");
        return Err(XMLError::InvalidContent(msg));
    }
    let mut result: Vec<u8> = Vec::new();
    result.extend_from_slice(&PY_HEADER);
    result.extend_from_slice(name);
    result.extend_from_slice(&PY_FOOTER);
    Ok(result)
}

/// The protected default Document.xml that every archive opens with.
pub fn create_default_document_xml() -> (r: &'static [u8])
    ensures
        r@ == DEFAULT_DOCUMENT_XML@,
{
    &DEFAULT_DOCUMENT_XML
}

/// The header that precedes a protected problem payload.
pub fn get_ti_encrypted_header() -> (r: &'static [u8])
    ensures
        r@ == TI_ENCRYPTED_HEADER@,
{
    &TI_ENCRYPTED_HEADER
}

/// The closing bracket of a Lua long string with `k` equals signs.
pub open spec fn long_close(k: nat) -> Seq<char> {
    seq![']'] + Seq::new(k, |i: int| '=') + seq![']']
}

pub open spec fn contains(s: Seq<char>, p: Seq<char>) -> bool {
    exists|k: int| 0 <= k && k + p.len() <= s.len() && #[trigger] s.subrange(k, k + p.len()) == p
}

/// The fewest equals signs, from `k` on, whose closing bracket `text` does
/// not hold; 11 when every count up to 10 clashes.
pub open spec fn delimiter_from(text: Seq<char>, k: nat) -> nat
    decreases 11 - k,
{
    if k >= 11 {
        11
    } else if !contains(text, long_close(k)) {
        k
    } else {
        delimiter_from(text, k + 1)
    }
}

pub open spec fn equals_signs(k: nat) -> Seq<char> {
    Seq::new(k, |i: int| '=')
}

/// Whether `cs` holds `p` somewhere.
fn chars_contain(cs: &Vec<char>, p: &Vec<char>) -> (r: bool)
    ensures
        r == contains(cs@, p@),
{
    let n = cs.len();
    let m = p.len();
    if m > n {
        return false;
    }
    let mut k: usize = 0;
    while k <= n - m
        invariant
            m <= n,
            n == cs@.len(),
            m == p@.len(),
            k <= n - m + 1,
            forall|j: int| 0 <= j < k ==> #[trigger] cs@.subrange(j, j + m) != p@,
        decreases n - m + 1 - k,
    {
        let mut j: usize = 0;
        let mut same = true;
        while j < m && same
            invariant
                j <= m,
                k + m <= n,
                n == cs@.len(),
                m == p@.len(),
                same == (forall|q: int| 0 <= q < j ==> cs@[k + q] == p@[q]),
            decreases m - j,
        {
            if cs[k + j] != p[j] {
                same = false;
            }
            j += 1;
        }
        if same {
            assert(cs@.subrange(k as int, k + m) =~= p@);
            return true;
        }
        assert(cs@.subrange(k as int, k + m) != p@) by {
            let q = choose|q: int| 0 <= q < j && cs@[k + q] != p@[q];
            assert(cs@.subrange(k as int, k + m)[q] == cs@[k + q]);
        }
        k += 1;
    }
    false
}

/// The equals signs of the Lua long-string brackets that can hold `text`
/// safely: the fewest whose closing bracket does not occur in it (at most
/// 11).
pub fn find_safe_delimiter(text: &str) -> (r: String)
    ensures
        r@ == equals_signs(delimiter_from(text@, 0)),
{
    let cs = str_chars(text);
    let mut equals: Vec<char> = Vec::new();
    let mut k: usize = 0;
    while k <= 10
        invariant
            k <= 11,
            cs@ == text@,
            equals@ == equals_signs(k as nat),
            delimiter_from(text@, 0) == delimiter_from(text@, k as nat),
        decreases 11 - k,
    {
        let mut end_pattern: Vec<char> = Vec::new();
        end_pattern.push(']');
        let mut q: usize = 0;
        while q < k
            invariant
                q <= k,
                end_pattern@ == seq![']'] + Seq::new(q as nat, |i: int| '='),
            decreases k - q,
        {
            end_pattern.push('=');
            assert(end_pattern@ =~= seq![']'] + Seq::new((q + 1) as nat, |i: int| '='));
            q += 1;
        }
        end_pattern.push(']');
        assert(end_pattern@ =~= long_close(k as nat));
        if !chars_contain(&cs, &end_pattern) {
            return string_of_chars(&equals);
        }
        equals.push('=');
        assert(equals@ =~= equals_signs((k + 1) as nat));
        k += 1;
    }
    string_of_chars(&equals)
}

/// The Lua program that shows a note, in front of its text.
pub open spec fn note_prologue() -> Seq<char> {
    "-- Text Note (generated by Luna-RS)
local text = "@
}

/// The Lua program that shows a note, after its text.
pub open spec fn note_epilogue() -> Seq<char> {
    "

local FONT_SIZE = 11
local LINE_HEIGHT = 15
local MARGIN_X = 4
local MARGIN_TOP = 20
local scroll = 0
local max_scroll = 0
local wrapped_lines = {}

-- Wrap text to fit screen width
function wrap_text(gc, txt, max_width)
    wrapped_lines = {}
    for line in (txt .. \"\\n\"):gmatch(\"([^\\r\\n]*)\\r?\\n\") do
        if line == \"\" then
            table.insert(wrapped_lines, \"\")
        else
            local current = \"\"
            for word in line:gmatch(\"%S+\") do
                local test = current == \"\" and word or (current .. \" \" .. word)
                if gc:getStringWidth(test) > max_width then
                    if current ~= \"\" then
                        table.insert(wrapped_lines, current)
                    end
                    -- Handle very long words
                    if gc:getStringWidth(word) > max_width then
                        local chars = \"\"
                        for c in word:gmatch(\".\") do
                            if gc:getStringWidth(chars .. c) > max_width then
                                table.insert(wrapped_lines, chars)
                                chars = c
                            else
                                chars = chars .. c
                            end
                        end
                        current = chars
                    else
                        current = word
                    end
                else
                    current = test
                end
            end
            if current ~= \"\" then
                table.insert(wrapped_lines, current)
            end
        end
    end
end

function on.paint(gc)
    gc:setFont(\"sansserif\", \"r\", FONT_SIZE)
    local w, h = platform.window:width(), platform.window:height()

    if #wrapped_lines == 0 then
        wrap_text(gc, text, w - MARGIN_X * 2)
    end

    local y = MARGIN_TOP - scroll
    for _, line in ipairs(wrapped_lines) do
        if y + LINE_HEIGHT > 0 and y < h then
            gc:drawString(line, MARGIN_X, y)
        end
        y = y + LINE_HEIGHT
    end

    max_scroll = math.max(0, #wrapped_lines * LINE_HEIGHT - h + MARGIN_TOP + 10)
end

function on.arrowKey(key)
    if key == \"up\" then
        scroll = math.max(0, scroll - LINE_HEIGHT)
    elseif key == \"down\" then
        scroll = math.min(max_scroll, scroll + LINE_HEIGHT)
    end
    platform.window:invalidate()
end

function on.enterKey()
    scroll = 0
    platform.window:invalidate()
end

function on.resize()
    wrapped_lines = {}
    platform.window:invalidate()
end

platform.window:invalidate()
"@
}

/// The Lua script that shows `t` (already converted) in a long string whose
/// brackets carry `d`.
pub open spec fn note_script(t: Seq<char>, d: Seq<char>) -> Seq<char> {
    note_prologue() + seq!['['] + d + seq!['['] + t + seq![']'] + d + seq![']'] + note_epilogue()
}

/// The Lua script of a plain-text note.
pub open spec fn text_lua(text: Seq<char>) -> Seq<char> {
    note_script(latex_text(text), equals_signs(delimiter_from(latex_text(text), 0)))
}

fn push_chars(out: &mut Vec<char>, s: &str)
    ensures
        final(out)@ == old(out)@ + s@,
{
    let mut v = str_chars(s);
    out.append(&mut v);
}

fn push_char(out: &mut Vec<char>, c: char)
    ensures
        final(out)@ == old(out)@ + seq![c],
{
    out.push(c);
    assert(out@ =~= old(out)@ + seq![c]);
}

/// Turns a plain-text note into a Lua script that shows it and lets it
/// scroll; LaTeX-style notation in the text is converted first.
pub fn text_to_lua_script(text: &str) -> (r: String)
    ensures
        r@ == text_lua(text@),
{
    let converted = latex_to_unicode(text);
    let delimiter = find_safe_delimiter(converted.as_str());
    let mut out: Vec<char> = Vec::new();
    push_chars(&mut out, "-- Text Note (generated by Luna-RS)
local text = ");
    push_char(&mut out, '[');
    push_chars(&mut out, delimiter.as_str());
    push_char(&mut out, '[');
    push_chars(&mut out, converted.as_str());
    push_char(&mut out, ']');
    push_chars(&mut out, delimiter.as_str());
    push_char(&mut out, ']');
    push_chars(&mut out, "

local FONT_SIZE = 11
local LINE_HEIGHT = 15
local MARGIN_X = 4
local MARGIN_TOP = 20
local scroll = 0
local max_scroll = 0
local wrapped_lines = {}

-- Wrap text to fit screen width
function wrap_text(gc, txt, max_width)
    wrapped_lines = {}
    for line in (txt .. \"\\n\"):gmatch(\"([^\\r\\n]*)\\r?\\n\") do
        if line == \"\" then
            table.insert(wrapped_lines, \"\")
        else
            local current = \"\"
            for word in line:gmatch(\"%S+\") do
                local test = current == \"\" and word or (current .. \" \" .. word)
                if gc:getStringWidth(test) > max_width then
                    if current ~= \"\" then
                        table.insert(wrapped_lines, current)
                    end
                    -- Handle very long words
                    if gc:getStringWidth(word) > max_width then
                        local chars = \"\"
                        for c in word:gmatch(\".\") do
                            if gc:getStringWidth(chars .. c) > max_width then
                                table.insert(wrapped_lines, chars)
                                chars = c
                            else
                                chars = chars .. c
                            end
                        end
                        current = chars
                    else
                        current = word
                    end
                else
                    current = test
                end
            end
            if current ~= \"\" then
                table.insert(wrapped_lines, current)
            end
        end
    end
end

function on.paint(gc)
    gc:setFont(\"sansserif\", \"r\", FONT_SIZE)
    local w, h = platform.window:width(), platform.window:height()

    if #wrapped_lines == 0 then
        wrap_text(gc, text, w - MARGIN_X * 2)
    end

    local y = MARGIN_TOP - scroll
    for _, line in ipairs(wrapped_lines) do
        if y + LINE_HEIGHT > 0 and y < h then
            gc:drawString(line, MARGIN_X, y)
        end
        y = y + LINE_HEIGHT
    end

    max_scroll = math.max(0, #wrapped_lines * LINE_HEIGHT - h + MARGIN_TOP + 10)
end

function on.arrowKey(key)
    if key == \"up\" then
        scroll = math.max(0, scroll - LINE_HEIGHT)
    elseif key == \"down\" then
        scroll = math.min(max_scroll, scroll + LINE_HEIGHT)
    end
    platform.window:invalidate()
end

function on.enterKey()
    scroll = 0
    platform.window:invalidate()
end

function on.resize()
    wrapped_lines = {}
    platform.window:invalidate()
end

platform.window:invalidate()
");
    assert(out@ =~= text_lua(text@));
    string_of_chars(&out)
}

/// The problem bytes of a plain-text note: its Lua script, wrapped as a
/// Lua problem.
pub fn wrap_plain_text(text: &str, document_name: &str) -> (r: Result<Vec<u8>, XMLError>)
    ensures
        r matches Ok(b) && b@ == LUA_HEADER@ + encode_utf8(cdata_fixed(text_lua(text@))) + LUA_FOOTER@,
{
    let lua_script = text_to_lua_script(text);
    wrap_lua_script(lua_script.as_str(), document_name)
}

/// The code point of the lenient UTF-8 sequence at `i`, with the index
/// after it. Missing continuation bytes count as zero; a byte that cannot
/// start a sequence reads as 0; past the end the result is `(0, i)`.
pub open spec fn decode_at(b: Seq<u8>, i: int) -> (u32, int) {
    let n = b.len() as int;
    if i < 0 || i >= n {
        (0, i)
    } else {
        let x = b[i];
        let c1: u32 = if i + 1 < n { (b[i + 1] & 0x3F) as u32 } else { 0 };
        let c2: u32 = if i + 2 < n { (b[i + 2] & 0x3F) as u32 } else { 0 };
        let c3: u32 = if i + 3 < n { (b[i + 3] & 0x3F) as u32 } else { 0 };
        if x & 0x80 == 0 {
            (x as u32, i + 1)
        } else if x & 0xE0 == 0xC0 {
            ((((x & 0x1F) as u32) << 6u32) | c1, if i + 2 <= n { i + 2 } else { n })
        } else if x & 0xF0 == 0xE0 {
            ((((x & 0x0F) as u32) << 12u32) | (c1 << 6u32) | c2, if i + 3 <= n { i + 3 } else { n })
        } else if x & 0xF8 == 0xF0 {
            (
                (((x & 0x07) as u32) << 18u32) | (c1 << 12u32) | (c2 << 6u32) | c3,
                if i + 4 <= n { i + 4 } else { n },
            )
        } else {
            (0, i + 1)
        }
    }
}

/// The calculator's encoding of one code point: one byte below 0x80, two
/// below 0x800, 0x80 and two bytes below 0x10000, else 0x08 and three bytes.
pub open spec fn ti_char(c: u32) -> Seq<u8> {
    if c < 0x80 {
        seq![c as u8]
    } else if c < 0x800 {
        seq![(c >> 8u32) as u8, c as u8]
    } else if c < 0x10000 {
        seq![0x80u8, (c >> 8u32) as u8, c as u8]
    } else {
        seq![0x08u8, (c >> 16u32) as u8, (c >> 8u32) as u8, c as u8]
    }
}

/// The calculator encoding of the bytes of `b` from `i` on.
pub open spec fn ti_escape_from(b: Seq<u8>, i: int) -> Seq<u8>
    decreases b.len() - i,
{
    if i < 0 || i >= b.len() {
        Seq::empty()
    } else {
        let (c, next) = decode_at(b, i);
        if next <= i {
            Seq::empty()
        } else {
            ti_char(c) + ti_escape_from(b, next)
        }
    }
}

/// Where the text starts: after a UTF-8 byte order mark, if any.
pub open spec fn bom_skip(b: Seq<u8>) -> int {
    if b.len() >= 3 && b[0] == 0xEF && b[1] == 0xBB && b[2] == 0xBF {
        3
    } else {
        0
    }
}

pub open spec fn ti_escaped(b: Seq<u8>) -> Seq<u8> {
    ti_escape_from(b, bom_skip(b))
}

/// Reads the UTF-8 sequence at `index` leniently: its code point and the
/// index after it.
pub fn utf8_to_unicode(bytes: &[u8], index: usize) -> (r: Result<(u32, usize), XMLError>)
    ensures
        r matches Ok((c, next)) && (c, next as int) == decode_at(bytes@, index as int),
{
    let n = bytes.len();
    if index >= n {
        return Ok((0, index));
    }
    let x = bytes[index];
    let c1: u32 = if n - index > 1 { (bytes[index + 1] & 0x3F) as u32 } else { 0 };
    let c2: u32 = if n - index > 2 { (bytes[index + 2] & 0x3F) as u32 } else { 0 };
    let c3: u32 = if n - index > 3 { (bytes[index + 3] & 0x3F) as u32 } else { 0 };
    if x & 0x80 == 0 {
        Ok((x as u32, index + 1))
    } else if x & 0xE0 == 0xC0 {
        let next = if n - index >= 2 { index + 2 } else { n };
        Ok(((((x & 0x1F) as u32) << 6u32) | c1, next))
    } else if x & 0xF0 == 0xE0 {
        let next = if n - index >= 3 { index + 3 } else { n };
        Ok(((((x & 0x0F) as u32) << 12u32) | (c1 << 6u32) | c2, next))
    } else if x & 0xF8 == 0xF0 {
        let next = if n - index >= 4 { index + 4 } else { n };
        Ok(((((x & 0x07) as u32) << 18u32) | (c1 << 12u32) | (c2 << 6u32) | c3, next))
    } else {
        Ok((0, index + 1))
    }
}

fn push_ti_char(out: &mut Vec<u8>, c: u32)
    ensures
        final(out)@ == old(out)@ + ti_char(c),
{
    if c < 0x80 {
        out.push(c as u8);
    } else if c < 0x800 {
        out.push((c >> 8u32) as u8);
        out.push(c as u8);
    } else if c < 0x10000 {
        out.push(0x80u8);
        out.push((c >> 8u32) as u8);
        out.push(c as u8);
    } else {
        out.push(0x08u8);
        out.push((c >> 16u32) as u8);
        out.push((c >> 8u32) as u8);
        out.push(c as u8);
    }
    assert(out@ =~= old(out)@ + ti_char(c));
}

/// Re-encodes a text for the calculator: a leading byte order mark is
/// dropped and each code point is written as `ti_char` gives it.
pub fn escape_unicode(input: &str) -> (r: Result<Vec<u8>, XMLError>)
    ensures
        r matches Ok(v) && v@ == ti_escaped(encode_utf8(input@)),
{
    let bytes = input.as_bytes();
    let ghost b = bytes@;
    let n = bytes.len();
    let start: usize = if n >= 3 && bytes[0] == 0xEF && bytes[1] == 0xBB && bytes[2] == 0xBF {
        3
    } else {
        0
    };
    let mut result: Vec<u8> = Vec::new();
    let mut i = start;
    while i < n
        invariant
            b == bytes@,
            n == b.len(),
            start <= i <= n,
            result@ + ti_escape_from(b, i as int) == ti_escaped(b),
        decreases n - i,
    {
        let (c, next) = match utf8_to_unicode(bytes, i) {
            Ok(p) => p,
            Err(e) => return Err(e),
        };
        let ghost before = result@;
        push_ti_char(&mut result, c);
        assert(result@ + ti_escape_from(b, next as int) =~= before + ti_escape_from(b, i as int));
        i = next;
    }
    assert(result@ =~= ti_escaped(b));
    Ok(result)
}

} // verus!
