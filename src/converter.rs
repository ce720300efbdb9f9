//! The conversion pipeline: template, compress, pad, protect, and pack the
//! entries into an archive. Each conversion returns the archive bytes;
//! storing them is the caller's business.

use vstd::prelude::*;
use vstd::string::StringExecFns;
use vstd::utf8::encode_utf8;
use crate::compression::{compress_xml, raw_deflate, CompressionError};
use crate::des::{encrypt_document, protected, DESError};
use crate::tns_writer::{
    archive, build_tns_archive, crc32, crc32_of, entry_views, EntryView, TnsFileEntry, DEFLATE_METHOD,
    TI_ENCRYPTED_METHOD,
};
use crate::xml::{
    cdata_fixed, create_default_document_xml, text_lua, text_to_lua_script, get_ti_encrypted_header, wrap_lua_script,
    wrap_python_script, ScriptType, XMLError, DEFAULT_DOCUMENT_XML, LUA_FOOTER, LUA_HEADER,
    MAX_PYTHON_FILENAME, PY_FOOTER, PY_HEADER, TI_ENCRYPTED_HEADER,
};

verus! {

#[derive(Debug)]
pub enum ConversionError {
    Xml(XMLError),
    Compression(CompressionError),
    Des(DESError),
    Zip(String),
    Io(std::io::Error),
    InvalidInput(String),
}

/// `data` followed by zero bytes up to the next multiple of 8.
pub open spec fn zero_padded(data: Seq<u8>) -> Seq<u8> {
    data + Seq::new(((8 - data.len() % 8) % 8) as nat, |i: int| 0u8)
}

/// A protected problem entry body: the fixed header, then the padded and
/// protected compressed bytes.
pub open spec fn protected_problem(compressed: Seq<u8>) -> Seq<u8> {
    TI_ENCRYPTED_HEADER@ + protected(zero_padded(compressed))
}

pub open spec fn protected_entry(name: Seq<char>, data: Seq<u8>) -> EntryView {
    EntryView {
        name: encode_utf8(name),
        data,
        method: TI_ENCRYPTED_METHOD,
        uncompressed_size: None,
        crc32: None,
    }
}

pub open spec fn document_entry() -> EntryView {
    protected_entry("Document.xml"@, DEFAULT_DOCUMENT_XML@)
}

pub open spec fn problem_entry(problem: Seq<u8>) -> EntryView {
    protected_entry("Problem1.xml"@, problem)
}

/// The deflated companion entry: stored as compressed, with the original
/// length and the checksum of the original bytes.
pub open spec fn companion_entry(name: Seq<char>, content: Seq<u8>) -> EntryView {
    EntryView {
        name: encode_utf8(name),
        data: raw_deflate(content),
        method: DEFLATE_METHOD,
        uncompressed_size: Some(content.len() as u32),
        crc32: Some(crc32_of(content)),
    }
}

/// The archive of a Lua document whose problem entry holds `problem`.
pub open spec fn lua_archive(problem: Seq<u8>) -> Seq<u8> {
    archive(seq![document_entry(), problem_entry(problem)], false)
}

/// The archive of a Python document: document, problem, then the script.
pub open spec fn python_archive(problem: Seq<u8>, name: Seq<char>, content: Seq<u8>) -> Seq<u8> {
    archive(seq![document_entry(), problem_entry(problem), companion_entry(name, content)], false)
}

/// The problem bytes of a Lua script.
pub open spec fn lua_problem_xml(script: Seq<char>) -> Seq<u8> {
    LUA_HEADER@ + encode_utf8(cdata_fixed(script)) + LUA_FOOTER@
}

/// The problem bytes that reference a Python file.
pub open spec fn python_problem_xml(name: Seq<char>) -> Seq<u8> {
    PY_HEADER@ + encode_utf8(name) + PY_FOOTER@
}

/// The whole archive of a Lua script.
pub open spec fn lua_tns(script: Seq<char>) -> Seq<u8> {
    lua_archive(protected_problem(raw_deflate(lua_problem_xml(script))))
}

/// The whole archive of a Python script stored under `name`.
pub open spec fn python_tns(script: Seq<char>, name: Seq<char>) -> Seq<u8> {
    python_archive(
        protected_problem(raw_deflate(python_problem_xml(name))),
        name,
        encode_utf8(script),
    )
}

/// Pads `data` with zero bytes to a multiple of 8.
pub fn pad_to_8_bytes(data: Vec<u8>) -> (r: Vec<u8>)
    ensures
        r@ == zero_padded(data@),
        r@.len() % 8 == 0,
{
    let mut data = data;
    let remainder = data.len() % 8;
    if remainder != 0 {
        let padding = 8 - remainder;
        let ghost d0 = data@;
        let mut k: usize = 0;
        while k < padding
            invariant
                padding == 8 - d0.len() % 8,
                k <= padding,
                data@ == d0 + Seq::new(k as nat, |i: int| 0u8),
            decreases padding - k,
        {
            data.push(0u8);
            assert(data@ =~= d0 + Seq::new((k + 1) as nat, |i: int| 0u8));
            k += 1;
        }
        assert(data@ =~= zero_padded(d0));
    } else {
        assert(data@ =~= zero_padded(data@));
    }
    data
}

/// Pads the compressed problem, protects it, and puts the fixed header in
/// front of it.
pub fn protect_problem(compressed: Vec<u8>) -> (r: Vec<u8>)
    ensures
        r@ == protected_problem(compressed@),
{
    let mut padded = pad_to_8_bytes(compressed);
    // The padded length is a multiple of 8, so protection cannot fail.
    let res = encrypt_document(&mut padded);
    match res {
        Ok(()) => {},
        Err(_) => {
            assert(false);
        },
    }
    let mut problem_data: Vec<u8> = Vec::new();
    problem_data.extend_from_slice(get_ti_encrypted_header());
    problem_data.extend_from_slice(padded.as_slice());
    problem_data
}

/// Packs the document and problem entries into an archive.
pub fn create_tns_archive(document_xml: &[u8], problem_xml: &[u8], _problem_name: &str) -> (r: Vec<u8>)
    ensures
        r@ == archive(
            seq![
                protected_entry("Document.xml"@, document_xml@),
                protected_entry("Problem1.xml"@, problem_xml@),
            ],
            false,
        ),
{
    let mut entries: Vec<TnsFileEntry> = Vec::new();
    entries.push(TnsFileEntry::new_ti_encrypted("Document.xml", slice_to_vec_u8(document_xml)));
    entries.push(TnsFileEntry::new_ti_encrypted("Problem1.xml", slice_to_vec_u8(problem_xml)));
    let r = build_tns_archive(&entries, false);
    assert(entry_views(entries@) =~= seq![
        protected_entry("Document.xml"@, document_xml@),
        protected_entry("Problem1.xml"@, problem_xml@),
    ]);
    r
}

fn slice_to_vec_u8(s: &[u8]) -> (r: Vec<u8>)
    ensures
        r@ == s@,
{
    let mut v: Vec<u8> = Vec::new();
    v.extend_from_slice(s);
    v
}

/// Packs the document and problem entries and the deflated Python script
/// into an archive.
pub fn create_tns_archive_with_python(
    document_xml: &[u8],
    problem_xml: &[u8],
    python_filename: &str,
    python_content: &[u8],
) -> (r: Result<Vec<u8>, ConversionError>)
    ensures
        r is Ok,
        r matches Ok(b) && b@ == archive(
            seq![
                protected_entry("Document.xml"@, document_xml@),
                protected_entry("Problem1.xml"@, problem_xml@),
                companion_entry(python_filename@, python_content@),
            ],
            false,
        ),
{
    let compressed_python = match compress_xml(python_content) {
        Ok(c) => c,
        Err(e) => return Err(ConversionError::Compression(e)),
    };
    let python_crc = crc32(python_content);
    let mut entries: Vec<TnsFileEntry> = Vec::new();
    entries.push(TnsFileEntry::new_ti_encrypted("Document.xml", slice_to_vec_u8(document_xml)));
    entries.push(TnsFileEntry::new_ti_encrypted("Problem1.xml", slice_to_vec_u8(problem_xml)));
    entries.push(
        TnsFileEntry::new_deflated(
            python_filename,
            compressed_python,
            python_content.len() as u32,
            python_crc,
        ),
    );
    let r = build_tns_archive(&entries, false);
    assert(entry_views(entries@) =~= seq![
        protected_entry("Document.xml"@, document_xml@),
        protected_entry("Problem1.xml"@, problem_xml@),
        companion_entry(python_filename@, python_content@),
    ]);
    Ok(r)
}

/// Runs the conversions. It holds no state: each conversion stands alone.
pub struct Converter;

impl Converter {
    pub fn new() -> (r: Self)
        ensures
            r == Converter,
    {
        Converter
    }

    /// The archive of a script of the given kind, read from a file named
    /// `script_filename` (the name under which a Python script is stored).
    pub fn convert_to_tns(
        &self,
        script_content: &str,
        script_filename: &str,
        script_type: ScriptType,
        _encrypt: bool,
    ) -> (r: Result<Vec<u8>, ConversionError>)
        ensures
            script_type == ScriptType::Lua ==> (r matches Ok(b) && b@ == lua_tns(script_content@)),
            script_type == ScriptType::Python && encode_utf8(script_filename@).len()
                > MAX_PYTHON_FILENAME ==> (r matches Err(ConversionError::InvalidInput(_))),
            script_type == ScriptType::Python && encode_utf8(script_filename@).len()
                <= MAX_PYTHON_FILENAME ==> (r matches Ok(b) && b@ == python_tns(
                script_content@,
                script_filename@,
            )),
    {
        match script_type {
            ScriptType::Lua => self.convert_lua_to_tns(script_content, ""),
            ScriptType::Python => self.convert_python_to_tns(script_content, script_filename, ""),
        }
    }

    /// The archive of a Lua script: the default document, and the problem
    /// that holds the script, deflated and protected.
    pub fn convert_lua_to_tns(&self, lua_script: &str, document_name: &str) -> (r: Result<Vec<u8>, ConversionError>)
        ensures
            r is Ok,
            r matches Ok(b) && b@ == lua_tns(lua_script@),
    {
        let script_xml = match wrap_lua_script(lua_script, document_name) {
            Ok(x) => x,
            Err(e) => return Err(ConversionError::Xml(e)),
        };
        let compressed = match compress_xml(script_xml.as_slice()) {
            Ok(c) => c,
            Err(e) => return Err(ConversionError::Compression(e)),
        };
        let problem_data = protect_problem(compressed);
        let document_xml = create_default_document_xml();
        Ok(create_tns_archive(document_xml, problem_data.as_slice(), "Problem1.xml"))
    }

    /// The archive of a Python script stored under `python_filename`: the
    /// default document, the protected problem that references the file,
    /// and the deflated script. A file name over 240 bytes is refused.
    pub fn convert_python_to_tns(
        &self,
        python_script: &str,
        python_filename: &str,
        document_name: &str,
    ) -> (r: Result<Vec<u8>, ConversionError>)
        ensures
            encode_utf8(python_filename@).len() > MAX_PYTHON_FILENAME ==> (r matches Err(
                ConversionError::InvalidInput(_),
            )),
            encode_utf8(python_filename@).len() <= MAX_PYTHON_FILENAME ==> (r matches Ok(b) && b@
                == python_tns(python_script@, python_filename@)),
    {
        let python_xml = match wrap_python_script(python_filename, document_name) {
            Ok(x) => x,
            Err(XMLError::InvalidContent(m)) => return Err(ConversionError::InvalidInput(m)),
            Err(e) => return Err(ConversionError::Xml(e)),
        };
        let compressed = match compress_xml(python_xml.as_slice()) {
            Ok(c) => c,
            Err(e) => return Err(ConversionError::Compression(e)),
        };
        let problem_data = protect_problem(compressed);
        let document_xml = create_default_document_xml();
        create_tns_archive_with_python(
            document_xml,
            problem_data.as_slice(),
            python_filename,
            python_script.as_bytes(),
        )
    }

    /// The archive of a plain-text note: the note becomes a Lua script that
    /// shows it, which is then converted as a Lua script.
    pub fn convert_text_to_tns(&self, text: &str, document_name: &str) -> (r: Result<Vec<u8>, ConversionError>)
        ensures
            r is Ok,
            r matches Ok(b) && b@ == lua_tns(text_lua(text@)),
    {
        let lua_script = text_to_lua_script(text);
        self.convert_lua_to_tns(lua_script.as_str(), document_name)
    }

    /// Reading archives back is not supported: always an error.
    pub fn extract_from_tns(&self, _tns: &[u8]) -> (r: Result<Vec<u8>, ConversionError>)
        ensures
            r matches Err(ConversionError::InvalidInput(_)),
    {
        Err(ConversionError::InvalidInput(String::from_str("extraction from archives is not supported")))
    }
}

impl Default for Converter {
    fn default() -> (r: Self)
        ensures
            r == Converter,
    {
        Converter::new()
    }
}

/// Conversion depends on the script alone: one script always converts to
/// one and the same archive.
pub proof fn lemma_lua_conversion_deterministic(a: Seq<char>, b: Seq<char>)
    requires
        a == b,
    ensures
        lua_tns(a) == lua_tns(b),
{
}

} // verus!
