//! The compatibility tag channel: locating the uniquely named metadata
//! section of a compiled module and decoding its bytes into a semantic
//! version, with a distinct failure for every way this can go wrong.

use crate::codec::clone_bytes;
use crate::version::{parse_semver, semver_of, SemVer};
use vstd::prelude::*;
use vstd::string::StringSliceAdditionalSpecFns;

verus! {

/// Failure of the tag channel: no section under the fixed name, several
/// sections under it, bytes that are not UTF-8, or text that is not a
/// semantic version.
#[derive(Debug, PartialEq, Eq, Structural, Clone, Copy)]
pub enum TagError {
    NoSections,
    MultipleSections,
    InvalidUtf8,
    InvalidVersion,
}

impl TagError {
    /// A human-readable description, naming the section looked for.
    pub fn message(&self) -> (r: &'static str)
        ensures
            *self is NoSections ==> r@ == "no sections found in given module"@,
            *self is MultipleSections ==> r@
                == "found multiple sections with name: __holium_sdk_version"@,
            *self is InvalidUtf8 ==> r@ == "could not convert version from bytes"@,
            *self is InvalidVersion ==> r@ == "invalid semantic version in section: __holium_sdk_version"@,
    {
        match self {
            TagError::NoSections => "no sections found in given module",
            TagError::MultipleSections => "found multiple sections with name: __holium_sdk_version",
            TagError::InvalidUtf8 => "could not convert version from bytes",
            TagError::InvalidVersion => "invalid semantic version in section: __holium_sdk_version",
        }
    }
}

/// The fixed name of the metadata section that carries the compatibility
/// tag, as UTF-8 bytes; embed and extract must use it letter for letter.
pub open spec fn tag_section_name() -> Seq<u8> {
    "__holium_sdk_version".spec_bytes()
}

/// The fixed name of the metadata section that carries the compatibility
/// tag.
pub fn version_section_name() -> (r: &'static str)
    ensures
        r.spec_bytes() == tag_section_name(),
{
    "__holium_sdk_version"
}

/// The raw payload that embeds a version into the tag section: the
/// version text's bytes, verbatim.
pub fn version_section_bytes(version: &str) -> (r: Vec<u8>)
    ensures
        r@ == version.spec_bytes(),
{
    let b = version.as_bytes();
    let mut r: Vec<u8> = Vec::new();
    let mut i: usize = 0;
    while i < b.len()
        invariant
            i <= b@.len(),
            b@ == version.spec_bytes(),
            r@ == b@.subrange(0, i as int),
        decreases b@.len() - i,
    {
        r.push(b[i]);
        proof {
            assert(r@ =~= b@.subrange(0, i as int + 1));
        }
        i = i + 1;
    }
    proof {
        assert(r@ =~= b@);
    }
    r
}

/// The custom sections a module holds: for each, its name as UTF-8 bytes
/// and its payload, in the module's own section order.  Relies on sections
/// holding their data: iterating the same module yields the same sections.
pub uninterp spec fn module_sections(m: walrus::Module) -> Seq<(Seq<u8>, Seq<u8>)>;

/// A compiled-module handle whose custom sections the tag channel reads.
#[verifier::external_type_specification]
#[verifier::external_body]
pub struct ExModule(walrus::Module);

/// Relies on walrus's `ModuleCustomSections::iter`: yields every custom
/// section of the module, each with its name and its data.
#[verifier::external_body]
fn custom_sections(m: &walrus::Module) -> (r: Vec<(Vec<u8>, Vec<u8>)>)
    ensures
        r@.len() == module_sections(*m).len(),
        forall|i: int|
            0 <= i < r@.len() ==> (#[trigger] r@[i]).0@ == module_sections(*m)[i].0
                && r@[i].1@ == module_sections(*m)[i].1,
{
    let ids = walrus::IdsToIndices::default();
    m.customs
        .iter()
        .map(|(_, s)| (s.name().as_bytes().to_vec(), s.data(&ids).into_owned()))
        .collect()
}

/// Relies on std's `str::from_utf8`: succeeds exactly on valid UTF-8, and
/// the decoded text is a function of the bytes alone.
#[verifier::external_body]
fn decode_utf8(bytes: &[u8]) -> (r: Option<String>)
    ensures
        match r {
            Some(s) => utf8_chars(bytes@) == Some(s@),
            None => utf8_chars(bytes@) is None,
        },
{
    match std::str::from_utf8(bytes) {
        Ok(s) => Some(s.to_owned()),
        Err(_) => None,
    }
}

/// What decoding bytes as UTF-8 yields: `None` where the bytes are not
/// valid UTF-8, the decoded characters otherwise.
pub uninterp spec fn utf8_chars(b: Seq<u8>) -> Option<Seq<char>>;

/// The payloads of those sections whose name equals `name`, in section
/// order.
pub open spec fn sections_named(all: Seq<(Seq<u8>, Seq<u8>)>, name: Seq<u8>) -> Seq<Seq<u8>>
    decreases all,
{
    if all.len() == 0 {
        Seq::empty()
    } else {
        let rest = sections_named(all.drop_last(), name);
        if all.last().0 == name {
            rest.push(all.last().1)
        } else {
            rest
        }
    }
}

/// Compare two byte strings.
fn bytes_eq(a: &[u8], b: &[u8]) -> (r: bool)
    ensures
        r == (a@ == b@),
{
    if a.len() != b.len() {
        proof {
            assert(a@.len() != b@.len());
        }
        return false;
    }
    let mut i: usize = 0;
    while i < a.len()
        invariant
            i <= a@.len(),
            a@.len() == b@.len(),
            forall|j: int| 0 <= j < i as int ==> a@[j] == b@[j],
        decreases a@.len() - i,
    {
        if a[i] != b[i] {
            proof {
                assert(a@[i as int] != b@[i as int]);
            }
            return false;
        }
        i = i + 1;
    }
    proof {
        assert(a@ =~= b@);
    }
    true
}

/// Extract from a module the payloads of all custom sections bearing the
/// given name, in the module's own section order.
pub fn extract_custom_sections_by_name(wasm_module: &walrus::Module, section_name: &str) -> (r:
    Vec<Vec<u8>>)
    ensures
        ({
            let secs = sections_named(module_sections(*wasm_module), section_name.spec_bytes());
            &&& r@.len() == secs.len()
            &&& forall|i: int| 0 <= i < r@.len() ==> (#[trigger] r@[i])@ == secs[i]
        }),
{
    let all = custom_sections(wasm_module);
    let ghost allv = module_sections(*wasm_module);
    let ghost name = section_name.spec_bytes();
    let want = section_name.as_bytes();
    let mut out: Vec<Vec<u8>> = Vec::new();
    let mut i: usize = 0;
    while i < all.len()
        invariant
            i <= all@.len(),
            want@ == name,
            all@.len() == allv.len(),
            forall|j: int|
                0 <= j < all@.len() ==> (#[trigger] all@[j]).0@ == allv[j].0 && all@[j].1@
                    == allv[j].1,
            ({
                let secs = sections_named(allv.take(i as int), name);
                &&& out@.len() == secs.len()
                &&& forall|j: int| 0 <= j < out@.len() ==> (#[trigger] out@[j])@ == secs[j]
            }),
        decreases all@.len() - i,
    {
        proof {
            assert(allv.take(i as int + 1).drop_last() =~= allv.take(i as int));
            assert(allv.take(i as int + 1).last() == allv[i as int]);
        }
        if bytes_eq(all[i].0.as_slice(), want) {
            out.push(clone_bytes(&all[i].1));
        }
        i = i + 1;
    }
    proof {
        assert(allv.take(allv.len() as int) =~= allv);
    }
    out
}

/// Isolate the single element of a slice: fails when the slice holds none
/// or several.
pub fn try_as_one_section<T>(sections: &[T]) -> (r: Result<&T, TagError>)
    ensures
        match r {
            Ok(x) => sections@.len() == 1 && *x == sections@[0],
            Err(e) => {
                &&& sections@.len() != 1
                &&& sections@.len() == 0 ==> e == TagError::NoSections
                &&& sections@.len() > 1 ==> e == TagError::MultipleSections
            },
        },
{
    let sections_count = sections.len();
    if sections_count > 1 {
        return Err(TagError::MultipleSections);
    }
    if sections_count == 0 {
        return Err(TagError::NoSections);
    }
    Ok(&sections[0])
}

/// Decode the bytes of a version section: UTF-8 first, then a semantic
/// version; each failure is distinct.
pub fn as_semver(version_as_bytes: &[u8]) -> (r: Result<SemVer, TagError>)
    ensures
        match utf8_chars(version_as_bytes@) {
            None => r == Err::<SemVer, TagError>(TagError::InvalidUtf8),
            Some(text) => match semver_of(text) {
                None => r == Err::<SemVer, TagError>(TagError::InvalidVersion),
                Some(v) => r is Ok && r.unwrap()@ == v,
            },
        },
{
    match decode_utf8(version_as_bytes) {
        None => Err(TagError::InvalidUtf8),
        Some(text) => match parse_semver(text.as_str()) {
            None => Err(TagError::InvalidVersion),
            Some(v) => Ok(v),
        },
    }
}

/// Extract from a compiled module the codec version it was built with.
///
/// Succeeds exactly when the module holds one single section under the
/// fixed tag name, its bytes are valid UTF-8 and that text is a valid
/// semantic version; each of the four failures is reported distinctly.
pub fn extract_from_module(wasm_module: &walrus::Module) -> (r: Result<SemVer, TagError>)
    ensures
        ({
            let secs = sections_named(module_sections(*wasm_module), tag_section_name());
            match r {
                Ok(v) => {
                    &&& secs.len() == 1
                    &&& utf8_chars(secs[0]) is Some
                    &&& semver_of(utf8_chars(secs[0]).unwrap()) == Some(v@)
                },
                Err(e) => {
                    &&& e == TagError::NoSections ==> secs.len() == 0
                    &&& e == TagError::MultipleSections ==> secs.len() > 1
                    &&& e == TagError::InvalidUtf8 ==> secs.len() == 1 && utf8_chars(
                        secs[0],
                    ) is None
                    &&& e == TagError::InvalidVersion ==> secs.len() == 1 && utf8_chars(
                        secs[0],
                    ) is Some && semver_of(utf8_chars(secs[0]).unwrap()) is None
                    &&& (e == TagError::NoSections || e == TagError::MultipleSections || e
                        == TagError::InvalidUtf8 || e == TagError::InvalidVersion)
                    &&& secs.len() == 0 ==> e == TagError::NoSections
                    &&& secs.len() > 1 ==> e == TagError::MultipleSections
                },
            }
        }),
{
    let sections = extract_custom_sections_by_name(wasm_module, version_section_name());
    if sections.is_empty() {
        return Err(TagError::NoSections);
    }
    let section = match try_as_one_section(sections.as_slice()) {
        Ok(s) => s,
        Err(e) => {
            return Err(e);
        },
    };
    as_semver(section.as_slice())
}

} // verus!
