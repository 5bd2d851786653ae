//! Access to `prefs.ini` documents through the `ini` crate.
use vstd::prelude::*;

verus! {

#[verifier::external_type_specification]
#[verifier::external_body]
pub struct ExIni(ini::Ini);

#[verifier::external_type_specification]
#[verifier::external_body]
pub struct ExProperties(ini::Properties);

#[verifier::external_type_specification]
#[verifier::external_body]
pub struct ExParseError(ini::ParseError);

/// The entries of one section: each key with the first value given for it.
pub uninterp spec fn property_map(p: ini::Properties) -> Map<Seq<char>, Seq<char>>;

/// The named sections of a document: each name with the entries of the first
/// section of that name.
pub uninterp spec fn section_map(d: ini::Ini) -> Map<Seq<char>, Map<Seq<char>, Seq<char>>>;

/// The sections that a text parses to, or none when it is not a valid document.
pub uninterp spec fn parsed_sections(text: Seq<char>) -> Option<Map<Seq<char>, Map<Seq<char>, Seq<char>>>>;

/// Relies on `ini::Ini::load_from_str`: parses the text of an INI document; the
/// outcome depends on the text alone.
#[verifier::external_body]
pub(crate) fn parse_document(text: &str) -> (r: Result<ini::Ini, ini::ParseError>)
    ensures
        r is Ok <==> parsed_sections(text@) is Some,
        r matches Ok(d) ==> section_map(d) == parsed_sections(text@)->0,
{
    ini::Ini::load_from_str(text)
}

/// Relies on `ini::Ini::section`: the first section named `name`, if the document has one.
#[verifier::external_body]
pub(crate) fn find_section<'a>(doc: &'a ini::Ini, name: &str) -> (r: Option<&'a ini::Properties>)
    ensures
        r is Some <==> section_map(*doc).contains_key(name@),
        r matches Some(p) ==> property_map(*p) == section_map(*doc)[name@],
{
    doc.section(Some(name))
}

/// Relies on `ini::Properties::get`: the first value given for `key` in the section.
#[verifier::external_body]
pub(crate) fn property(p: &ini::Properties, key: &str) -> (r: Option<String>)
    ensures
        r is Some <==> property_map(*p).contains_key(key@),
        r matches Some(v) ==> v@ == property_map(*p)[key@],
{
    match p.get(key) {
        Some(v) => Some(v.to_string()),
        None => None,
    }
}

/// Relies on the `Display` impl of `ini::ParseError`: its line, column and message.
#[verifier::external_body]
pub(crate) fn parse_error_text(e: &ini::ParseError) -> (r: String) {
    e.to_string()
}

} // verus!
