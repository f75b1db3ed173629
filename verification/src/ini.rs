//! The boundary to the `configparser` crate. Everything here is taken on
//! trust: each contract restates what the crate's source does for a
//! case-sensitive parser with the crate's default settings, built with the
//! crate's `indexmap` feature, so that sections and keys keep the order in
//! which they were inserted.

use vstd::prelude::*;
use crate::model::{value_of, well_keyed, with_value, written};

verus! {

/// `configparser::ini::Ini`, carried as a value that only the functions below
/// look into.
#[verifier::external_type_specification]
#[verifier::external_body]
pub struct ExIni(configparser::ini::Ini);

/// The sections that a parser holds, in insertion order, each with its keys
/// in insertion order.
pub uninterp spec fn ini_contents(ini: configparser::ini::Ini) -> Seq<
    (Seq<char>, Seq<(Seq<char>, Option<Seq<char>>)>),
>;

/// The parser was made by `Ini::new_cs` and its settings were never changed:
/// names are compared as written, and a lookup never falls back to the
/// default section.
pub uninterp spec fn ini_case_sensitive(ini: configparser::ini::Ini) -> bool;

/// What a case-sensitive parser with default settings makes of a text;
/// `None` where it rejects the text.
pub uninterp spec fn ini_parsed(text: Seq<char>) -> Option<
    Seq<(Seq<char>, Seq<(Seq<char>, Option<Seq<char>>)>)>,
>;

/// `Ini::new_cs`: an empty, case-sensitive parser.
#[verifier::external_body]
pub(crate) fn ini_new_cs() -> (ini: configparser::ini::Ini)
    ensures
        ini_case_sensitive(ini),
        ini_contents(ini) == Seq::<(Seq<char>, Seq<(Seq<char>, Option<Seq<char>>)>)>::empty(),
{
    configparser::ini::Ini::new_cs()
}

/// `Ini::read`: parses `text` and, where that succeeds, replaces what the
/// parser held; a rejected text leaves the parser as it was. The maps behind
/// the parser never file a key twice. A text without any character is
/// accepted and holds no section.
#[verifier::external_body]
pub(crate) fn ini_read(ini: &mut configparser::ini::Ini, text: &str) -> (accepted: bool)
    requires
        ini_case_sensitive(*old(ini)),
    ensures
        ini_case_sensitive(*final(ini)),
        accepted == ini_parsed(text@).is_some(),
        accepted ==> ini_contents(*final(ini)) == ini_parsed(text@).unwrap(),
        accepted ==> well_keyed(ini_contents(*final(ini))),
        !accepted ==> ini_contents(*final(ini)) == ini_contents(*old(ini)),
        text@.len() == 0 ==> accepted && ini_contents(*final(ini)).len() == 0,
{
    ini.read(text.to_string()).is_ok()
}

/// `Ini::sections`: the section names in insertion order.
#[verifier::external_body]
pub(crate) fn ini_sections(ini: &configparser::ini::Ini) -> (names: Vec<String>)
    ensures
        names@.len() == ini_contents(*ini).len(),
        forall|i: int| 0 <= i < names@.len() ==> (#[trigger] names@[i])@ == ini_contents(*ini)[i].0,
{
    ini.sections()
}

/// `Ini::get`: the value stored under `key` of `section`, names compared as
/// written; `None` where the section or the key is missing or the key has no
/// value.
#[verifier::external_body]
pub(crate) fn ini_get(ini: &configparser::ini::Ini, section: &str, key: &str) -> (value: Option<
    String,
>)
    requires
        ini_case_sensitive(*ini),
        well_keyed(ini_contents(*ini)),
    ensures
        value.is_some() == value_of(ini_contents(*ini), section@, key@).is_some(),
        value.is_some() ==> value.unwrap()@ == value_of(
            ini_contents(*ini),
            section@,
            key@,
        ).unwrap(),
{
    ini.get(section, key)
}

/// `Ini::set`: stores `value` under `key` of `section`. An existing section
/// and an existing key keep their places; a new key goes to the end of its
/// section and a new section to the end of the document.
#[verifier::external_body]
pub(crate) fn ini_set(ini: &mut configparser::ini::Ini, section: &str, key: &str, value: String)
    requires
        ini_case_sensitive(*old(ini)),
        well_keyed(ini_contents(*old(ini))),
    ensures
        ini_case_sensitive(*final(ini)),
        ini_contents(*final(ini)) == with_value(
            ini_contents(*old(ini)),
            section@,
            key@,
            Some(value@),
        ),
{
    ini.set(section, key, Some(value));
}

/// `Ini::writes`: the document as text. The keys of the section `default`
/// come first, without a header; then each other section in order, its name
/// in brackets on a line of its own, and below it one line per key: the key,
/// and `=` with the value where there is one. Every line ends as the target
/// platform ends lines: in `\r\n` on Windows, in `\n` elsewhere.
#[verifier::external_body]
pub(crate) fn ini_writes(ini: &configparser::ini::Ini) -> (text: String)
    requires
        ini_case_sensitive(*ini),
        well_keyed(ini_contents(*ini)),
    ensures
        written(ini_contents(*ini), text@),
{
    ini.writes()
}

} // verus!
