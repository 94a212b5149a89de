//! Desktop entries: the keys of a `.desktop` file.
//!
//! The parser is used without its `gettext` feature, which would look default values up in
//! translation catalogues on disk.
use crate::text::{list_view, option_view};
use freedesktop_desktop_entry::{DecodeError, DesktopEntry};
use vstd::prelude::*;

verus! {

/// A parsed `.desktop` file.
#[verifier::external_type_specification]
#[verifier::external_body]
pub struct ExDesktopEntry(freedesktop_desktop_entry::DesktopEntry);

/// Why a `.desktop` file was refused.
#[verifier::external_type_specification]
#[verifier::external_body]
pub struct ExDecodeError(freedesktop_desktop_entry::DecodeError);

/// The keys of the group `[Desktop Entry]` of a parsed file, none where it has no such group. A
/// key has a default value and, by locale, its localized ones.
pub uninterp spec fn entry_keys(entry: DesktopEntry) -> Map<
    Seq<char>,
    (Seq<char>, Map<Seq<char>, Seq<char>>),
>;

/// What `DesktopEntry::from_str` makes of a file: the keys that `entry_keys` gives of its result,
/// or `None` where it refuses the file.
pub uninterp spec fn parsed_keys(
    path: Seq<char>,
    text: Seq<char>,
    locales: Seq<Seq<char>>,
) -> Option<Map<Seq<char>, (Seq<char>, Map<Seq<char>, Seq<char>>)>>;

/// The value of `key` without regard to locales.
pub open spec fn plain_value(
    keys: Map<Seq<char>, (Seq<char>, Map<Seq<char>, Seq<char>>)>,
    key: Seq<char>,
) -> Option<Seq<char>> {
    if keys.contains_key(key) {
        Some(keys[key].0)
    } else {
        None
    }
}

/// The language of a locale: what stands before its first underscore.
pub open spec fn language(locale: Seq<char>) -> Option<Seq<char>> {
    match locale.index_of_first('_') {
        Some(i) => Some(locale.take(i)),
        None => None,
    }
}

/// The value for the first of `locales` that has one, by itself or by its language; the default
/// where none has.
pub open spec fn localized(
    default: Seq<char>,
    values: Map<Seq<char>, Seq<char>>,
    locales: Seq<Seq<char>>,
) -> Seq<char>
    decreases locales.len(),
{
    if locales.len() == 0 {
        default
    } else if values.contains_key(locales[0]) {
        values[locales[0]]
    } else if language(locales[0]) is Some && values.contains_key(language(locales[0])->0) {
        values[language(locales[0])->0]
    } else {
        localized(default, values, locales.drop_first())
    }
}

/// The value of `key` for a user of `locales`, in the order of preference.
pub open spec fn localized_value(
    keys: Map<Seq<char>, (Seq<char>, Map<Seq<char>, Seq<char>>)>,
    key: Seq<char>,
    locales: Seq<Seq<char>>,
) -> Option<Seq<char>> {
    if keys.contains_key(key) {
        Some(localized(keys[key].0, keys[key].1, locales))
    } else {
        None
    }
}

/// Calls `DesktopEntry::from_str`, which parses the text of a `.desktop` file and keeps of its
/// localized values those of the given locales.
///
/// Whether it refuses the file, and the keys that it finds in it, are a function of the path, the
/// text and the locales.
#[verifier::external_body]
pub(crate) fn parse_entry(path: &str, text: &str, locales: &[String]) -> (parsed: Result<
    DesktopEntry,
    DecodeError,
>)
    ensures
        match parsed {
            Ok(entry) => parsed_keys(path@, text@, list_view(locales@)) == Some(entry_keys(entry)),
            Err(_) => parsed_keys(path@, text@, list_view(locales@)) is None,
        },
{
    DesktopEntry::from_str(path, text, Some(locales))
}

/// Calls `DesktopEntry::type_`, which gives the value of the key `Type`.
#[verifier::external_body]
pub(crate) fn entry_type(entry: &DesktopEntry) -> (value: Option<String>)
    ensures
        option_view(value) == plain_value(entry_keys(*entry), "Type"@),
{
    entry.type_().map(str::to_owned)
}

/// Calls `DesktopEntry::no_display`, which tells whether the value of the key `NoDisplay` is the
/// word `true`.
#[verifier::external_body]
pub(crate) fn entry_no_display(entry: &DesktopEntry) -> (yes: bool)
    ensures
        yes == (plain_value(entry_keys(*entry), "NoDisplay"@) == Some("true"@)),
{
    entry.no_display()
}

/// Calls `DesktopEntry::name`, which gives the localized value of the key `Name`.
#[verifier::external_body]
pub(crate) fn entry_name(entry: &DesktopEntry, locales: &[String]) -> (value: Option<String>)
    ensures
        option_view(value) == localized_value(entry_keys(*entry), "Name"@, list_view(locales@)),
{
    entry.name(locales).map(|value| value.into_owned())
}

/// Calls `DesktopEntry::exec`, which gives the value of the key `Exec`.
#[verifier::external_body]
pub(crate) fn entry_exec(entry: &DesktopEntry) -> (value: Option<String>)
    ensures
        option_view(value) == plain_value(entry_keys(*entry), "Exec"@),
{
    entry.exec().map(str::to_owned)
}

/// Calls `DesktopEntry::comment`, which gives the localized value of the key `Comment`.
#[verifier::external_body]
pub(crate) fn entry_comment(entry: &DesktopEntry, locales: &[String]) -> (value: Option<String>)
    ensures
        option_view(value) == localized_value(entry_keys(*entry), "Comment"@, list_view(locales@)),
{
    entry.comment(locales).map(|value| value.into_owned())
}

/// Calls `DesktopEntry::generic_name`, which gives the localized value of the key `GenericName`.
#[verifier::external_body]
pub(crate) fn entry_generic_name(entry: &DesktopEntry, locales: &[String]) -> (value: Option<
    String,
>)
    ensures
        option_view(value) == localized_value(
            entry_keys(*entry),
            "GenericName"@,
            list_view(locales@),
        ),
{
    entry.generic_name(locales).map(|value| value.into_owned())
}

/// Calls `DesktopEntry::icon`, which gives the value of the key `Icon`.
#[verifier::external_body]
pub(crate) fn entry_icon(entry: &DesktopEntry) -> (value: Option<String>)
    ensures
        option_view(value) == plain_value(entry_keys(*entry), "Icon"@),
{
    entry.icon().map(str::to_owned)
}

} // verus!
