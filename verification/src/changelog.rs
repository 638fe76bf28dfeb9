//! The changelog command: version selection from the command's optional
//! argument and the lookup and listing of the known versions.

use vstd::prelude::*;
use vstd::string::*;
use crate::interaction::{CommandError, CommandOption, OptionValue};
use crate::text::{spec_join, str_eq};

verus! {

/// The recorded changes of one released version.
pub struct ChangelogEntry {
    /// The version key.
    pub version: String,
    /// Lines describing what is new, absent where nothing is.
    pub new_entries: Option<Vec<String>>,
    /// Lines describing what changed.
    pub updated_entries: Option<Vec<String>>,
    /// Lines describing what was removed.
    pub removed_entries: Option<Vec<String>>,
}

/// The known versions with their recorded changes, in display order.
pub struct Changelog {
    pub entries: Vec<ChangelogEntry>,
}

/// Whether some entry carries this version key.
pub open spec fn spec_has_version(entries: Seq<ChangelogEntry>, version: Seq<char>) -> bool {
    exists|i: int| 0 <= i < entries.len() && #[trigger] entries[i].version@ == version
}

impl Changelog {
    /// The position of the entry for `version`, if one exists.
    pub fn find_version(&self, version: &str) -> (r: Option<usize>)
        ensures
            match r {
                Some(i) => i < self.entries@.len() && self.entries@[i as int].version@ == version@
                    && forall|j: int| 0 <= j < i ==> self.entries@[j].version@ != version@,
                None => !spec_has_version(self.entries@, version@),
            },
    {
        let mut i: usize = 0;
        while i < self.entries.len()
            invariant
                i <= self.entries@.len(),
                forall|j: int| 0 <= j < i ==> self.entries@[j].version@ != version@,
            decreases self.entries@.len() - i,
        {
            if str_eq(self.entries[i].version.as_str(), version) {
                return Some(i);
            }
            i += 1;
        }
        None
    }

    /// Whether `version` is a known version key.
    pub fn known_version(&self, version: &str) -> (r: bool)
        ensures
            r == spec_has_version(self.entries@, version@),
    {
        self.find_version(version).is_some()
    }

    /// The known version keys, in display order.
    pub fn version_keys(&self) -> (r: Vec<String>)
        ensures
            r@.len() == self.entries@.len(),
            forall|i: int| 0 <= i < r@.len() ==> r@[i]@ == self.entries@[i].version@,
    {
        let mut out: Vec<String> = Vec::new();
        let mut i: usize = 0;
        while i < self.entries.len()
            invariant
                i <= self.entries@.len(),
                out@.len() == i,
                forall|j: int| 0 <= j < i ==> out@[j]@ == self.entries@[j].version@,
            decreases self.entries@.len() - i,
        {
            out.push(self.entries[i].version.clone());
            i += 1;
        }
        out
    }

    /// The text of the version listing: each known version key on a line
    /// of its own under the heading.
    pub fn version_list_text(&self) -> (s: String)
        ensures
            s@ == "Available versions:\n"@ + spec_join(
                self.entries@.map_values(|e: ChangelogEntry| e.version@),
                "\n"@,
            ),
    {
        let keys = self.version_keys();
        let joined = crate::text::join_lines(&keys);
        proof {
            assert(keys@.map_values(|p: String| p@) =~= self.entries@.map_values(
                |e: ChangelogEntry| e.version@,
            ));
        }
        let mut s = String::from_str("Available versions:\n");
        s.append(joined.as_str());
        s
    }
}

/// The version the changelog command presents, given its option list: no
/// option defaults to the running build's version; the `version` option
/// accepts `list` or a known version key and falls back to the build's
/// version on anything unknown. An option of the wrong value type is a
/// command failure.
pub open spec fn spec_select_version(
    options: Seq<CommandOption>,
    entries: Seq<ChangelogEntry>,
    current: Seq<char>,
) -> Option<Seq<char>> {
    if options.len() == 0 {
        Some(current)
    } else if options[0].name@ != "version"@ {
        Some(current)
    } else {
        match options[0].value {
            OptionValue::StrVal(s) => {
                if s@ == "list"@ || spec_has_version(entries, s@) {
                    Some(s@)
                } else {
                    Some(current)
                }
            },
            _ => None,
        }
    }
}

/// Selects the version that the changelog response presents.
pub fn select_version(
    options: &Vec<CommandOption>,
    changelog: &Changelog,
    current: &str,
) -> (r: Result<String, CommandError>)
    ensures
        match r {
            Ok(s) => spec_select_version(options@, changelog.entries@, current@) == Some(s@),
            Err(e) => e == CommandError::WrongOptionType && spec_select_version(
                options@,
                changelog.entries@,
                current@,
            ) is None,
        },
{
    if options.len() == 0 {
        return Ok(current.to_owned());
    }
    let first = &options[0];
    if !str_eq(first.name.as_str(), "version") {
        return Ok(current.to_owned());
    }
    match &first.value {
        OptionValue::StrVal(s) => {
            if str_eq(s.as_str(), "list") || changelog.known_version(s.as_str()) {
                Ok(s.clone())
            } else {
                Ok(current.to_owned())
            }
        },
        _ => Err(CommandError::WrongOptionType),
    }
}

/// The changelog shipped with this build: the known version keys in
/// display order.
pub fn builtin_changelog() -> (c: Changelog)
    ensures
        c.entries@.len() == 2,
        c.entries@[0].version@ == "0.1.0"@,
        c.entries@[1].version@ == "0.2.0"@,
{
    let mut entries: Vec<ChangelogEntry> = Vec::new();
    entries.push(
        ChangelogEntry {
            version: String::from_str("0.1.0"),
            new_entries: None,
            updated_entries: None,
            removed_entries: None,
        },
    );
    entries.push(
        ChangelogEntry {
            version: String::from_str("0.2.0"),
            new_entries: None,
            updated_entries: None,
            removed_entries: None,
        },
    );
    Changelog { entries }
}

} // verus!
