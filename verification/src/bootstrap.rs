//! The backend that manages the backends themselves: each backend is a crate
//! among the program's dependencies and a line in the list of backends that
//! the program is built with. Here is what that backend computes; running
//! the build tool and reading and writing the list is left to the caller.

use vstd::prelude::*;
use vstd::string::StringExecFns;
use crate::keyed::Key;
use crate::text::joined;
use crate::text::lines_of;
use crate::text::lowercase_of;
use crate::text::texts_of;
use crate::text::trim_of;
use crate::text::join_lines;
use crate::text::lines;
use crate::text::lowercase;
use crate::text::same_text;
use crate::text::trim;

verus! {

/// All matches of a pattern in a text, as the crate `regex` finds them from
/// left to right: for each match its groups, the whole match first, `None`
/// for a group that took no part. `None` where the pattern is no regular
/// expression.
pub uninterp spec fn captures_of(pattern: Seq<char>, text: Seq<char>) -> Option<Seq<Seq<Option<Seq<char>>>>>;

/// The groups of each match as the contracts see them.
pub open spec fn groups_of(found: Seq<Vec<Option<String>>>) -> Seq<Seq<Option<Seq<char>>>> {
    Seq::new(
        found.len(),
        |i: int|
            Seq::new(
                found[i]@.len(),
                |j: int|
                    match found[i]@[j] {
                        Some(text) => Some(text@),
                        None => None,
                    },
            ),
    )
}

/// `regex::Regex::new` and `regex::Regex::captures_iter`: all matches of the
/// pattern in the text with their groups, as `regex::Captures::iter` walks
/// them. The contract claims only that the outcome depends on the pattern
/// and the text alone.
#[verifier::external_body]
pub(crate) fn captures(pattern: &str, text: &str) -> (found: Option<Vec<Vec<Option<String>>>>)
    ensures
        match found {
            Some(matches) => captures_of(pattern@, text@) == Some(groups_of(matches@)),
            None => captures_of(pattern@, text@) is None,
        },
{
    let compiled = regex::Regex::new(pattern).ok()?;
    Some(
        compiled
            .captures_iter(text)
            .map(|found| found.iter().map(|group| group.map(|m| m.as_str().to_owned())).collect())
            .collect(),
    )
}

/// The pattern that finds a backend's crate and its version in the build
/// tool's dependency tree.
pub open spec fn tree_pattern() -> Seq<char> {
    r"(?ms).{3}\sdarling-(\w+)\s(\S+)"@
}

/// The name of the backend that manages the backends.
pub open spec fn bootstrap_name() -> Seq<char> {
    "module"@
}

/// Holds for the backends that come with the program.
pub open spec fn official(name: Seq<char>) -> bool {
    name == "arch"@ || name == "cargo"@ || name == "module"@ || name == "npm"@ || name
        == "vscode"@
}

/// The crate that holds the backend `name`.
pub open spec fn crate_of(name: Seq<char>) -> Seq<char> {
    "darling-"@ + name
}

/// The line that stands for the backend `name` in the list of backends,
/// without its indentation.
pub open spec fn line_of(name: Seq<char>) -> Seq<char> {
    "&darling_"@ + name + "::PACKAGE_MANAGER,"@
}

/// The lines of the list of backends with `name` added as its last backend:
/// the closing line makes room for the new line and follows it.
pub open spec fn with_line(list: Seq<Seq<char>>, name: Seq<char>) -> Seq<Seq<char>> {
    list.drop_last().push("\t"@ + line_of(name)).push("]"@)
}

/// The lines of the list of backends without the lines that stand for
/// `name`.
pub open spec fn without_line(list: Seq<Seq<char>>, name: Seq<char>) -> Seq<Seq<char>>
    decreases list.len(),
{
    if list.len() == 0 {
        list
    } else if trim_of(list.last()) == line_of(name) {
        without_line(list.drop_last(), name)
    } else {
        without_line(list.drop_last(), name).push(list.last())
    }
}

/// The backend and its version that one match in the dependency tree stands
/// for: none for the crate `api`, which every backend depends on, and none
/// for a match that lacks a group.
pub open spec fn module_of(groups: Seq<Option<Seq<char>>>) -> Option<(Key, Seq<char>)> {
    if groups.len() >= 3 && groups[1] is Some && groups[2] is Some && groups[1]->Some_0 != "api"@ {
        Some((groups[1]->Some_0, groups[2]->Some_0))
    } else {
        None
    }
}

/// The backends and their versions that the matches stand for, in order.
pub open spec fn modules_of(found: Seq<Seq<Option<Seq<char>>>>) -> Seq<(Key, Seq<char>)>
    decreases found.len(),
{
    if found.len() == 0 {
        Seq::empty()
    } else if module_of(found.last()) is Some {
        modules_of(found.drop_last()).push(module_of(found.last())->Some_0)
    } else {
        modules_of(found.drop_last())
    }
}

/// Each pair of texts as the contracts see it.
pub open spec fn named_versions(pairs: Seq<(String, String)>) -> Seq<(Key, Seq<char>)> {
    Seq::new(pairs.len(), |i: int| (pairs[i].0@, pairs[i].1@))
}

/// The backend that manages the backends.
pub struct Darling;

impl Darling {
    /// The backend's name.
    pub fn name() -> (name: String)
        ensures
            name@ == bootstrap_name(),
    {
        "module".to_owned()
    }

    /// Whether the backend `name` comes with the program. Any other is made
    /// by someone else, and the user is asked before it is installed.
    pub fn is_official(name: &str) -> (yes: bool)
        ensures
            yes == official(name@),
    {
        same_text(name, "arch") || same_text(name, "cargo") || same_text(name, "module")
            || same_text(name, "npm") || same_text(name, "vscode")
    }

    /// Whether `answer`, as typed by the user, agrees to an installation:
    /// it does where it is the letter y, in either case, with white space
    /// around it at most.
    pub fn confirms(answer: &str) -> (yes: bool)
        ensures
            yes == (lowercase_of(trim_of(answer@)) == "y"@),
    {
        let lowered = lowercase(trim(answer));
        same_text(lowered.as_str(), "y")
    }

    /// The name of the crate that holds the backend `name`.
    pub fn crate_name(name: &str) -> (full: String)
        ensures
            full@ == crate_of(name@),
    {
        String::from_str("darling-").concat(name)
    }

    /// The line that stands for the backend `name` in the list of backends,
    /// without its indentation.
    pub fn module_line(name: &str) -> (line: String)
        ensures
            line@ == line_of(name@),
    {
        String::from_str("&darling_").concat(name).concat("::PACKAGE_MANAGER,")
    }

    /// The lines of the list of backends with the backend `name` added.
    /// There is nothing to add to where the list has no line at all.
    pub fn add_line(list: Vec<String>, name: &str) -> (added: Option<Vec<String>>)
        ensures
            match added {
                Some(lines) => list@.len() > 0 && texts_of(lines@) == with_line(
                    texts_of(list@),
                    name@,
                ),
                None => list@.len() == 0,
            },
    {
        let mut lines = list;
        if lines.len() == 0 {
            return None;
        }
        lines.pop();
        let ghost kept = texts_of(lines@);
        assert(kept =~= texts_of(list@).drop_last());
        lines.push(String::from_str("\t").concat(Darling::module_line(name).as_str()));
        lines.push("]".to_owned());
        assert(texts_of(lines@) =~= with_line(texts_of(list@), name@));
        Some(lines)
    }

    /// The list of backends, as text, with the backend `name` added.
    pub fn with_module(module_file: &str, name: &str) -> (added: Option<String>)
        ensures
            match added {
                Some(text) => lines_of(module_file@).len() > 0 && text@ == joined(
                    with_line(lines_of(module_file@), name@),
                ),
                None => lines_of(module_file@).len() == 0,
            },
    {
        let list = lines(module_file);
        assert(texts_of(list@).len() == list@.len());
        match Darling::add_line(list, name) {
            Some(added) => Some(join_lines(&added)),
            None => None,
        }
    }

    /// The list of backends, as text, without the lines that stand for the
    /// backend `name`.
    pub fn without_module(module_file: &str, name: &str) -> (kept: String)
        ensures
            kept@ == joined(without_line(lines_of(module_file@), name@)),
    {
        let list = lines(module_file);
        let line = Darling::module_line(name);
        let mut kept: Vec<String> = Vec::new();
        let mut i: usize = 0;
        let ghost all = texts_of(list@);
        assert(all.take(0) =~= Seq::<Seq<char>>::empty());
        assert(texts_of(kept@) =~= without_line(all.take(0), name@));
        while i < list.len()
            invariant
                i <= list.len(),
                all == texts_of(list@),
                line@ == line_of(name@),
                texts_of(kept@) == without_line(all.take(i as int), name@),
            decreases list.len() - i,
        {
            proof {
                let next = all.take(i as int + 1);
                assert(next.drop_last() =~= all.take(i as int));
                assert(next.last() == list@[i as int]@);
            }
            if !same_text(trim(list[i].as_str()), line.as_str()) {
                let ghost before = texts_of(kept@);
                kept.push(list[i].clone());
                assert(texts_of(kept@) =~= before.push(list@[i as int]@));
            }
            i += 1;
        }
        assert(all.take(i as int) =~= all);
        join_lines(&kept)
    }

    /// The backends and their versions that the matches of the tree pattern
    /// stand for, in order.
    pub fn modules_from(found: &Vec<Vec<Option<String>>>) -> (modules: Vec<(String, String)>)
        ensures
            named_versions(modules@) == modules_of(groups_of(found@)),
    {
        let mut modules: Vec<(String, String)> = Vec::new();
        let mut i: usize = 0;
        let ghost all = groups_of(found@);
        assert(all.take(0) =~= Seq::<Seq<Option<Seq<char>>>>::empty());
        assert(named_versions(modules@) =~= modules_of(all.take(0)));
        while i < found.len()
            invariant
                i <= found.len(),
                all == groups_of(found@),
                named_versions(modules@) == modules_of(all.take(i as int)),
            decreases found.len() - i,
        {
            proof {
                let next = all.take(i as int + 1);
                assert(next.drop_last() =~= all.take(i as int));
                assert(next.last() == all[i as int]);
                assert(all[i as int].len() == found@[i as int]@.len());
            }
            let groups = &found[i];
            if groups.len() >= 3 {
                proof {
                    assert(all[i as int][1] == match groups@[1] {
                        Some(text) => Some(text@),
                        None => None,
                    });
                    assert(all[i as int][2] == match groups@[2] {
                        Some(text) => Some(text@),
                        None => None,
                    });
                }
                match (&groups[1], &groups[2]) {
                    (Some(name), Some(version)) => {
                        if !same_text(name.as_str(), "api") {
                            let ghost before = named_versions(modules@);
                            modules.push((name.clone(), version.clone()));
                            assert(named_versions(modules@) =~= before.push((name@, version@)));
                        }
                    },
                    _ => {},
                }
            }
            i += 1;
        }
        assert(all.take(i as int) =~= all);
        modules
    }

    /// The backends that are installed, each with its version, as the build
    /// tool's dependency tree shows them. `None` where the tree pattern is
    /// refused as a regular expression.
    pub fn explicit_modules(tree: &str) -> (modules: Option<Vec<(String, String)>>)
        ensures
            match modules {
                Some(pairs) => captures_of(tree_pattern(), tree@) is Some && named_versions(pairs@)
                    == modules_of(captures_of(tree_pattern(), tree@)->Some_0),
                None => captures_of(tree_pattern(), tree@) is None,
            },
    {
        match captures(r"(?ms).{3}\sdarling-(\w+)\s(\S+)", tree) {
            Some(found) => Some(Darling::modules_from(&found)),
            None => None,
        }
    }
}

} // verus!
