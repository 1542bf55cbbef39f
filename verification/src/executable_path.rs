use vstd::prelude::*;

use crate::text::{chars_of, push_str, string_from_chars};

verus! {

/// What `Path::file_name` gives for a path: its final component, if it
/// has one.
pub uninterp spec fn path_file_name(path: Seq<char>) -> Option<Seq<char>>;

/// Whether two paths are equal as `Path`s, that is component by component.
pub uninterp spec fn same_path(a: Seq<char>, b: Seq<char>) -> bool;

/// Whether `part` stands in `whole` as a run of its characters.
pub open spec fn part_of(whole: Seq<char>, part: Seq<char>) -> bool {
    exists|i: int| 0 <= i && i + part.len() <= whole.len() && #[trigger] whole.subrange(i, i + part.len()) == part
}

/// The final component of a path.
/// Calls `Path::file_name`; the contract names the result (`path_file_name`)
/// and claims that a component is never empty, holds no `/` and is a part
/// of the path, as the documentation of `Path::components` says of normal
/// components, and that a normal component alone is its own file name.
#[verifier::external_body]
fn file_name_of(path: &str) -> (result: Option<String>)
    ensures
        result matches Some(name) ==> path_file_name(path@) == Some(name@) && name@.len() > 0
            && !name@.contains('/') && part_of(path@, name@) && path_file_name(name@) == Some(name@),
        result is None ==> path_file_name(path@) is None,
{
    std::path::Path::new(path).file_name().map(|name| name.to_string_lossy().into_owned())
}

/// Whether two paths are equal.
/// Calls `PartialEq::eq` on two `Path`s; the contract names the result
/// (`same_path`) and claims that equal strings are equal paths, since
/// `Path` implements `Eq`, and that equal paths have the same file name,
/// since `Path` compares its components and `Path::file_name` is its last
/// component.
#[verifier::external_body]
fn paths_equal(a: &str, b: &str) -> (result: bool)
    ensures
        result == same_path(a@, b@),
        a@ == b@ ==> result,
        result ==> path_file_name(a@) == path_file_name(b@),
{
    std::path::Path::new(a) == std::path::Path::new(b)
}

/// Looks up an executable by name in the directories of `PATH`.
/// Calls `quale::which`. Whether and where it finds one depends on the
/// environment and the file system, so the contract leaves that open; it
/// claims only what holds of every outcome: `which` returns the path of a
/// directory entry whose file name is the name asked for.
#[verifier::external_body]
fn which(name: &str) -> (result: Option<String>)
    ensures
        result matches Some(path) ==> path_file_name(path@) == Some(name@),
{
    quale::which(name).map(|path| path.to_string_lossy().into_owned())
}

/// Whether `paths` holds a path equal to `path`.
pub fn contains_path(paths: &Vec<String>, path: &str) -> (result: bool)
    ensures
        result == exists|i: int| 0 <= i < paths.len() && same_path(#[trigger] paths[i]@, path@),
        (exists|i: int| 0 <= i < paths.len() && #[trigger] paths[i]@ == path@) ==> result,
{
    let mut i: usize = 0;
    while i < paths.len()
        invariant
            i <= paths.len(),
            forall|j: int| 0 <= j < i ==> !same_path(#[trigger] paths[j]@, path@),
            forall|j: int| 0 <= j < i ==> #[trigger] paths[j]@ != path@,
        decreases paths.len() - i,
    {
        if paths_equal(paths[i].as_str(), path) {
            return true;
        }
        i += 1;
    }
    false
}

/// Where an executable that the test mocks is taken to be found: in `/bin`.
pub open spec fn mocked_location(name: Seq<char>) -> Seq<char> {
    "/bin/"@ + name
}

/// The location of an executable that the test mocks.
fn mocked_location_of(name: &str) -> (result: String)
    ensures
        result@ == mocked_location(name@),
{
    let mut out: Vec<char> = Vec::new();
    push_str(&mut out, "/bin/");
    push_str(&mut out, name);
    proof {
        reveal_strlit("/bin/");
    }
    string_from_chars(&out)
}

/// Looks up an executable by name: mocked executables are found in `/bin`,
/// all others in the directories of `PATH`.
pub fn lookup_executable(mocked_executables: &Vec<String>, name: &str) -> (result: Option<String>)
    ensures
        is_mocked(mocked_executables@, name@) ==> (result matches Some(location) && location@
            == mocked_location(name@)),
        (exists|i: int| 0 <= i < mocked_executables.len() && #[trigger] mocked_executables@[i]@ == name@)
            ==> is_mocked(mocked_executables@, name@),
        !is_mocked(mocked_executables@, name@) ==> (result matches Some(location) ==> path_file_name(
            location@,
        ) == Some(name@)),
{
    if contains_path(mocked_executables, name) {
        Some(mocked_location_of(name))
    } else {
        which(name)
    }
}

/// Whether `name` is one of the mocked executables.
pub open spec fn is_mocked(mocked_executables: Seq<String>, name: Seq<char>) -> bool {
    exists|i: int| 0 <= i < mocked_executables.len() && same_path(#[trigger] mocked_executables[i]@, name)
}

/// The short form of an executable: its file name when looking that name
/// up gave back the executable itself (`resolved`), else the executable
/// unchanged.
pub open spec fn short_form(executable: Seq<char>, name: Seq<char>, resolved: Option<Seq<char>>) -> Seq<
    char,
> {
    match resolved {
        Some(location) => if same_path(location, executable) {
            name
        } else {
            executable
        },
        None => executable,
    }
}

/// Chooses the short form of `executable`, given its file name and where
/// looking that name up led.
pub fn shorten_if_resolved(executable: &str, name: &str, resolved: Option<String>) -> (result: String)
    ensures
        result@ == short_form(
            executable@,
            name@,
            match resolved {
                Some(location) => Some(location@),
                None => None,
            },
        ),
        resolved matches Some(location) && location@ == executable@ ==> result@ == name@,
{
    match resolved {
        Some(location) => {
            if paths_equal(location.as_str(), executable) {
                String::from_str(name)
            } else {
                String::from_str(executable)
            }
        },
        None => String::from_str(executable),
    }
}

/// What holds of the form `shown` in which `canonicalize` shows
/// `executable`, whatever the lookup in `PATH` finds.
pub open spec fn canonical_form(mocked_executables: Seq<String>, executable: Seq<char>, shown: Seq<char>) -> bool {
    &&& part_of(executable, shown)
    &&& (executable.len() > 0 ==> shown.len() > 0)
    &&& shown_form(mocked_executables, executable, shown)
    &&& match path_file_name(executable) {
        None => true,
        Some(name) => {
            &&& path_file_name(name) == Some(name)
            &&& (shown == name && name != executable && !is_mocked(mocked_executables, name) ==> exists|
                location: Seq<char>,
            |
                #![trigger same_path(location, executable)]
                path_file_name(location) == Some(name) && same_path(location, executable))
            &&& ((exists|i: int|
                0 <= i < mocked_executables.len() && #[trigger] mocked_executables[i]@ == name)
                && executable == mocked_location(name) ==> shown == name)
        },
    }
}

/// The form in which `canonicalize` shows `executable` when looking its
/// file name up in `PATH` gives `found`: a mocked executable is looked up
/// in `/bin` instead.
pub open spec fn canonical_given(mocked_executables: Seq<String>, executable: Seq<char>, found: Option<Seq<char>>) -> Seq<
    char,
> {
    match path_file_name(executable) {
        None => executable,
        Some(name) => if is_mocked(mocked_executables, name) {
            short_form(executable, name, Some(mocked_location(name)))
        } else {
            short_form(executable, name, found)
        },
    }
}

/// The form in which an executable is shown: its file name when looking
/// that name up leads back to the executable, else the executable as given.
/// For mocked executables the outcome is determined; for the others it
/// depends on `PATH` and the file system, and is one of the two forms.
pub fn canonicalize(mocked_executables: &Vec<String>, executable: &str) -> (result: String)
    ensures
        canonical_form(mocked_executables@, executable@, result@),
        exists|found: Option<Seq<char>>|
            #[trigger] canonical_given(mocked_executables@, executable@, found) == result@ && (found matches Some(
                location,
            ) ==> path_file_name(location) == path_file_name(executable@)),
{
    assert(executable@.subrange(0, 0 + executable@.len() as int) =~= executable@);
    assert(part_of(executable@, executable@));
    match file_name_of(executable) {
        None => {
            let result = String::from_str(executable);
            assert(canonical_given(mocked_executables@, executable@, None) == result@);
            result
        },
        Some(name) => {
            let resolved = lookup_executable(mocked_executables, name.as_str());
            let ghost found = if resolved is Some {
                Some(resolved->Some_0@)
            } else {
                None
            };
            let result = shorten_if_resolved(executable, name.as_str(), resolved);
            assert(result@ == name@ || result@ == executable@);
            proof {
                if is_mocked(mocked_executables@, name@) {
                    assert(canonical_given(mocked_executables@, executable@, None) == result@);
                } else {
                    assert(canonical_given(mocked_executables@, executable@, found) == result@);
                }
            }
            proof {
                if result@ == name@ && name@ != executable@ && !is_mocked(mocked_executables@, name@) {
                    let location = resolved->Some_0;
                    assert(path_file_name(location@) == Some(name@) && same_path(location@, executable@));
                }
            }
            result
        },
    }
}

/// Once `canonicalize` has shortened an executable to its file name,
/// showing that name again gives it back, whatever the lookups in `PATH`
/// find.
pub proof fn lemma_shortened_name_stays(
    mocked_executables: Seq<String>,
    executable: Seq<char>,
    first: Seq<char>,
    second: Seq<char>,
)
    requires
        canonical_form(mocked_executables, executable, first),
        canonical_form(mocked_executables, first, second),
        first != executable,
    ensures
        second == first,
{
}

/// Showing an executable a second time gives the form it was shown in
/// the first time, when looking its file name up in `PATH` gives the same
/// answer both times (a file name is its own file name, as
/// `canonicalize` ensures).
pub proof fn lemma_canonical_form_stays(
    mocked_executables: Seq<String>,
    executable: Seq<char>,
    found: Option<Seq<char>>,
)
    requires
        path_file_name(executable) matches Some(name) ==> path_file_name(name) == Some(name),
    ensures
        canonical_given(mocked_executables, canonical_given(mocked_executables, executable, found), found)
            == canonical_given(mocked_executables, executable, found),
{
}

/// Whether two executables are the same once both are put in the form in
/// which they are shown (see `canonicalize`); when they are, those forms
/// have the same file name.
pub fn compare_executables(mocked_executables: &Vec<String>, a: &str, b: &str) -> (result: bool)
    ensures
        exists|ca: Seq<char>, cb: Seq<char>|
            #![trigger canonical_form(mocked_executables@, a@, ca), canonical_form(mocked_executables@, b@, cb)]
            canonical_form(mocked_executables@, a@, ca) && canonical_form(mocked_executables@, b@, cb) && result
                == same_path(ca, cb) && (result ==> path_file_name(ca) == path_file_name(cb)),
        exists|found_a: Option<Seq<char>>, found_b: Option<Seq<char>>|
            #![trigger canonical_given(mocked_executables@, a@, found_a), canonical_given(mocked_executables@, b@, found_b)]
            (found_a matches Some(location) ==> path_file_name(location) == path_file_name(a@)) && (
            found_b matches Some(location) ==> path_file_name(location) == path_file_name(b@)) && result
                == same_path(
                canonical_given(mocked_executables@, a@, found_a),
                canonical_given(mocked_executables@, b@, found_b),
            ),
{
    let ca = canonicalize(mocked_executables, a);
    let cb = canonicalize(mocked_executables, b);
    let result = paths_equal(ca.as_str(), cb.as_str());
    assert(canonical_form(mocked_executables@, a@, ca@) && canonical_form(mocked_executables@, b@, cb@));
    proof {
        let found_a = choose|found: Option<Seq<char>>|
            #[trigger] canonical_given(mocked_executables@, a@, found) == ca@ && (found matches Some(location)
                ==> path_file_name(location) == path_file_name(a@));
        let found_b = choose|found: Option<Seq<char>>|
            #[trigger] canonical_given(mocked_executables@, b@, found) == cb@ && (found matches Some(location)
                ==> path_file_name(location) == path_file_name(b@));
        assert(result == same_path(
            canonical_given(mocked_executables@, a@, found_a),
            canonical_given(mocked_executables@, b@, found_b),
        ));
    }
    result
}

/// An executable is shown by its file name only when looking that name up
/// leads back to the executable itself: to `/bin` for a mocked name, else
/// to what `PATH` gave; a name that is merely found somewhere in `PATH`
/// leaves it as it is.
pub proof fn lemma_shortened_only_when_found_back(
    mocked_executables: Seq<String>,
    executable: Seq<char>,
    found: Option<Seq<char>>,
)
    ensures
        canonical_given(mocked_executables, executable, found) == executable || path_file_name(executable)
            == Some(canonical_given(mocked_executables, executable, found)),
        canonical_given(mocked_executables, executable, found) != executable ==> match path_file_name(
            executable,
        ) {
            None => false,
            Some(name) => if is_mocked(mocked_executables, name) {
                same_path(mocked_location(name), executable)
            } else {
                found matches Some(location) && same_path(location, executable)
            },
        },
        found matches Some(location) ==> (path_file_name(executable) matches Some(name) ==> (!same_path(
            location,
            executable,
        ) && !is_mocked(mocked_executables, name) ==> canonical_given(mocked_executables, executable, found)
            == executable)),
{
}

/// Whether `shown` is a form in which `canonicalize` may show `executable`.
pub open spec fn shown_form(mocked_executables: Seq<String>, executable: Seq<char>, shown: Seq<char>) -> bool {
    match path_file_name(executable) {
        None => shown == executable,
        Some(name) => (shown == name || shown == executable) && (is_mocked(mocked_executables, name)
            ==> shown == short_form(executable, name, Some(mocked_location(name)))),
    }
}

} // verus!
