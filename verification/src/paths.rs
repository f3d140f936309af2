//! Where the program keeps its files.
//!
//! Paths are the bytes that a Unix system knows them by.
use vstd::prelude::*;
use vstd::string::StrSliceExecFns;

verus! {

/// The byte between the parts of a path.
pub const SEPARATOR: u8 = 47;

/// The path of `name` seen from a directory: an absolute name stands for itself, any other is
/// appended after a separator, unless the directory ends in one or is empty.
pub open spec fn path_in(directory: Seq<u8>, name: Seq<u8>) -> Seq<u8> {
    if name.len() > 0 && name[0] == SEPARATOR {
        name
    } else if directory.len() == 0 || directory.last() == SEPARATOR {
        directory + name
    } else {
        directory.push(SEPARATOR) + name
    }
}

/// The path of a file whose name is given as text.
pub open spec fn file_in(directory: Seq<u8>, name: Seq<char>) -> Seq<u8> {
    path_in(directory, vstd::utf8::encode_utf8(name))
}

/// The directory, or the current one if there is none.
pub open spec fn or_current(directory: Option<Vec<u8>>) -> Seq<u8> {
    match directory {
        Some(directory) => directory@,
        None => vstd::utf8::encode_utf8("."@),
    }
}

/// A path seen from a directory.
pub fn join_path(directory: &Vec<u8>, name: &Vec<u8>) -> (path: Vec<u8>)
    ensures
        path@ == path_in(directory@, name@),
{
    let mut path: Vec<u8> = Vec::new();
    if !(name.len() > 0 && name[0] == SEPARATOR) {
        path.extend_from_slice(directory.as_slice());
        if directory.len() > 0 && directory[directory.len() - 1] != SEPARATOR {
            path.push(SEPARATOR);
        }
    }
    path.extend_from_slice(name.as_slice());
    assert(path@ =~= path_in(directory@, name@));
    path
}

/// The path of a file whose name is given as text.
pub fn join_file(directory: &Vec<u8>, name: &str) -> (path: Vec<u8>)
    ensures
        path@ == file_in(directory@, name@),
{
    let bytes: Vec<u8> = name.as_bytes_vec();
    join_path(directory, &bytes)
}

/// The directory of the program: the one that holds its executable, or the current one if that is
/// unknown.
pub fn application_dir(executable_dir: Option<Vec<u8>>) -> (directory: Vec<u8>)
    ensures
        directory@ == or_current(executable_dir),
{
    match executable_dir {
        Some(directory) => directory,
        None => ".".as_bytes_vec(),
    }
}

/// The diagnostic log, beside the executable.
pub fn log_path(executable_dir: Option<Vec<u8>>) -> (path: Vec<u8>)
    ensures
        path@ == file_in(or_current(executable_dir), "screenink.log"@),
{
    join_file(&application_dir(executable_dir), "screenink.log")
}

/// The configuration file, beside the executable.
pub fn config_path(executable_dir: Option<Vec<u8>>) -> (path: Vec<u8>)
    ensures
        path@ == file_in(or_current(executable_dir), "config.toml"@),
{
    join_file(&application_dir(executable_dir), "config.toml")
}

/// Where pictures are saved unless the configuration says otherwise: in `Screenshots` under the
/// user's pictures, or under the current directory if these have no place.
pub fn default_output_dir(pictures: Option<Vec<u8>>) -> (path: Vec<u8>)
    ensures
        path@ == file_in(or_current(pictures), "Screenshots"@),
{
    join_file(&application_dir(pictures), "Screenshots")
}

/// A file with a relative name lies in the directory: its path begins with the directory and ends
/// with the name.
pub proof fn law_relative_names_stay_inside(directory: Seq<u8>, name: Seq<u8>)
    requires
        name.len() == 0 || name[0] != SEPARATOR,
    ensures
        directory.len() + name.len() <= path_in(directory, name).len() <= directory.len()
            + name.len() + 1,
        path_in(directory, name).take(directory.len() as int) == directory,
        path_in(directory, name).skip(path_in(directory, name).len() - name.len()) == name,
{
    let path = path_in(directory, name);
    assert(path.take(directory.len() as int) =~= directory);
    assert(path.skip(path.len() - name.len()) =~= name);
}

/// A name is joined to a directory with one separator between them, and with none where the
/// directory is empty or ends in one. An absolute name stands for itself.
pub proof fn law_one_separator_joins(directory: Seq<u8>, name: Seq<u8>)
    ensures
        name.len() > 0 && name[0] == 47 ==> path_in(directory, name) == name,
        !(name.len() > 0 && name[0] == 47) ==> {
            let path = path_in(directory, name);
            let gap = path.len() - directory.len() - name.len();
            &&& 0 <= gap <= 1
            &&& gap == 1 <==> directory.len() > 0 && directory[directory.len() - 1] != 47
            &&& gap == 1 ==> path[directory.len() as int] == 47
            &&& forall|i: int| 0 <= i < directory.len() ==> #[trigger] path[i] == directory[i]
            &&& forall|i: int|
                0 <= i < name.len() ==> path[directory.len() + gap + i] == #[trigger] name[i]
        },
{
}

/// A file is found by the UTF-8 of its name, and a directory that is not known is the current one.
pub proof fn law_places_of_files(directory: Seq<u8>, name: Seq<char>, known: Vec<u8>)
    ensures
        file_in(directory, name) == path_in(directory, vstd::utf8::encode_utf8(name)),
        or_current(Some(known)) == known@,
        or_current(None) == seq![46u8],
{
    reveal_strlit(".");
    reveal_with_fuel(vstd::utf8::encode_utf8, 3);
    assert('.' as u32 == 46);
    assert(46u32 & 0x7F == 46) by (bit_vector);
    assert(or_current(None) =~= seq![46u8]);
}

} // verus!
