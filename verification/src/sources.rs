use vstd::prelude::*;

verus! {

/// Why the command line names no usable set of definition sources.
#[derive(PartialEq, Eq, Structural, Debug, Clone, Copy)]
pub enum SourceError {
    /// Neither a configuration file, a definition file nor a definition directory was given.
    NothingGiven,
    /// A single definition file and a definition directory were both given.
    FileAndDirectory,
}

/// What the command line asks of the definition sources.
pub open spec fn sources_result(has_file: bool, has_directory: bool, has_configs: bool) -> Result<(), SourceError> {
    if !has_file && !has_directory && !has_configs {
        Err(SourceError::NothingGiven)
    } else if has_file && has_directory {
        Err(SourceError::FileAndDirectory)
    } else {
        Ok(())
    }
}

/// Checks which of the configuration file (`-c`), the single definition file
/// (`-f`) and the definition directory (`-r`) were given: at least one is
/// needed, and `-f` and `-r` cannot be used together.
pub fn check_sources(has_file: bool, has_directory: bool, has_configs: bool) -> (r: Result<(), SourceError>)
    ensures
        r == sources_result(has_file, has_directory, has_configs),
        r == Err::<(), SourceError>(SourceError::NothingGiven) <==> !has_file && !has_directory && !has_configs,
        r == Err::<(), SourceError>(SourceError::FileAndDirectory) <==> has_file && has_directory,
        r is Ok <==> (has_file || has_directory || has_configs) && !(has_file && has_directory),
{
    if !has_file && !has_directory && !has_configs {
        Err(SourceError::NothingGiven)
    } else if has_file && has_directory {
        Err(SourceError::FileAndDirectory)
    } else {
        Ok(())
    }
}

/// The views of a list of strings.
pub open spec fn string_views(v: Seq<String>) -> Seq<Seq<char>> {
    v.map_values(|s: String| s@)
}

/// The definition files to read, in order: the single file first, if one was
/// given, then the files found in the definition directory, if one was given.
pub open spec fn definition_paths_spec(file: Option<String>, directory_files: Option<Vec<String>>) -> Seq<Seq<char>> {
    let head: Seq<Seq<char>> = match file {
        Some(f) => seq![f@],
        None => Seq::empty(),
    };
    let tail: Seq<Seq<char>> = match directory_files {
        Some(d) => string_views(d@),
        None => Seq::empty(),
    };
    head + tail
}


/// The definition files read are the single file, if one was given, followed
/// by every file of the directory, in the directory's order, and nothing else.
pub proof fn lemma_definition_paths_order(file: Option<String>, directory_files: Option<Vec<String>>)
    ensures
        ({
            let p = definition_paths_spec(file, directory_files);
            let off: int = if file is Some { 1 } else { 0 };
            &&& p.len() == off + (match directory_files {
                Some(d) => d@.len() as int,
                None => 0int,
            })
            &&& file matches Some(f) ==> p[0] == f@
            &&& directory_files matches Some(d) ==> forall|i: int| 0 <= i < d@.len() ==> p[off + i] == (#[trigger] d@[i])@
        }),
{
    let p = definition_paths_spec(file, directory_files);
    let off: int = if file is Some { 1 } else { 0 };
    match directory_files {
        Some(d) => {
            assert forall|i: int| 0 <= i < d@.len() implies p[off + i] == (#[trigger] d@[i])@ by {
                assert(string_views(d@)[i] == d@[i]@);
            }
        },
        None => {},
    }
}

/// Collects the definition files to read: the single file, then the files of
/// the directory.
pub fn definition_paths(file: Option<String>, directory_files: Option<Vec<String>>) -> (r: Vec<String>)
    ensures
        string_views(r@) == definition_paths_spec(file, directory_files),
        r@.len() == (if file is Some { 1int } else { 0int }) + (match directory_files {
            Some(d) => d@.len() as int,
            None => 0int,
        }),
        file matches Some(f) ==> r@[0]@ == f@,
        directory_files matches Some(d) ==> forall|i: int|
            0 <= i < d@.len() ==> r@[(if file is Some { 1int } else { 0int }) + i]@ == (#[trigger] d@[i])@,
{
    let ghost f0 = file;
    let ghost d0 = directory_files;
    let mut paths: Vec<String> = Vec::new();
    match file {
        Some(f) => {
            paths.push(f);
        },
        None => {},
    }
    match directory_files {
        Some(mut d) => {
            paths.append(&mut d);
        },
        None => {},
    }
    proof {
        assert(string_views(paths@) =~= definition_paths_spec(f0, d0));
        lemma_definition_paths_order(f0, d0);
        assert forall|i: int| 0 <= i < paths@.len() implies #[trigger] paths@[i]@ == string_views(paths@)[i] by {}
    }
    paths
}

/// Whether the collection of manage entities still has to be created: it has
/// when no existing collection bears its name.
pub fn manages_collection_missing(existing: &Vec<String>, manages_id: &String) -> (r: bool)
    ensures
        r == !string_views(existing@).contains(manages_id@),
{
    let n = existing.len();
    let mut i: usize = 0;
    while i < n
        invariant
            n == existing@.len(),
            i <= n,
            forall|j: int| 0 <= j < i ==> existing@[j]@ != manages_id@,
        decreases n - i,
    {
        if existing[i] == *manages_id {
            proof {
                assert(string_views(existing@)[i as int] == manages_id@);
            }
            return false;
        }
        i = i + 1;
    }
    proof {
        if string_views(existing@).contains(manages_id@) {
            let k = choose|k: int| 0 <= k < string_views(existing@).len() && string_views(existing@)[k] == manages_id@;
            assert(existing@[k]@ == manages_id@);
        }
    }
    true
}

/// Whether the root password is to be set: only when one was given and it is not empty.
pub fn should_set_root_password(password: &Option<String>) -> (r: bool)
    ensures
        r == (password matches Some(p) && p@.len() > 0),
{
    match password {
        Some(p) => !p.as_str().is_empty(),
        None => false,
    }
}

} // verus!
